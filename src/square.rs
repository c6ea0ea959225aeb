use vstd::prelude::*;

use crate::bit_board::{area_mask, BitBoard, BLACK_AREA, KL1_AREA, KL2_AREA, KL3_AREA, KL4_AREA, KL5_AREA, KL6_AREA, NEUTRAL_AREA, QL1_AREA, QL2_AREA, QL3_AREA, QL4_AREA, QL5_AREA, QL6_AREA, WHITE_AREA};

verus! {

/// Number of ranks on the grid.
pub const NUM_RANKS: u8 = 10;

/// Number of files on the grid.
pub const NUM_FILES: u8 = 6;

#[derive(Copy, Clone, PartialEq, Eq, Structural, Debug, Hash)]
pub enum Rank {
    Zero,
    One,
    Two,
    Three,
    Four,
    Five,
    Six,
    Seven,
    Eight,
    Nine,
}

impl Rank {
    /// Position of the rank on the grid, 0 to 9.
    pub open spec fn index(self) -> int {
        match self {
            Rank::Zero => 0,
            Rank::One => 1,
            Rank::Two => 2,
            Rank::Three => 3,
            Rank::Four => 4,
            Rank::Five => 5,
            Rank::Six => 6,
            Rank::Seven => 7,
            Rank::Eight => 8,
            Rank::Nine => 9,
        }
    }

    /// The rank at position `i`, saturated to the grid.
    pub open spec fn clamped(i: int) -> Rank {
        if i <= 0 {
            Rank::Zero
        } else if i == 1 {
            Rank::One
        } else if i == 2 {
            Rank::Two
        } else if i == 3 {
            Rank::Three
        } else if i == 4 {
            Rank::Four
        } else if i == 5 {
            Rank::Five
        } else if i == 6 {
            Rank::Six
        } else if i == 7 {
            Rank::Seven
        } else if i == 8 {
            Rank::Eight
        } else {
            Rank::Nine
        }
    }

    pub fn to_u8(&self) -> (r: u8)
        ensures
            r as int == self.index(),
    {
        match self {
            Rank::Zero => 0,
            Rank::One => 1,
            Rank::Two => 2,
            Rank::Three => 3,
            Rank::Four => 4,
            Rank::Five => 5,
            Rank::Six => 6,
            Rank::Seven => 7,
            Rank::Eight => 8,
            Rank::Nine => 9,
        }
    }

    /// The rank at position `i`; positions past the last rank give the last.
    pub fn from_u8(i: u8) -> (r: Rank)
        ensures
            r == Rank::clamped(i as int),
    {
        match i {
            0 => Rank::Zero,
            1 => Rank::One,
            2 => Rank::Two,
            3 => Rank::Three,
            4 => Rank::Four,
            5 => Rank::Five,
            6 => Rank::Six,
            7 => Rank::Seven,
            8 => Rank::Eight,
            _ => Rank::Nine,
        }
    }

    /// One rank down; the first rank stays where it is.
    pub fn down(&self) -> (r: Rank)
        ensures
            r == Rank::clamped(self.index() - 1),
    {
        let i = self.to_u8();
        if i == 0 {
            Rank::Zero
        } else {
            Rank::from_u8(i - 1)
        }
    }

    /// One rank up; the last rank stays where it is.
    pub fn up(&self) -> (r: Rank)
        ensures
            r == Rank::clamped(self.index() + 1),
    {
        Rank::from_u8(self.to_u8() + 1)
    }
}

#[derive(Copy, Clone, PartialEq, Eq, Structural, Debug, Hash)]
pub enum File {
    Z,
    A,
    B,
    C,
    D,
    E,
}

impl File {
    /// Position of the file on the grid, 0 (Z) to 5 (E).
    pub open spec fn index(self) -> int {
        match self {
            File::Z => 0,
            File::A => 1,
            File::B => 2,
            File::C => 3,
            File::D => 4,
            File::E => 5,
        }
    }

    /// The file at position `i`, saturated to the grid.
    pub open spec fn clamped(i: int) -> File {
        if i <= 0 {
            File::Z
        } else if i == 1 {
            File::A
        } else if i == 2 {
            File::B
        } else if i == 3 {
            File::C
        } else if i == 4 {
            File::D
        } else {
            File::E
        }
    }

    pub fn to_u8(&self) -> (r: u8)
        ensures
            r as int == self.index(),
    {
        match self {
            File::Z => 0,
            File::A => 1,
            File::B => 2,
            File::C => 3,
            File::D => 4,
            File::E => 5,
        }
    }

    /// The file at position `i`; positions past the last file give the last.
    pub fn from_u8(i: u8) -> (r: File)
        ensures
            r == File::clamped(i as int),
    {
        match i {
            0 => File::Z,
            1 => File::A,
            2 => File::B,
            3 => File::C,
            4 => File::D,
            _ => File::E,
        }
    }

    /// One file to the left; the first file stays where it is.
    pub fn left(&self) -> (r: File)
        ensures
            r == File::clamped(self.index() - 1),
    {
        let i = self.to_u8();
        if i == 0 {
            File::Z
        } else {
            File::from_u8(i - 1)
        }
    }

    /// One file to the right; the last file stays where it is.
    pub fn right(&self) -> (r: File)
        ensures
            r == File::clamped(self.index() + 1),
    {
        File::from_u8(self.to_u8() + 1)
    }
}

/// The vertical layers: three main boards and twelve wing positions.
#[derive(Copy, Clone, PartialEq, Eq, Structural, Debug, Hash)]
pub enum Level {
    White,
    Neutral,
    Black,
    QL1,
    QL2,
    QL3,
    QL4,
    QL5,
    QL6,
    KL1,
    KL2,
    KL3,
    KL4,
    KL5,
    KL6,
}

impl Level {
    /// The level's tag in the top four bits of a packed position, 1 to 15.
    pub open spec fn index(self) -> int {
        match self {
            Level::White => 1,
            Level::Neutral => 2,
            Level::Black => 3,
            Level::QL1 => 4,
            Level::QL2 => 5,
            Level::QL3 => 6,
            Level::QL4 => 7,
            Level::QL5 => 8,
            Level::QL6 => 9,
            Level::KL1 => 10,
            Level::KL2 => 11,
            Level::KL3 => 12,
            Level::KL4 => 13,
            Level::KL5 => 14,
            Level::KL6 => 15,
        }
    }

    /// The level with tag `i`, saturated to the range of tags.
    pub open spec fn clamped(i: int) -> Level {
        if i <= 1 {
            Level::White
        } else if i == 2 {
            Level::Neutral
        } else if i == 3 {
            Level::Black
        } else if i == 4 {
            Level::QL1
        } else if i == 5 {
            Level::QL2
        } else if i == 6 {
            Level::QL3
        } else if i == 7 {
            Level::QL4
        } else if i == 8 {
            Level::QL5
        } else if i == 9 {
            Level::QL6
        } else if i == 10 {
            Level::KL1
        } else if i == 11 {
            Level::KL2
        } else if i == 12 {
            Level::KL3
        } else if i == 13 {
            Level::KL4
        } else if i == 14 {
            Level::KL5
        } else {
            Level::KL6
        }
    }

    pub fn to_u8(&self) -> (r: u8)
        ensures
            r as int == self.index(),
    {
        match self {
            Level::White => 1,
            Level::Neutral => 2,
            Level::Black => 3,
            Level::QL1 => 4,
            Level::QL2 => 5,
            Level::QL3 => 6,
            Level::QL4 => 7,
            Level::QL5 => 8,
            Level::QL6 => 9,
            Level::KL1 => 10,
            Level::KL2 => 11,
            Level::KL3 => 12,
            Level::KL4 => 13,
            Level::KL5 => 14,
            Level::KL6 => 15,
        }
    }

    /// The level with tag `i`; tags outside 1..=15 give the nearest level.
    pub fn from_u8(i: u8) -> (r: Level)
        ensures
            r == Level::clamped(i as int),
    {
        match i {
            0 | 1 => Level::White,
            2 => Level::Neutral,
            3 => Level::Black,
            4 => Level::QL1,
            5 => Level::QL2,
            6 => Level::QL3,
            7 => Level::QL4,
            8 => Level::QL5,
            9 => Level::QL6,
            10 => Level::KL1,
            11 => Level::KL2,
            12 => Level::KL3,
            13 => Level::KL4,
            14 => Level::KL5,
            _ => Level::KL6,
        }
    }

    /// The level's tag in place in an otherwise empty packed position.
    pub fn into_bit_board(&self) -> (r: BitBoard)
        ensures
            r.bits == (self.index() as u64) << 60u64,
    {
        BitBoard::from_bits_retain((self.to_u8() as u64) << 60u64)
    }

    /// The squares of the grid that belong to this level's board.
    pub fn get_bit_board(&self) -> (r: BitBoard)
        ensures
            r.bits == area_mask(*self),
    {
        let bits = match self {
            Level::White => WHITE_AREA,
            Level::Neutral => NEUTRAL_AREA,
            Level::Black => BLACK_AREA,
            Level::QL1 => QL1_AREA,
            Level::QL2 => QL2_AREA,
            Level::QL3 => QL3_AREA,
            Level::QL4 => QL4_AREA,
            Level::QL5 => QL5_AREA,
            Level::QL6 => QL6_AREA,
            Level::KL1 => KL1_AREA,
            Level::KL2 => KL2_AREA,
            Level::KL3 => KL3_AREA,
            Level::KL4 => KL4_AREA,
            Level::KL5 => KL5_AREA,
            Level::KL6 => KL6_AREA,
        };
        BitBoard::from_bits_retain(bits)
    }
}

#[derive(Copy, Clone, PartialEq, Eq, Structural, Debug, Hash)]
pub enum Color {
    White,
    Black,
}

impl Color {
    /// The other side.
    pub open spec fn flip(self) -> Color {
        match self {
            Color::White => Color::Black,
            Color::Black => Color::White,
        }
    }

    pub fn opposite(&self) -> (r: Color)
        ensures
            r == self.flip(),
    {
        match self {
            Color::White => Color::Black,
            Color::Black => Color::White,
        }
    }

    /// Both colors, White first.
    pub fn iter() -> (r: Vec<Color>)
        ensures
            r@ == seq![Color::White, Color::Black],
    {
        vec![Color::White, Color::Black]
    }
}

/// Directions of a single step on the grid.
#[derive(Copy, Clone, PartialEq, Eq, Structural, Debug, Hash)]
pub enum Direction {
    Up,
    Down,
    Left,
    Right,
    UpLeft,
    UpRight,
    DownLeft,
    DownRight,
}

impl Direction {
    /// Change of rank in one step.
    pub open spec fn rank_delta(self) -> int {
        match self {
            Direction::Up | Direction::UpLeft | Direction::UpRight => 1,
            Direction::Down | Direction::DownLeft | Direction::DownRight => -1,
            _ => 0,
        }
    }

    /// Change of file in one step.
    pub open spec fn file_delta(self) -> int {
        match self {
            Direction::Right | Direction::UpRight | Direction::DownRight => 1,
            Direction::Left | Direction::UpLeft | Direction::DownLeft => -1,
            _ => 0,
        }
    }

    /// The forward direction of `color`'s pawns.
    pub open spec fn forward_of(color: Color) -> Direction {
        match color {
            Color::White => Direction::Up,
            Color::Black => Direction::Down,
        }
    }

    /// Forward and to the left, seen from White's side.
    pub open spec fn forward_left_of(color: Color) -> Direction {
        match color {
            Color::White => Direction::UpLeft,
            Color::Black => Direction::DownLeft,
        }
    }

    /// Forward and to the right, seen from White's side.
    pub open spec fn forward_right_of(color: Color) -> Direction {
        match color {
            Color::White => Direction::UpRight,
            Color::Black => Direction::DownRight,
        }
    }

    pub fn forward(color: Color) -> (r: Direction)
        ensures
            r == Direction::forward_of(color),
    {
        match color {
            Color::White => Direction::Up,
            Color::Black => Direction::Down,
        }
    }

    pub fn forward_left(color: Color) -> (r: Direction)
        ensures
            r == Direction::forward_left_of(color),
    {
        match color {
            Color::White => Direction::UpLeft,
            Color::Black => Direction::DownLeft,
        }
    }

    pub fn forward_right(color: Color) -> (r: Direction)
        ensures
            r == Direction::forward_right_of(color),
    {
        match color {
            Color::White => Direction::UpRight,
            Color::Black => Direction::DownRight,
        }
    }

    /// Whether one step from (rank, file) stays on the grid.
    pub open spec fn can_step(self, rank: int, file: int) -> bool {
        &&& 0 <= rank + self.rank_delta() < 10
        &&& 0 <= file + self.file_delta() < 6
    }
}

#[derive(Copy, Clone, PartialEq, Eq, Structural, Debug, Hash)]
pub struct Square {
    pub rank: Rank,
    pub file: File,
    pub level: Level,
}

impl Square {
    pub fn new(rank: Rank, file: File, level: Level) -> (r: Square)
        ensures
            r == (Square { rank, file, level }),
    {
        Square { rank, file, level }
    }

    pub fn down(&self) -> (r: Square)
        ensures
            r == (Square { rank: Rank::clamped(self.rank.index() - 1), ..*self }),
    {
        Square::new(self.rank.down(), self.file, self.level)
    }

    pub fn up(&self) -> (r: Square)
        ensures
            r == (Square { rank: Rank::clamped(self.rank.index() + 1), ..*self }),
    {
        Square::new(self.rank.up(), self.file, self.level)
    }

    pub fn left(&self) -> (r: Square)
        ensures
            r == (Square { file: File::clamped(self.file.index() - 1), ..*self }),
    {
        Square::new(self.rank, self.file.left(), self.level)
    }

    pub fn right(&self) -> (r: Square)
        ensures
            r == (Square { file: File::clamped(self.file.index() + 1), ..*self }),
    {
        Square::new(self.rank, self.file.right(), self.level)
    }

    /// One rank towards the opponent of `color`.
    pub fn forward(&self, color: Color) -> (r: Square)
        ensures
            r == (match color {
                Color::White => Square { rank: Rank::clamped(self.rank.index() + 1), ..*self },
                Color::Black => Square { rank: Rank::clamped(self.rank.index() - 1), ..*self },
            }),
    {
        match color {
            Color::White => self.up(),
            Color::Black => self.down(),
        }
    }

    /// One rank towards `color`'s own side.
    pub fn backward(&self, color: Color) -> (r: Square)
        ensures
            r == (match color {
                Color::White => Square { rank: Rank::clamped(self.rank.index() - 1), ..*self },
                Color::Black => Square { rank: Rank::clamped(self.rank.index() + 1), ..*self },
            }),
    {
        match color {
            Color::White => self.down(),
            Color::Black => self.up(),
        }
    }
}

} // verus!
