use vstd::prelude::*;
use vstd::std_specs::bits::{axiom_u64_trailing_zeros, u64_trailing_zeros};

use crate::square::{Color, Direction, File, Level, Rank, Square};

verus! {

/// Bit position of the level tag in a packed position.
pub const LEVEL_SHIFT: u64 = 60;

/// The 60 bits of the file-by-rank grid.
pub const GRID_MASK: u64 = 0x0FFF_FFFF_FFFF_FFFF;

/// Legal area of each level, as grid bits.
pub const WHITE_AREA: u64 = 0x0000_1E07_81E0_7800;
pub const NEUTRAL_AREA: u64 = 0x0000_781E_0781_E000;
pub const BLACK_AREA: u64 = 0x0001_E078_1E07_8000;
pub const QL1_AREA: u64 = 0x0000_0000_0000_0C03;
pub const QL2_AREA: u64 = 0x0000_0000_0000_C030;
pub const QL3_AREA: u64 = 0x0000_0000_0000_300C;
pub const QL4_AREA: u64 = 0x0000_0000_0003_00C0;
pub const QL5_AREA: u64 = 0x0000_0000_0000_C030;
pub const QL6_AREA: u64 = 0x0000_0000_000C_0300;
pub const KL1_AREA: u64 = 0x000C_0300_0000_0000;
pub const KL2_AREA: u64 = 0x00C0_3000_0000_0000;
pub const KL3_AREA: u64 = 0x0030_0C00_0000_0000;
pub const KL4_AREA: u64 = 0x0300_C000_0000_0000;
pub const KL5_AREA: u64 = 0x00C0_3000_0000_0000;
pub const KL6_AREA: u64 = 0x0C03_0000_0000_0000;

/// Squares of one rank across all files.
pub const RANK_ZERO: u64 = 0x0004_0100_4010_0401;
pub const RANK_ONE: u64 = 0x0008_0200_8020_0802;
pub const RANK_EIGHT: u64 = 0x0401_0040_1004_0100;
pub const RANK_NINE: u64 = 0x0802_0080_2008_0200;

/// Whether bit `i` of `x` is set.
pub open spec fn bit(x: u64, i: int) -> bool {
    0 <= i < 64 && (x >> (i as u64)) & 1 == 1
}

/// Grid bit of the square at (rank, file).
pub open spec fn square_bit(rank: int, file: int) -> u64 {
    1u64 << ((rank + 10 * file) as u64)
}

/// Packed encoding of a square: its grid bit with the level tag on top.
pub open spec fn encode(sq: Square) -> u64 {
    square_bit(sq.rank.index(), sq.file.index()) | ((sq.level.index() as u64) << 60u64)
}

/// Index of the lowest set bit, 64 for zero.
pub open spec fn low_index(x: u64) -> int {
    u64_trailing_zeros(x) as int
}

/// Square named by the lowest grid bit and the level tag; rank, file and
/// level saturate to their ranges.
pub open spec fn decode(x: u64) -> Square {
    Square {
        rank: Rank::clamped(low_index(x) % 10),
        file: File::clamped(low_index(x) / 10),
        level: Level::clamped((x >> 60u64) as int),
    }
}

/// Legal area of a level.
pub open spec fn area_mask(level: Level) -> u64 {
    match level {
        Level::White => WHITE_AREA,
        Level::Neutral => NEUTRAL_AREA,
        Level::Black => BLACK_AREA,
        Level::QL1 => QL1_AREA,
        Level::QL2 => QL2_AREA,
        Level::QL3 => QL3_AREA,
        Level::QL4 => QL4_AREA,
        Level::QL5 => QL5_AREA,
        Level::QL6 => QL6_AREA,
        Level::KL1 => KL1_AREA,
        Level::KL2 => KL2_AREA,
        Level::KL3 => KL3_AREA,
        Level::KL4 => KL4_AREA,
        Level::KL5 => KL5_AREA,
        Level::KL6 => KL6_AREA,
    }
}

/// Rank and file after one step in `dir`, or the same square where the step
/// would leave the grid.
pub open spec fn step_from(dir: Direction, rank: int, file: int) -> (int, int) {
    if dir.can_step(rank, file) {
        (rank + dir.rank_delta(), file + dir.file_delta())
    } else {
        (rank, file)
    }
}

/// Grid bit one step in `dir` from the lowest set square of `x`, or that
/// square's bit where the step would leave the grid.
pub open spec fn step_bit(x: u64, dir: Direction) -> u64 {
    square_bit(
        step_from(dir, decode(x).rank.index(), decode(x).file.index()).0,
        step_from(dir, decode(x).rank.index(), decode(x).file.index()).1,
    )
}

/// Steps left before a ray in `dir` reaches the grid edge.
pub open spec fn room(dir: Direction, rank: int, file: int) -> int {
    (if dir.rank_delta() == 1 {
        9 - rank
    } else if dir.rank_delta() == -1 {
        rank
    } else {
        0
    }) + (if dir.file_delta() == 1 {
        5 - file
    } else if dir.file_delta() == -1 {
        file
    } else {
        0
    })
}

/// Squares a ray from (rank, file) in `dir` reaches: each next square in
/// turn, up to and including the first one set in `blockers`, or up to the
/// grid edge.
pub open spec fn ray_bits(dir: Direction, rank: int, file: int, blockers: u64) -> u64
    decreases room(dir, rank, file),
{
    if 0 <= rank < 10 && 0 <= file < 6 && dir.can_step(rank, file) {
        let next = square_bit(rank + dir.rank_delta(), file + dir.file_delta());
        if blockers & next != 0 {
            next
        } else {
            next | ray_bits(dir, rank + dir.rank_delta(), file + dir.file_delta(), blockers)
        }
    } else {
        0
    }
}

/// Squares a ray from the lowest set square of `x` in `dir` reaches.
pub open spec fn ray_from(x: u64, blockers: u64, dir: Direction) -> u64 {
    ray_bits(dir, decode(x).rank.index(), decode(x).file.index(), blockers)
}

/// Knight targets of the grid bits `p`: eight shifts, each with the ranks
/// that a shift would reach only by wrapping round the grid masked out.
pub open spec fn knight_bits(p: u64) -> u64 {
    (p >> 21u64 & !RANK_NINE) | (p >> 19u64 & !RANK_ZERO) | (p >> 12u64 & !(RANK_NINE
        | RANK_EIGHT)) | (p >> 8u64 & !(RANK_ZERO | RANK_ONE)) | (p << 8u64 & !(RANK_NINE
        | RANK_EIGHT)) | (p << 12u64 & !(RANK_ZERO | RANK_ONE)) | (p << 19u64 & !RANK_NINE) | (p
        << 21u64 & !RANK_ZERO)
}

pub proof fn lemma_or_assoc(a: u64, b: u64, c: u64)
    ensures
        a | (b | c) == (a | b) | c,
        a | 0 == a,
        0 | a == a,
{
    assert(0 | a == a) by (bit_vector);
    assert(a | (b | c) == (a | b) | c) by (bit_vector);
    assert(a | 0 == a) by (bit_vector);
}

proof fn lemma_packed_bits(k: u64, t: u64)
    requires
        k < 60,
        t < 16,
    ensures
        ((1u64 << k) | (t << 60u64)) >> 60u64 == t,
        (((1u64 << k) | (t << 60u64)) >> k) & 1 == 1,
        forall|j: u64| j < k ==> (((1u64 << k) | (t << 60u64)) >> j) & 1 == 0,
{
    assert(((1u64 << k) | (t << 60u64)) >> 60u64 == t) by (bit_vector)
        requires
            k < 60,
            t < 16,
    ;
    assert((((1u64 << k) | (t << 60u64)) >> k) & 1 == 1) by (bit_vector)
        requires
            k < 60,
            t < 16,
    ;
    assert(forall|j: u64| j < k ==> (((1u64 << k) | (t << 60u64)) >> j) & 1 == 0) by (bit_vector)
        requires
            k < 60,
            t < 16,
    ;
}

/// The lowest set bit of `x` is bit `k` when bit `k` is set and none below it.
proof fn lemma_low_index(x: u64, k: u64)
    requires
        k < 64,
        (x >> k) & 1 == 1,
        forall|j: u64| j < k ==> (x >> j) & 1 == 0,
    ensures
        low_index(x) == k,
{
    broadcast use axiom_u64_trailing_zeros;

    let z = u64_trailing_zeros(x);
    if (z as u64) < k {
        assert((x >> (z as u64)) & 1 == 0);
    } else if (z as u64) > k {
        assert((x >> k) & 1u64 == 0u64);
    }
}

pub proof fn lemma_rank_clamped(r: Rank)
    ensures
        Rank::clamped(r.index()) == r,
{
}

pub proof fn lemma_file_clamped(f: File)
    ensures
        File::clamped(f.index()) == f,
{
}

pub proof fn lemma_level_clamped(l: Level)
    ensures
        Level::clamped(l.index()) == l,
{
}

/// Decoding an encoded square gives the square back.
pub proof fn lemma_round_trip(sq: Square)
    ensures
        decode(encode(sq)) == sq,
{
    let r = sq.rank.index();
    let f = sq.file.index();
    let k = (r + 10 * f) as u64;
    let t = sq.level.index() as u64;
    lemma_packed_bits(k, t);
    lemma_low_index(encode(sq), k);
    assert((r + 10 * f) % 10 == r && (r + 10 * f) / 10 == f) by (nonlinear_arith)
        requires
            0 <= r < 10,
            0 <= f < 6,
    ;
    lemma_rank_clamped(sq.rank);
    lemma_file_clamped(sq.file);
    lemma_level_clamped(sq.level);
}

/// A packed position: a bitmap over the 6 by 10 grid in the low 60 bits and
/// a level tag in the top 4.
#[derive(Copy, Clone, PartialEq, Eq, Structural, Debug, Hash)]
pub struct BitBoard {
    pub bits: u64,
}

impl BitBoard {
    pub fn empty() -> (r: BitBoard)
        ensures
            r.bits == 0,
    {
        BitBoard { bits: 0 }
    }

    pub fn from_bits_retain(bits: u64) -> (r: BitBoard)
        ensures
            r.bits == bits,
    {
        BitBoard { bits }
    }

    pub fn bits(&self) -> (r: u64)
        ensures
            r == self.bits,
    {
        self.bits
    }

    pub fn union(&self, other: BitBoard) -> (r: BitBoard)
        ensures
            r.bits == self.bits | other.bits,
    {
        BitBoard { bits: self.bits | other.bits }
    }

    pub fn intersection(&self, other: BitBoard) -> (r: BitBoard)
        ensures
            r.bits == self.bits & other.bits,
    {
        BitBoard { bits: self.bits & other.bits }
    }

    pub fn complement(&self) -> (r: BitBoard)
        ensures
            r.bits == !self.bits,
    {
        BitBoard { bits: !self.bits }
    }

    /// Whether every bit of `other` is set here.
    pub fn contains(&self, other: BitBoard) -> (r: bool)
        ensures
            r == (self.bits & other.bits == other.bits),
    {
        self.bits & other.bits == other.bits
    }

    /// Grid bit of the square at (rank, file), with no level tag.
    pub fn at(rank: u8, file: u8) -> (r: BitBoard)
        requires
            rank < 10,
            file < 6,
        ensures
            r.bits == square_bit(rank as int, file as int),
    {
        BitBoard { bits: 1u64 << (rank as u64 + 10 * file as u64) }
    }

    pub fn from_square(square: &Square) -> (r: BitBoard)
        ensures
            r.bits == encode(*square),
    {
        let shift = square.rank.to_u8() as u64 + square.file.to_u8() as u64 * 10;
        BitBoard { bits: (1u64 << shift) | ((square.level.to_u8() as u64) << LEVEL_SHIFT) }
    }

    pub fn into_square(&self) -> (r: Square)
        ensures
            r == decode(self.bits),
    {
        broadcast use axiom_u64_trailing_zeros;

        let bits = self.bits;
        let shift = bits.trailing_zeros() as u8;
        let tag = bits >> LEVEL_SHIFT;
        assert(bits >> 60u64 <= 15) by (bit_vector);
        Square::new(Rank::from_u8(shift % 10), File::from_u8(shift / 10), Level::from_u8(tag as u8))
    }

    /// The grid bits alone, level tag cleared.
    pub fn remove_level(&self) -> (r: BitBoard)
        ensures
            r.bits == self.bits & GRID_MASK,
    {
        BitBoard { bits: self.bits & GRID_MASK }
    }

    /// Level named by the tag bits, saturated to the range of levels.
    pub fn get_level(&self) -> (r: Level)
        ensures
            r == decode(self.bits).level,
    {
        self.into_square().level
    }

    /// Grid bit one step in `dir` from the lowest set square, or that square
    /// itself where the step would leave the grid. No level tag.
    pub fn step(&self, dir: Direction) -> (r: BitBoard)
        ensures
            r.bits == step_bit(self.bits, dir),
    {
        let sq = self.into_square();
        let rank = sq.rank.to_u8();
        let file = sq.file.to_u8();
        match step_coords(dir, rank, file) {
            Some((r, f)) => BitBoard::at(r, f),
            None => BitBoard::at(rank, file),
        }
    }

    /// Knight targets of the grid bits.
    pub fn knight_targets(&self) -> (r: BitBoard)
        ensures
            r.bits == knight_bits(self.bits),
    {
        let p = self.bits;
        BitBoard {
            bits: (p >> 21u64 & !RANK_NINE) | (p >> 19u64 & !RANK_ZERO) | (p >> 12u64 & !(RANK_NINE
                | RANK_EIGHT)) | (p >> 8u64 & !(RANK_ZERO | RANK_ONE)) | (p << 8u64 & !(RANK_NINE
                | RANK_EIGHT)) | (p << 12u64 & !(RANK_ZERO | RANK_ONE)) | (p << 19u64
                & !RANK_NINE) | (p << 21u64 & !RANK_ZERO),
        }
    }

    /// Squares reached by a ray from the lowest set square in `dir`, stopping
    /// at and including the first square set in `blockers`, or at the grid
    /// edge.
    pub fn ray(&self, blockers: BitBoard, dir: Direction) -> (r: BitBoard)
        ensures
            r.bits == ray_from(self.bits, blockers.bits, dir),
    {
        let sq = self.into_square();
        let mut rank = sq.rank.to_u8();
        let mut file = sq.file.to_u8();
        let mut acc: u64 = 0;
        proof {
            lemma_or_assoc(ray_bits(dir, rank as int, file as int, blockers.bits), 0, 0);
        }
        loop
            invariant
                sq == decode(self.bits),
                rank < 10,
                file < 6,
                acc | ray_bits(dir, rank as int, file as int, blockers.bits) == ray_bits(
                    dir,
                    sq.rank.index(),
                    sq.file.index(),
                    blockers.bits,
                ),
            decreases room(dir, rank as int, file as int),
        {
            match step_coords(dir, rank, file) {
                None => {
                    proof {
                        lemma_or_assoc(acc, 0, 0);
                        assert(ray_bits(dir, rank as int, file as int, blockers.bits) == 0);
                    }
                    return BitBoard { bits: acc };
                },
                Some((r, f)) => {
                    let next = 1u64 << (r as u64 + 10 * f as u64);
                    proof {
                        lemma_or_assoc(acc, next, ray_bits(dir, r as int, f as int, blockers.bits));
                        assert(next == square_bit(r as int, f as int));
                    }
                    acc = acc | next;
                    if blockers.bits & next != 0 {
                        return BitBoard { bits: acc };
                    }
                    rank = r;
                    file = f;
                },
            }
        }
    }
}

/// Rank and file after one step in `dir`, or `None` where it would leave the
/// grid.
pub fn step_coords(dir: Direction, rank: u8, file: u8) -> (r: Option<(u8, u8)>)
    requires
        rank < 10,
        file < 6,
    ensures
        dir.can_step(rank as int, file as int) ==> r == Some((
            (rank as int + dir.rank_delta()) as u8,
            (file as int + dir.file_delta()) as u8,
        )),
        !dir.can_step(rank as int, file as int) ==> r.is_none(),
{
    let up = rank < 9;
    let down = rank > 0;
    let right = file < 5;
    let left = file > 0;
    match dir {
        Direction::Up => if up { Some((rank + 1, file)) } else { None },
        Direction::Down => if down { Some((rank - 1, file)) } else { None },
        Direction::Left => if left { Some((rank, file - 1)) } else { None },
        Direction::Right => if right { Some((rank, file + 1)) } else { None },
        Direction::UpLeft => if up && left { Some((rank + 1, file - 1)) } else { None },
        Direction::UpRight => if up && right { Some((rank + 1, file + 1)) } else { None },
        Direction::DownLeft => if down && left { Some((rank - 1, file - 1)) } else { None },
        Direction::DownRight => if down && right { Some((rank - 1, file + 1)) } else { None },
    }
}

/// The seven playable sub-boards.
#[derive(Copy, Clone, PartialEq, Eq, Structural, Debug, Hash)]
pub enum BoardType {
    White,
    Neutral,
    Black,
    WhiteQueen,
    WhiteKing,
    BlackQueen,
    BlackKing,
}

/// All board types, in declaration order.
pub open spec fn all_board_types() -> Seq<BoardType> {
    seq![
        BoardType::White,
        BoardType::Neutral,
        BoardType::Black,
        BoardType::WhiteQueen,
        BoardType::WhiteKing,
        BoardType::BlackQueen,
        BoardType::BlackKing,
    ]
}

impl BoardType {
    /// Position of the board type in declaration order, 0 to 6.
    pub open spec fn index(self) -> int {
        match self {
            BoardType::White => 0,
            BoardType::Neutral => 1,
            BoardType::Black => 2,
            BoardType::WhiteQueen => 3,
            BoardType::WhiteKing => 4,
            BoardType::BlackQueen => 5,
            BoardType::BlackKing => 6,
        }
    }

    pub fn to_usize(&self) -> (r: usize)
        ensures
            r as int == self.index(),
    {
        match self {
            BoardType::White => 0,
            BoardType::Neutral => 1,
            BoardType::Black => 2,
            BoardType::WhiteQueen => 3,
            BoardType::WhiteKing => 4,
            BoardType::BlackQueen => 5,
            BoardType::BlackKing => 6,
        }
    }

    /// All board types, in declaration order.
    pub fn iter() -> (r: Vec<BoardType>)
        ensures
            r@ == all_board_types(),
    {
        vec![
            BoardType::White,
            BoardType::Neutral,
            BoardType::Black,
            BoardType::WhiteQueen,
            BoardType::WhiteKing,
            BoardType::BlackQueen,
            BoardType::BlackKing,
        ]
    }
}

/// One packed bitmap per sub-board.
#[derive(Copy, Clone, PartialEq, Eq, Structural, Debug, Hash)]
pub struct BitBoardSet {
    pub white: BitBoard,
    pub neutral: BitBoard,
    pub black: BitBoard,
    pub white_queen: BitBoard,
    pub white_king: BitBoard,
    pub black_queen: BitBoard,
    pub black_king: BitBoard,
}

impl BitBoardSet {
    /// The bitmap of one sub-board.
    pub open spec fn at(self, bt: BoardType) -> u64 {
        match bt {
            BoardType::White => self.white.bits,
            BoardType::Neutral => self.neutral.bits,
            BoardType::Black => self.black.bits,
            BoardType::WhiteQueen => self.white_queen.bits,
            BoardType::WhiteKing => self.white_king.bits,
            BoardType::BlackQueen => self.black_queen.bits,
            BoardType::BlackKing => self.black_king.bits,
        }
    }

    /// All seven bitmaps or-ed together.
    pub open spec fn union_bits(self) -> u64 {
        self.white.bits | self.neutral.bits | self.black.bits | self.white_queen.bits
            | self.white_king.bits | self.black_queen.bits | self.black_king.bits
    }

    /// All seven bitmaps and-ed together.
    pub open spec fn intersection_bits(self) -> u64 {
        self.white.bits & self.neutral.bits & self.black.bits & self.white_queen.bits
            & self.white_king.bits & self.black_queen.bits & self.black_king.bits
    }

    /// Two sets with the same bitmap on every sub-board are equal.
    pub proof fn lemma_ext(a: BitBoardSet, b: BitBoardSet)
        requires
            forall|bt: BoardType| a.at(bt) == b.at(bt),
        ensures
            a == b,
    {
        assert(a.at(BoardType::White) == b.at(BoardType::White));
        assert(a.at(BoardType::Neutral) == b.at(BoardType::Neutral));
        assert(a.at(BoardType::Black) == b.at(BoardType::Black));
        assert(a.at(BoardType::WhiteQueen) == b.at(BoardType::WhiteQueen));
        assert(a.at(BoardType::WhiteKing) == b.at(BoardType::WhiteKing));
        assert(a.at(BoardType::BlackQueen) == b.at(BoardType::BlackQueen));
        assert(a.at(BoardType::BlackKing) == b.at(BoardType::BlackKing));
    }

    /// Every sub-board empty.
    pub fn new() -> (r: BitBoardSet)
        ensures
            forall|bt: BoardType| r.at(bt) == 0,
    {
        let e = BitBoard::empty();
        BitBoardSet {
            white: e,
            neutral: e,
            black: e,
            white_queen: e,
            white_king: e,
            black_queen: e,
            black_king: e,
        }
    }

    pub fn get(&self, bt: BoardType) -> (r: BitBoard)
        ensures
            r.bits == self.at(bt),
    {
        match bt {
            BoardType::White => self.white,
            BoardType::Neutral => self.neutral,
            BoardType::Black => self.black,
            BoardType::WhiteQueen => self.white_queen,
            BoardType::WhiteKing => self.white_king,
            BoardType::BlackQueen => self.black_queen,
            BoardType::BlackKing => self.black_king,
        }
    }

    pub fn set(&mut self, bt: BoardType, value: BitBoard)
        ensures
            forall|b: BoardType|
                #![trigger final(self).at(b)]
                final(self).at(b) == if b == bt {
                    value.bits
                } else {
                    old(self).at(b)
                },
    {
        match bt {
            BoardType::White => self.white = value,
            BoardType::Neutral => self.neutral = value,
            BoardType::Black => self.black = value,
            BoardType::WhiteQueen => self.white_queen = value,
            BoardType::WhiteKing => self.white_king = value,
            BoardType::BlackQueen => self.black_queen = value,
            BoardType::BlackKing => self.black_king = value,
        }
    }

    /// Every sub-board's bitmap or-ed together.
    pub fn union(&self) -> (r: BitBoard)
        ensures
            r.bits == self.union_bits(),
    {
        BitBoard {
            bits: self.white.bits | self.neutral.bits | self.black.bits | self.white_queen.bits
                | self.white_king.bits | self.black_queen.bits | self.black_king.bits,
        }
    }

    /// Every sub-board's bitmap and-ed together: the bits set on all seven.
    pub fn intersection(&self) -> (r: BitBoard)
        ensures
            r.bits == self.intersection_bits(),
    {
        BitBoard {
            bits: self.white.bits & self.neutral.bits & self.black.bits & self.white_queen.bits
                & self.white_king.bits & self.black_queen.bits & self.black_king.bits,
        }
    }

    /// Sub-board by sub-board union with `other`.
    pub fn combine(&self, other: &BitBoardSet) -> (r: BitBoardSet)
        ensures
            forall|bt: BoardType| #[trigger] r.at(bt) == self.at(bt) | other.at(bt),
    {
        BitBoardSet {
            white: self.white.union(other.white),
            neutral: self.neutral.union(other.neutral),
            black: self.black.union(other.black),
            white_queen: self.white_queen.union(other.white_queen),
            white_king: self.white_king.union(other.white_king),
            black_queen: self.black_queen.union(other.black_queen),
            black_king: self.black_king.union(other.black_king),
        }
    }
}

} // verus!
