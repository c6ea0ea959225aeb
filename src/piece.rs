use vstd::prelude::*;

use crate::bit_board::{
    all_board_types, bit, area_mask, step_from, decode, encode, knight_bits, lemma_or_assoc, ray_from, step_bit, BitBoard,
    BitBoardSet, BoardType, GRID_MASK,
};
use crate::board::{level_of, set_of, Board, BoardView, Topology};
use crate::square::{Color, Direction, Square};

verus! {

broadcast use vstd::array::group_array_axioms;

#[derive(Copy, Clone, PartialEq, Eq, Structural, Debug, Hash)]
pub enum PieceType {
    Pawn,
    Knight,
    Bishop,
    Rook,
    Queen,
    King,
}

/// Number of piece types.
pub const NUM_PIECES: usize = 6;

/// Letter of a piece type: upper case for White, lower case for Black.
pub open spec fn symbol(piece_type: PieceType, color: Color) -> char {
    match color {
        Color::White => match piece_type {
            PieceType::Pawn => 'P',
            PieceType::Knight => 'N',
            PieceType::Bishop => 'B',
            PieceType::Rook => 'R',
            PieceType::Queen => 'Q',
            PieceType::King => 'K',
        },
        Color::Black => match piece_type {
            PieceType::Pawn => 'p',
            PieceType::Knight => 'n',
            PieceType::Bishop => 'b',
            PieceType::Rook => 'r',
            PieceType::Queen => 'q',
            PieceType::King => 'k',
        },
    }
}

impl PieceType {
    /// The piece's letter as a string.
    pub fn get_char(&self, color: Color) -> (r: &'static str)
        ensures
            r@ == seq![symbol(*self, color)],
    {
        match color {
            Color::White => match self {
                PieceType::Pawn => {
                    proof { reveal_strlit("P"); }
                    "P"
                },
                PieceType::Knight => {
                    proof { reveal_strlit("N"); }
                    "N"
                },
                PieceType::Bishop => {
                    proof { reveal_strlit("B"); }
                    "B"
                },
                PieceType::Rook => {
                    proof { reveal_strlit("R"); }
                    "R"
                },
                PieceType::Queen => {
                    proof { reveal_strlit("Q"); }
                    "Q"
                },
                PieceType::King => {
                    proof { reveal_strlit("K"); }
                    "K"
                },
            },
            Color::Black => match self {
                PieceType::Pawn => {
                    proof { reveal_strlit("p"); }
                    "p"
                },
                PieceType::Knight => {
                    proof { reveal_strlit("n"); }
                    "n"
                },
                PieceType::Bishop => {
                    proof { reveal_strlit("b"); }
                    "b"
                },
                PieceType::Rook => {
                    proof { reveal_strlit("r"); }
                    "r"
                },
                PieceType::Queen => {
                    proof { reveal_strlit("q"); }
                    "q"
                },
                PieceType::King => {
                    proof { reveal_strlit("k"); }
                    "k"
                },
            },
        }
    }
}

/// Union of the square bits of the entries whose board type is `bt` and
/// whose emptiness flag is `want_empty`.
pub open spec fn gathered(s: Seq<(BoardType, BitBoard, bool)>, want_empty: bool, bt: BoardType) -> u64
    decreases s.len(),
{
    if s.len() == 0 {
        0
    } else {
        gathered(s.drop_last(), want_empty, bt) | (if s.last().0 == bt && s.last().2
            == want_empty {
            s.last().1.bits
        } else {
            0
        })
    }
}

/// Sub-board bitmaps of the entries with emptiness flag `want_empty`.
pub open spec fn gathered_set(s: Seq<(BoardType, BitBoard, bool)>, want_empty: bool) -> BitBoardSet {
    set_of(|bt: BoardType| gathered(s, want_empty, bt))
}

/// Grid bits of `targets` inside `bt`'s legal area that `color` does not
/// hold there.
pub open spec fn free_bits(b: BoardView, targets: u64, color: Color, bt: BoardType) -> u64 {
    targets & GRID_MASK & area_mask(level_of(b.board_set, bt)) & !b.occupied.at(color).at(bt)
}

/// Targets expanded across sub-boards, keeping those not held by `color`.
pub open spec fn free_for(b: BoardView, targets: u64, color: Color) -> BitBoardSet {
    gathered_set(b.expand(targets, Some(color.flip())), true)
}

/// Union of the legal areas of the first `n` entries of a topology.
pub open spec fn area_upto(top: Topology, n: int) -> u64
    decreases n,
{
    if n <= 0 {
        0
    } else {
        area_upto(top, n - 1) | area_mask(top@[n - 1].1)
    }
}

/// Squares occupied or void on every sub-board.
pub open spec fn blocked_everywhere(b: BoardView) -> u64 {
    set_of(|bt: BoardType| b.occupied.union_at(bt) | b.void.at(bt)).intersection_bits()
}

/// Squares that stop a sliding piece: occupied or void on every sub-board,
/// within the area of some bound level.
pub open spec fn ray_blockers(b: BoardView) -> u64 {
    blocked_everywhere(b) & area_upto(b.board_set, 7)
}

/// The grid bits of a piece's position.
pub open spec fn grid_of(p: Piece) -> u64 {
    p.position.bits & GRID_MASK
}

/// The four diagonal rays from the piece's square.
pub open spec fn bishop_targets(p: Piece, b: BoardView) -> u64 {
    let g = grid_of(p);
    let k = ray_blockers(b);
    ray_from(g, k, Direction::DownLeft) | ray_from(g, k, Direction::DownRight) | ray_from(
        g,
        k,
        Direction::UpLeft,
    ) | ray_from(g, k, Direction::UpRight)
}

/// The four orthogonal rays from the piece's square.
pub open spec fn rook_targets(p: Piece, b: BoardView) -> u64 {
    let g = grid_of(p);
    let k = ray_blockers(b);
    ray_from(g, k, Direction::Down) | ray_from(g, k, Direction::Up) | ray_from(
        g,
        k,
        Direction::Left,
    ) | ray_from(g, k, Direction::Right)
}

/// All eight rays from the piece's square.
pub open spec fn queen_targets(p: Piece, b: BoardView) -> u64 {
    rook_targets(p, b) | bishop_targets(p, b)
}

/// The eight neighbouring squares of the piece's square.
pub open spec fn king_targets(p: Piece) -> u64 {
    let g = grid_of(p);
    step_bit(g, Direction::Down) | step_bit(g, Direction::Up) | step_bit(g, Direction::Left)
        | step_bit(g, Direction::Right) | step_bit(g, Direction::DownLeft) | step_bit(
        g,
        Direction::DownRight,
    ) | step_bit(g, Direction::UpLeft) | step_bit(g, Direction::UpRight)
}

/// A pawn's forward squares: one step, and a second one when the pawn has
/// not moved and the first is not blocked on every sub-board.
pub open spec fn pawn_push_targets(p: Piece, b: BoardView) -> u64 {
    let fwd = Direction::forward_of(p.color);
    let one = step_bit(grid_of(p), fwd);
    if !p.is_moved && !(blocked_everywhere(b) & one == one) {
        one | step_bit(one, fwd)
    } else {
        one
    }
}

/// A pawn's two forward diagonal squares.
pub open spec fn pawn_capture_targets(p: Piece) -> u64 {
    step_bit(grid_of(p), Direction::forward_left_of(p.color)) | step_bit(
        grid_of(p),
        Direction::forward_right_of(p.color),
    )
}

/// A pawn's attacks: forward squares that are empty of every piece, and
/// diagonal squares that hold an opposing piece.
pub open spec fn pawn_attacks(p: Piece, b: BoardView) -> BitBoardSet {
    let quiet = gathered_set(b.expand(pawn_push_targets(p, b), None), true);
    let captures = gathered_set(b.expand(pawn_capture_targets(p), Some(p.color)), false);
    set_of(|bt: BoardType| quiet.at(bt) | captures.at(bt))
}

/// The attack set a piece of its type has on a board.
pub open spec fn attack_set(p: Piece, b: BoardView) -> BitBoardSet {
    match p.piece_type {
        PieceType::Pawn => pawn_attacks(p, b),
        PieceType::Knight => free_for(b, knight_bits(grid_of(p)), p.color),
        PieceType::Bishop => free_for(b, bishop_targets(p, b), p.color),
        PieceType::Rook => free_for(b, rook_targets(p, b), p.color),
        PieceType::Queen => free_for(b, queen_targets(p, b), p.color),
        PieceType::King => free_for(b, king_targets(p), p.color),
    }
}

/// Squares of the attack bitmaps on the first `n` board types, each tagged
/// with the level its board type is bound to; board types in declaration
/// order, squares lowest bit first.
pub open spec fn squares_upto(attacks: BitBoardSet, top: Topology, n: int, k: int) -> Seq<Square>
    decreases n, k,
{
    if n <= 0 {
        seq![]
    } else if k <= 0 {
        squares_upto(attacks, top, n - 1, 60)
    } else {
        let prev = squares_upto(attacks, top, n, k - 1);
        let bt = all_board_types()[n - 1];
        let i = k - 1;
        if bit(attacks.at(bt), i) {
            prev.push(
                decode(
                    (1u64 << (i as u64)) | ((level_of(top, bt).index() as u64)
                        << 60u64),
                ),
            )
        } else {
            prev
        }
    }
}

/// Grid bits below bit `n`.
pub open spec fn low_mask(n: u64) -> u64 {
    ((1u64 << n) - 1u64) as u64
}

/// The targets that an expansion keeps on `bt`: grid bits of `targets` in
/// `bt`'s area that are free (`want_empty`) or held (otherwise).
pub open spec fn kept_bits(
    b: BoardView,
    targets: u64,
    ignore: Option<Color>,
    want_empty: bool,
    bt: BoardType,
) -> u64 {
    let occ = b.occupied_bits(ignore, bt);
    targets & area_mask(level_of(b.board_set, bt)) & (if want_empty {
        !occ
    } else {
        occ
    })
}

proof fn lemma_gathered_append(
    a: Seq<(BoardType, BitBoard, bool)>,
    c: Seq<(BoardType, BitBoard, bool)>,
    want_empty: bool,
    bt: BoardType,
)
    ensures
        gathered(a + c, want_empty, bt) == gathered(a, want_empty, bt) | gathered(
            c,
            want_empty,
            bt,
        ),
    decreases c.len(),
{
    if c.len() == 0 {
        assert(a + c =~= a);
        lemma_or_assoc(gathered(a, want_empty, bt), 0, 0);
    } else {
        lemma_gathered_append(a, c.drop_last(), want_empty, bt);
        assert((a + c).drop_last() =~= a + c.drop_last());
        assert((a + c).last() == c.last());
        let last = c.last();
        lemma_or_assoc(
            gathered(a, want_empty, bt),
            gathered(c.drop_last(), want_empty, bt),
            if last.0 == bt && last.2 == want_empty {
                last.1.bits
            } else {
                0
            },
        );
    }
}

proof fn lemma_gathered_other_part(
    b: BoardView,
    other: BoardType,
    targets: u64,
    ignore: Option<Color>,
    n: int,
    want_empty: bool,
    bt: BoardType,
)
    requires
        other != bt,
    ensures
        gathered(b.board_part(other, targets, ignore, n), want_empty, bt) == 0,
    decreases n,
{
    lemma_or_assoc(0, 0, 0);
    if n > 0 {
        lemma_gathered_other_part(b, other, targets, ignore, n - 1, want_empty, bt);
        let prev = b.board_part(other, targets, ignore, n - 1);
        let cur = b.board_part(other, targets, ignore, n);
        if cur.len() > prev.len() {
            assert(cur.drop_last() =~= prev);
        }
    }
}

proof fn lemma_bit_step(x: u64, k: u64)
    requires
        k < 60,
    ensures
        (x >> k) & 1 == 1 ==> (x & low_mask(k)) | (1u64 << k) == x & low_mask((k + 1) as u64),
        (x >> k) & 1 != 1 ==> (x & low_mask(k)) | 0 == x & low_mask((k + 1) as u64),
{
    assert((x >> k) & 1 == 1 ==> (x & (((1u64 << k) - 1u64) as u64)) | (1u64 << k) == x & (((1u64
        << ((k + 1) as u64)) - 1u64) as u64)) by (bit_vector)
        requires
            k < 60,
    ;
    assert((x >> k) & 1 != 1 ==> (x & (((1u64 << k) - 1u64) as u64)) | 0 == x & (((1u64 << ((k
        + 1) as u64)) - 1u64) as u64)) by (bit_vector)
        requires
            k < 60,
    ;
}

proof fn lemma_bit_and(t: u64, a: u64, o: u64, k: u64)
    requires
        k < 60,
    ensures
        ((t & a & !o) >> k) & 1 == 1 <==> ((t >> k) & 1 == 1 && (a >> k) & 1 == 1 && !((o >> k)
            & 1 == 1)),
        ((t & a & o) >> k) & 1 == 1 <==> ((t >> k) & 1 == 1 && (a >> k) & 1 == 1 && (o >> k) & 1
            == 1),
{
    assert(((t & a & !o) >> k) & 1 == 1 <==> ((t >> k) & 1 == 1 && (a >> k) & 1 == 1 && !((o
        >> k) & 1 == 1))) by (bit_vector);
    assert(((t & a & o) >> k) & 1 == 1 <==> ((t >> k) & 1 == 1 && (a >> k) & 1 == 1 && (o >> k)
        & 1 == 1)) by (bit_vector);
}

proof fn lemma_gathered_own_part(
    b: BoardView,
    bt: BoardType,
    targets: u64,
    ignore: Option<Color>,
    n: int,
    want_empty: bool,
)
    requires
        0 <= n <= 60,
    ensures
        gathered(b.board_part(bt, targets, ignore, n), want_empty, bt) == kept_bits(
            b,
            targets,
            ignore,
            want_empty,
            bt,
        ) & low_mask(n as u64),
    decreases n,
{
    let x = kept_bits(b, targets, ignore, want_empty, bt);
    if n == 0 {
        assert(x & (((1u64 << 0u64) - 1u64) as u64) == 0) by (bit_vector);
    } else {
        let k = n - 1;
        lemma_gathered_own_part(b, bt, targets, ignore, k, want_empty);
        let prev = b.board_part(bt, targets, ignore, k);
        let cur = b.board_part(bt, targets, ignore, n);
        lemma_bit_step(x, k as u64);
        lemma_bit_and(
            targets,
            area_mask(level_of(b.board_set, bt)),
            b.occupied_bits(ignore, bt),
            k as u64,
        );
        if cur.len() > prev.len() {
            assert(cur.drop_last() =~= prev);
        } else {
            lemma_or_assoc(gathered(prev, want_empty, bt), 0, 0);
        }
    }
}

proof fn lemma_expand_upto_gathered(
    b: BoardView,
    targets: u64,
    ignore: Option<Color>,
    n: int,
    want_empty: bool,
    bt: BoardType,
)
    requires
        0 <= n <= 7,
    ensures
        gathered(b.expand_upto(targets, ignore, n), want_empty, bt) == if bt.index() < n {
            kept_bits(b, targets, ignore, want_empty, bt) & low_mask(60)
        } else {
            0
        },
    decreases n,
{
    if n == 0 {
    } else {
        lemma_expand_upto_gathered(b, targets, ignore, n - 1, want_empty, bt);
        let other = all_board_types()[n - 1];
        assert(other.index() == n - 1) by {
            if n == 1 {
            } else if n == 2 {
            } else if n == 3 {
            } else if n == 4 {
            } else if n == 5 {
            } else if n == 6 {
            } else {
            }
        }
        let prev = b.expand_upto(targets, ignore, n - 1);
        let part = b.board_part(other, targets, ignore, 60);
        lemma_gathered_append(prev, part, want_empty, bt);
        if other == bt {
            lemma_gathered_own_part(b, bt, targets, ignore, 60, want_empty);
            lemma_or_assoc(gathered(part, want_empty, bt), 0, 0);
        } else {
            lemma_gathered_other_part(b, other, targets, ignore, 60, want_empty, bt);
            lemma_or_assoc(gathered(prev, want_empty, bt), 0, 0);
        }
    }
}

/// What an expansion keeps, stated directly: on each sub-board, the grid
/// bits of the targets inside its legal area that are free, or held, as
/// asked.
pub proof fn lemma_expand_gathered(
    b: BoardView,
    targets: u64,
    ignore: Option<Color>,
    want_empty: bool,
    bt: BoardType,
)
    ensures
        gathered(b.expand(targets, ignore), want_empty, bt) == targets & GRID_MASK & area_mask(
            level_of(b.board_set, bt),
        ) & (if want_empty {
            !b.occupied_bits(ignore, bt)
        } else {
            b.occupied_bits(ignore, bt)
        }),
{
    let o = b.occupancy_only();
    lemma_expand_upto_gathered(o, targets, ignore, 7, want_empty, bt);
    let a = area_mask(level_of(b.board_set, bt));
    let occ = b.occupied_bits(ignore, bt);
    assert(low_mask(60) == GRID_MASK) by (bit_vector);
    assert((targets & a & !occ) & GRID_MASK == targets & GRID_MASK & a & !occ) by (bit_vector);
    assert((targets & a & occ) & GRID_MASK == targets & GRID_MASK & a & occ) by (bit_vector);
}

/// The moves a non-pawn piece has on each sub-board: its targets inside
/// that sub-board's legal area, less the squares its own side holds there.
pub proof fn lemma_free_for(b: BoardView, targets: u64, color: Color, bt: BoardType)
    ensures
        free_for(b, targets, color).at(bt) == free_bits(b, targets, color, bt),
{
    lemma_expand_gathered(b, targets, Some(color.flip()), true, bt);
    assert(color.flip().flip() == color);
}

/// A pawn's moves on each sub-board: forward targets inside the legal area
/// that no piece holds, and diagonal targets inside it that the other side
/// holds.
pub proof fn lemma_pawn_attacks(p: Piece, b: BoardView, bt: BoardType)
    ensures
        pawn_attacks(p, b).at(bt) == (pawn_push_targets(p, b) & GRID_MASK & area_mask(
            level_of(b.board_set, bt),
        ) & !b.occupied.union_at(bt)) | (pawn_capture_targets(p) & GRID_MASK & area_mask(
            level_of(b.board_set, bt),
        ) & b.occupied.at(p.color.flip()).at(bt)),
{
    lemma_expand_gathered(b, pawn_push_targets(p, b), None, true, bt);
    lemma_expand_gathered(b, pawn_capture_targets(p), Some(p.color), false, bt);
}

proof fn lemma_step_bit_grid(x: u64, dir: Direction)
    ensures
        step_bit(x, dir) & GRID_MASK == step_bit(x, dir),
{
    let r = decode(x).rank.index();
    let f = decode(x).file.index();
    let (r2, f2) = step_from(dir, r, f);
    let k = (r2 + 10 * f2) as u64;
    assert(k < 60);
    assert((1u64 << k) & GRID_MASK == 1u64 << k) by (bit_vector)
        requires
            k < 60,
    ;
}

/// An unmoved pawn whose first forward square is not blocked on every
/// sub-board moves one or two squares forward; both squares are in its
/// attacks on any sub-board whose area holds them and where they are
/// empty. Once the pawn has moved, only the first square remains.
pub proof fn lemma_pawn_double_step(p: Piece, b: BoardView, bt: BoardType)
    requires
        !p.is_moved,
        ({
            let one = step_bit(grid_of(p), Direction::forward_of(p.color));
            !(blocked_everywhere(b) & one == one)
        }),
    ensures
        ({
            let fwd = Direction::forward_of(p.color);
            let one = step_bit(grid_of(p), fwd);
            let two = step_bit(one, fwd);
            let area = area_mask(level_of(b.board_set, bt));
            let occ = b.occupied.union_at(bt);
            &&& pawn_push_targets(p, b) == one | two
            &&& (area & one == one && occ & one == 0) ==> pawn_attacks(p, b).at(bt) & one == one
            &&& (area & two == two && occ & two == 0) ==> pawn_attacks(p, b).at(bt) & two == two
            &&& pawn_push_targets(Piece { is_moved: true, ..p }, b) == one
        }),
{
    let fwd = Direction::forward_of(p.color);
    let one = step_bit(grid_of(p), fwd);
    let two = step_bit(one, fwd);
    let area = area_mask(level_of(b.board_set, bt));
    let occ = b.occupied.union_at(bt);
    let y = pawn_capture_targets(p) & GRID_MASK & area & b.occupied.at(p.color.flip()).at(bt);
    lemma_pawn_attacks(p, b, bt);
    lemma_step_bit_grid(grid_of(p), fwd);
    lemma_step_bit_grid(one, fwd);
    assert((one & GRID_MASK == one && area & one == one && occ & one == 0) ==> (((one | two)
        & GRID_MASK & area & !occ) | y) & one == one) by (bit_vector);
    assert((two & GRID_MASK == two && area & two == two && occ & two == 0) ==> (((one | two)
        & GRID_MASK & area & !occ) | y) & two == two) by (bit_vector);
}

/// The square bits of the entries flagged `want_empty`, per sub-board.
fn collect(entries: &Vec<(BoardType, BitBoard, bool)>, want_empty: bool) -> (r: BitBoardSet)
    ensures
        r == gathered_set(entries@, want_empty),
{
    let mut acc = BitBoardSet::new();
    let mut i: usize = 0;
    while i < entries.len()
        invariant
            i <= entries.len(),
            forall|bt: BoardType| #[trigger]
                acc.at(bt) == gathered(entries@.take(i as int), want_empty, bt),
        decreases entries.len() - i,
    {
        let (bt, square, empty) = entries[i];
        let ghost before = acc;
        if empty == want_empty {
            let cur = acc.get(bt);
            acc.set(bt, cur.union(square));
        }
        proof {
            let s = entries@.take(i + 1);
            assert(s.drop_last() =~= entries@.take(i as int));
            assert(s.last() == entries@[i as int]);
            assert forall|b: BoardType| #[trigger]
                acc.at(b) == gathered(s, want_empty, b) by {
                lemma_or_assoc(before.at(b), 0, 0);
            }
        }
        i += 1;
    }
    proof {
        assert(entries@.take(i as int) =~= entries@);
        BitBoardSet::lemma_ext(acc, gathered_set(entries@, want_empty));
    }
    acc
}

/// A piece on the board with the squares it attacks.
#[derive(Copy, Clone, PartialEq, Eq, Structural, Debug, Hash)]
pub struct Piece {
    pub piece_type: PieceType,
    pub color: Color,
    pub position: BitBoard,
    pub attacks: BitBoardSet,
    pub is_moved: bool,
}

impl Piece {
    /// A piece that has not moved yet and attacks nothing.
    pub open spec fn fresh(position: BitBoard, piece_type: PieceType, color: Color) -> Piece {
        Piece {
            piece_type,
            color,
            position,
            attacks: BitBoardSet {
                white: BitBoard { bits: 0 },
                neutral: BitBoard { bits: 0 },
                black: BitBoard { bits: 0 },
                white_queen: BitBoard { bits: 0 },
                white_king: BitBoard { bits: 0 },
                black_queen: BitBoard { bits: 0 },
                black_king: BitBoard { bits: 0 },
            },
            is_moved: false,
        }
    }

    pub fn new(position: BitBoard, piece_type: PieceType, color: Color) -> (r: Piece)
        ensures
            r == Piece::fresh(position, piece_type, color),
    {
        let attacks = BitBoardSet::new();
        proof {
            BitBoardSet::lemma_ext(attacks, Piece::fresh(position, piece_type, color).attacks);
        }
        Piece { piece_type, color, position, attacks, is_moved: false }
    }

    /// The square the piece stands on.
    pub fn get_square(&self) -> (r: Square)
        ensures
            r == decode(self.position.bits),
    {
        self.position.into_square()
    }

    /// The piece's letter.
    pub fn get_char(&self) -> (r: &'static str)
        ensures
            r@ == seq![symbol(self.piece_type, self.color)],
    {
        self.piece_type.get_char(self.color)
    }

    /// The attacked squares, each on the level its sub-board is bound to.
    pub fn get_attack_squares(&self, board: &Board) -> (r: Vec<Square>)
        ensures
            r@ == squares_upto(self.attacks, board.board_set, 7, 60),
    {
        let types = BoardType::iter();
        let mut result: Vec<Square> = Vec::new();
        let mut n: usize = 0;
        while n < 7
            invariant
                n <= 7,
                types@ == all_board_types(),
                result@ == squares_upto(self.attacks, board.board_set, n as int, 60),
            decreases 7 - n,
        {
            let bt = types[n];
            let bits = self.attacks.get(bt).bits;
            let tag = board.convert_level(bt).into_bit_board();
            let mut k: u64 = 0;
            assert(squares_upto(self.attacks, board.board_set, n + 1, 0) == squares_upto(
                self.attacks,
                board.board_set,
                n as int,
                60,
            ));
            while k < 60
                invariant
                    k <= 60,
                    n < 7,
                    bt == all_board_types()[n as int],
                    bits == self.attacks.at(bt),
                    tag.bits == (level_of(board.board_set, bt).index() as u64)
                        << 60u64,
                    result@ == squares_upto(self.attacks, board.board_set, n + 1, k as int),
                decreases 60 - k,
            {
                if (bits >> k) & 1 == 1 {
                    result.push(BitBoard::from_bits_retain(1u64 << k).union(tag).into_square());
                }
                k += 1;
            }
            n += 1;
        }
        result
    }

    /// Squares that stop a sliding piece on this board.
    pub fn compute_ray_occupied(board: &Board) -> (r: BitBoard)
        ensures
            r.bits == ray_blockers(board@),
    {
        let occupied = board.occupied_piece.union().combine(&board.occupied_void);
        proof {
            BitBoardSet::lemma_ext(
                occupied,
                set_of(|bt: BoardType| board@.occupied.union_at(bt) | board@.void.at(bt)),
            );
        }
        let occupied = occupied.intersection();
        let mut area = BitBoard::empty();
        let mut i: usize = 0;
        while i < 7
            invariant
                i <= 7,
                area.bits == area_upto(board.board_set, i as int),
            decreases 7 - i,
        {
            area = area.union(board.board_set[i].1.get_bit_board());
            i += 1;
        }
        occupied.intersection(area)
    }

    /// Recompute the attack set from the board's occupancy.
    pub fn update_attacks(&mut self, board: &Board)
        ensures
            *final(self) == (Piece { attacks: attack_set(*old(self), board@), ..*old(self) }),
    {
        self.attacks = match self.piece_type {
            PieceType::Pawn => self.compute_pawn_attacks(board),
            PieceType::Knight => self.compute_knight_attacks(board),
            PieceType::Bishop => self.compute_bishop_attacks(board),
            PieceType::Rook => self.compute_rook_attacks(board),
            PieceType::Queen => self.compute_queen_attacks(board),
            PieceType::King => self.compute_king_attacks(board),
        };
    }

    /// Pawn moves: forward squares empty of every piece, and forward
    /// diagonals holding an opposing piece.
    pub fn compute_pawn_attacks(&self, board: &Board) -> (r: BitBoardSet)
        ensures
            r == pawn_attacks(*self, board@),
            forall|bt: BoardType|
                #[trigger] r.at(bt) == (pawn_push_targets(*self, board@) & GRID_MASK & area_mask(
                    level_of(board.board_set, bt),
                ) & !board@.occupied.union_at(bt)) | (pawn_capture_targets(*self) & GRID_MASK
                    & area_mask(level_of(board.board_set, bt)) & board@.occupied.at(
                    self.color.flip(),
                ).at(bt)),
    {
        let position = self.position.remove_level();
        let blocked = board.occupied_piece.union().combine(&board.occupied_void);
        proof {
            BitBoardSet::lemma_ext(
                blocked,
                set_of(|bt: BoardType| board@.occupied.union_at(bt) | board@.void.at(bt)),
            );
        }
        let blocked = blocked.intersection();
        let forward = Direction::forward(self.color);
        let one = position.step(forward);
        let destination = if !self.is_moved && !blocked.contains(one) {
            one.union(one.step(forward))
        } else {
            one
        };
        let quiet = collect(&board.get_empty_board(destination, None), true);
        let diagonals = position.step(Direction::forward_left(self.color)).union(
            position.step(Direction::forward_right(self.color)),
        );
        let captures = collect(&board.get_empty_board(diagonals, Some(self.color)), false);
        let r = quiet.combine(&captures);
        proof {
            BitBoardSet::lemma_ext(r, pawn_attacks(*self, board@));
            assert forall|bt: BoardType|
                #[trigger] r.at(bt) == (pawn_push_targets(*self, board@) & GRID_MASK & area_mask(
                    level_of(board.board_set, bt),
                ) & !board@.occupied.union_at(bt)) | (pawn_capture_targets(*self) & GRID_MASK
                    & area_mask(level_of(board.board_set, bt)) & board@.occupied.at(
                    self.color.flip(),
                ).at(bt)) by {
                lemma_pawn_attacks(*self, board@, bt);
            }
        }
        r
    }

    /// Knight moves: the eight L-shaped jumps, less squares of its own color.
    pub fn compute_knight_attacks(&self, board: &Board) -> (r: BitBoardSet)
        ensures
            r == free_for(board@, knight_bits(grid_of(*self)), self.color),
            forall|bt: BoardType|
                #[trigger] r.at(bt) == free_bits(board@, knight_bits(grid_of(*self)), self.color, bt),
    {
        let destination = self.position.remove_level().knight_targets();
        let r = collect(&board.get_empty_board(destination, Some(self.color.opposite())), true);
        proof {
            assert forall|bt: BoardType| #[trigger] r.at(bt) == free_bits(board@, destination.bits, self.color, bt) by {
                lemma_free_for(board@, destination.bits, self.color, bt);
            }
        }
        r
    }

    /// Bishop moves: the four diagonal rays, less squares of its own color.
    pub fn compute_bishop_attacks(&self, board: &Board) -> (r: BitBoardSet)
        ensures
            r == free_for(board@, bishop_targets(*self, board@), self.color),
            forall|bt: BoardType|
                #[trigger] r.at(bt) == free_bits(board@, bishop_targets(*self, board@), self.color, bt),
    {
        let position = self.position.remove_level();
        let occupied = Piece::compute_ray_occupied(board);
        let destination = position.ray(occupied, Direction::DownLeft).union(
            position.ray(occupied, Direction::DownRight),
        ).union(position.ray(occupied, Direction::UpLeft)).union(
            position.ray(occupied, Direction::UpRight),
        );
        let r = collect(&board.get_empty_board(destination, Some(self.color.opposite())), true);
        proof {
            assert forall|bt: BoardType| #[trigger] r.at(bt) == free_bits(board@, destination.bits, self.color, bt) by {
                lemma_free_for(board@, destination.bits, self.color, bt);
            }
        }
        r
    }

    /// Rook moves: the four orthogonal rays, less squares of its own color.
    pub fn compute_rook_attacks(&self, board: &Board) -> (r: BitBoardSet)
        ensures
            r == free_for(board@, rook_targets(*self, board@), self.color),
            forall|bt: BoardType|
                #[trigger] r.at(bt) == free_bits(board@, rook_targets(*self, board@), self.color, bt),
    {
        let position = self.position.remove_level();
        let occupied = Piece::compute_ray_occupied(board);
        let destination = position.ray(occupied, Direction::Down).union(
            position.ray(occupied, Direction::Up),
        ).union(position.ray(occupied, Direction::Left)).union(
            position.ray(occupied, Direction::Right),
        );
        let r = collect(&board.get_empty_board(destination, Some(self.color.opposite())), true);
        proof {
            assert forall|bt: BoardType| #[trigger] r.at(bt) == free_bits(board@, destination.bits, self.color, bt) by {
                lemma_free_for(board@, destination.bits, self.color, bt);
            }
        }
        r
    }

    /// Queen moves: all eight rays, less squares of its own color.
    pub fn compute_queen_attacks(&self, board: &Board) -> (r: BitBoardSet)
        ensures
            r == free_for(board@, queen_targets(*self, board@), self.color),
            forall|bt: BoardType|
                #[trigger] r.at(bt) == free_bits(board@, queen_targets(*self, board@), self.color, bt),
    {
        let position = self.position.remove_level();
        let occupied = Piece::compute_ray_occupied(board);
        let orthogonal = position.ray(occupied, Direction::Down).union(
            position.ray(occupied, Direction::Up),
        ).union(position.ray(occupied, Direction::Left)).union(
            position.ray(occupied, Direction::Right),
        );
        let diagonal = position.ray(occupied, Direction::DownLeft).union(
            position.ray(occupied, Direction::DownRight),
        ).union(position.ray(occupied, Direction::UpLeft)).union(
            position.ray(occupied, Direction::UpRight),
        );
        let destination = orthogonal.union(diagonal);
        let r = collect(&board.get_empty_board(destination, Some(self.color.opposite())), true);
        proof {
            assert forall|bt: BoardType| #[trigger] r.at(bt) == free_bits(board@, destination.bits, self.color, bt) by {
                lemma_free_for(board@, destination.bits, self.color, bt);
            }
        }
        r
    }

    /// King moves: the eight neighbouring squares, less squares of its own
    /// color.
    pub fn compute_king_attacks(&self, board: &Board) -> (r: BitBoardSet)
        ensures
            r == free_for(board@, king_targets(*self), self.color),
            forall|bt: BoardType|
                #[trigger] r.at(bt) == free_bits(board@, king_targets(*self), self.color, bt),
    {
        let position = self.position.remove_level();
        let destination = position.step(Direction::Down).union(position.step(Direction::Up)).union(
            position.step(Direction::Left),
        ).union(position.step(Direction::Right)).union(position.step(Direction::DownLeft)).union(
            position.step(Direction::DownRight),
        ).union(position.step(Direction::UpLeft)).union(position.step(Direction::UpRight));
        let r = collect(&board.get_empty_board(destination, Some(self.color.opposite())), true);
        proof {
            assert forall|bt: BoardType| #[trigger] r.at(bt) == free_bits(board@, destination.bits, self.color, bt) by {
                lemma_free_for(board@, destination.bits, self.color, bt);
            }
        }
        r
    }
}

} // verus!
