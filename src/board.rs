use vstd::prelude::*;

use crate::bit_board::{
    all_board_types, area_mask, bit, decode, encode, lemma_round_trip, square_bit, lemma_or_assoc, BitBoard, BitBoardSet, BoardType,
    GRID_MASK,
};
use crate::color_mask::ColorMask;
use crate::piece::{attack_set, Piece, PieceType};
use crate::piece_move::MoveError;
use crate::square::{Color, Level, Square};

verus! {

broadcast use vstd::array::group_array_axioms;

/// The level each board type is bound to, in board-type order.
pub type Topology = [(BoardType, Level); 7];

/// Level bound to `bt`.
pub open spec fn level_of(top: Topology, bt: BoardType) -> Level {
    top@[bt.index()].1
}

/// First board type, from entry `i` on, bound to `level`.
pub open spec fn find_level(top: Topology, level: Level, i: int) -> Option<BoardType>
    decreases 7 - i,
{
    if 0 <= i < 7 {
        if top@[i].1 == level {
            Some(top@[i].0)
        } else {
            find_level(top, level, i + 1)
        }
    } else {
        None
    }
}

/// Board type of a level: the main levels map directly, any other level to
/// the first board type bound to it, if one is.
pub open spec fn board_type_of(top: Topology, level: Level) -> Option<BoardType> {
    match level {
        Level::White => Some(BoardType::White),
        Level::Neutral => Some(BoardType::Neutral),
        Level::Black => Some(BoardType::Black),
        _ => find_level(top, level, 0),
    }
}

/// Whether the topology binds the board types in declaration order and the
/// three main board types to the three main levels.
pub open spec fn topology_wf(top: Topology) -> bool {
    &&& forall|i: int| 0 <= i < 7 ==> #[trigger] top@[i].0 == all_board_types()[i]
    &&& top@[0].1 == Level::White
    &&& top@[1].1 == Level::Neutral
    &&& top@[2].1 == Level::Black
}

/// Whether the grid square of a level-tagged position lies in the legal
/// area of its level.
pub open spec fn position_valid(pos: u64) -> bool {
    area_mask(decode(pos).level) & (pos & GRID_MASK) == pos & GRID_MASK
}

/// Whether a square lies in the legal area of its level.
pub open spec fn square_on_board(sq: Square) -> bool {
    area_mask(sq.level) & square_bit(sq.rank.index(), sq.file.index()) == square_bit(
        sq.rank.index(),
        sq.file.index(),
    )
}

/// A square inside its level's area encodes to a valid position.
pub proof fn lemma_encode_valid(sq: Square)
    requires
        square_on_board(sq),
    ensures
        position_valid(encode(sq)),
{
    lemma_round_trip(sq);
    let k = (sq.rank.index() + 10 * sq.file.index()) as u64;
    let t = sq.level.index() as u64;
    assert(((1u64 << k) | (t << 60u64)) & GRID_MASK == 1u64 << k) by (bit_vector)
        requires
            k < 60,
            t < 16,
    ;
}

/// Whether every piece stands inside the legal area of its level.
pub open spec fn pieces_valid(pieces: Seq<Piece>) -> bool {
    forall|i: int| 0 <= i < pieces.len() ==> position_valid(#[trigger] pieces[i].position.bits)
}

proof fn lemma_board_type_index(j: int)
    requires
        0 <= j < 7,
    ensures
        all_board_types()[j].index() == j,
{
    if j == 0 {
    } else if j == 1 {
    } else if j == 2 {
    } else if j == 3 {
    } else if j == 4 {
    } else if j == 5 {
    } else {
    }
}

proof fn lemma_find_level(top: Topology, level: Level, i: int, bt: BoardType)
    requires
        topology_wf(top),
        0 <= i <= 7,
        find_level(top, level, i) == Some(bt),
    ensures
        level_of(top, bt) == level,
    decreases 7 - i,
{
    if i < 7 {
        if top@[i].1 == level {
            lemma_board_type_index(i);
        } else {
            lemma_find_level(top, level, i + 1, bt);
        }
    }
}

/// Under a well-formed topology, the board type a level is bound to is
/// bound back to that level.
pub proof fn lemma_board_type_level(top: Topology, level: Level, bt: BoardType)
    requires
        topology_wf(top),
        board_type_of(top, level) == Some(bt),
    ensures
        level_of(top, bt) == level,
{
    match level {
        Level::White | Level::Neutral | Level::Black => {},
        _ => lemma_find_level(top, level, 0, bt),
    }
}

/// Index of the first piece, from `i` on, standing exactly on `pos`.
pub open spec fn index_of(s: Seq<Piece>, pos: u64, i: int) -> Option<int>
    decreases s.len() - i,
{
    if 0 <= i < s.len() {
        if s[i].position.bits == pos {
            Some(i)
        } else {
            index_of(s, pos, i + 1)
        }
    } else {
        None
    }
}

/// What one piece adds to the occupancy of `color` on `bt`: its grid bit,
/// if the piece is of that color and its level is bound to `bt`.
pub open spec fn occupancy_part(p: Piece, top: Topology, color: Color, bt: BoardType) -> u64 {
    if p.color == color && board_type_of(top, decode(p.position.bits).level) == Some(bt) {
        p.position.bits & GRID_MASK
    } else {
        0
    }
}

/// Occupancy of `color` on `bt` by the given pieces.
pub open spec fn occupancy_of(pieces: Seq<Piece>, top: Topology, color: Color, bt: BoardType) -> u64
    decreases pieces.len(),
{
    if pieces.len() == 0 {
        0
    } else {
        occupancy_of(pieces.drop_last(), top, color, bt) | occupancy_part(
            pieces.last(),
            top,
            color,
            bt,
        )
    }
}

/// Outside `bt`'s area: the grid squares not in its legal-area mask.
pub open spec fn void_of(top: Topology, bt: BoardType) -> u64 {
    !area_mask(level_of(top, bt)) & GRID_MASK
}

/// The occupancy a board of these pieces has.
pub open spec fn occupancy_mask(pieces: Seq<Piece>, top: Topology) -> ColorMask {
    ColorMask {
        white: set_of(|bt: BoardType| occupancy_of(pieces, top, Color::White, bt)),
        black: set_of(|bt: BoardType| occupancy_of(pieces, top, Color::Black, bt)),
    }
}

/// The void masks of a topology.
pub open spec fn void_mask(top: Topology) -> BitBoardSet {
    set_of(|bt: BoardType| void_of(top, bt))
}

/// The set with bitmap `f(bt)` on each sub-board.
pub open spec fn set_of(f: spec_fn(BoardType) -> u64) -> BitBoardSet {
    BitBoardSet {
        white: BitBoard { bits: f(BoardType::White) },
        neutral: BitBoard { bits: f(BoardType::Neutral) },
        black: BitBoard { bits: f(BoardType::Black) },
        white_queen: BitBoard { bits: f(BoardType::WhiteQueen) },
        white_king: BitBoard { bits: f(BoardType::WhiteKing) },
        black_queen: BitBoard { bits: f(BoardType::BlackQueen) },
        black_king: BitBoard { bits: f(BoardType::BlackKing) },
    }
}

/// The state of a board, as values.
pub struct BoardView {
    pub pieces: Seq<Piece>,
    pub captured: Seq<Piece>,
    pub board_set: Topology,
    pub void: BitBoardSet,
    pub occupied: ColorMask,
}

impl BoardView {
    pub open spec fn piece_index(self, pos: u64) -> Option<int> {
        index_of(self.pieces, pos, 0)
    }

    /// The board with the first piece on `pos`, if any, taken off.
    pub open spec fn without(self, pos: u64) -> BoardView {
        match self.piece_index(pos) {
            Some(i) => BoardView { pieces: self.pieces.remove(i), ..self },
            None => self,
        }
    }

    /// The board after a new piece is put on `pos`, replacing any there.
    pub open spec fn placed(self, pos: u64, piece_type: PieceType, color: Color) -> BoardView {
        let b = self.without(pos);
        BoardView {
            pieces: b.pieces.push(Piece::fresh(BitBoard { bits: pos }, piece_type, color)),
            ..b
        }
    }

    /// The board after the piece on `src` moves to `dst`, capturing the piece
    /// there, if any; meaningful when a piece stands on `src`.
    pub open spec fn moved(self, src: u64, dst: u64) -> BoardView {
        let p = self.pieces[self.piece_index(src).unwrap()];
        let b = self.without(src);
        let c = match b.piece_index(dst) {
            Some(j) => BoardView {
                pieces: b.pieces.remove(j),
                captured: b.captured.push(b.pieces[j]),
                ..b
            },
            None => b,
        };
        BoardView {
            pieces: c.pieces.push(Piece { position: BitBoard { bits: dst }, is_moved: true, ..p }),
            ..c
        }
    }

    /// Grid bits on `bt` that count as occupied when `ignore` is left out:
    /// those of the other color than `ignore`, or of both colors.
    pub open spec fn occupied_bits(self, ignore: Option<Color>, bt: BoardType) -> u64 {
        match ignore {
            Some(c) => self.occupied.at(c.flip()).at(bt),
            None => self.occupied.union_at(bt),
        }
    }

    /// Entries for the squares below grid bit `n` of `squares` that lie in
    /// `bt`'s area, lowest first: the board type, the square's bit, and
    /// whether it is empty.
    pub open spec fn board_part(
        self,
        bt: BoardType,
        squares: u64,
        ignore: Option<Color>,
        n: int,
    ) -> Seq<(BoardType, BitBoard, bool)>
        decreases n,
    {
        if n <= 0 {
            seq![]
        } else {
            let prev = self.board_part(bt, squares, ignore, n - 1);
            let k = n - 1;
            if bit(squares, k) && bit(area_mask(level_of(self.board_set, bt)), k) {
                prev.push(
                    (
                        bt,
                        BitBoard { bits: 1u64 << (k as u64) },
                        !bit(self.occupied_bits(ignore, bt), k),
                    ),
                )
            } else {
                prev
            }
        }
    }

    /// Entries of the first `n` board types, in board-type order.
    pub open spec fn expand_upto(self, squares: u64, ignore: Option<Color>, n: int) -> Seq<
        (BoardType, BitBoard, bool),
    >
        decreases n,
    {
        if n <= 0 {
            seq![]
        } else {
            self.expand_upto(squares, ignore, n - 1) + self.board_part(
                all_board_types()[n - 1],
                squares,
                ignore,
                60,
            )
        }
    }

    /// Every grid square of `squares` classified on every sub-board whose
    /// area holds it.
    pub open spec fn expand(self, squares: u64, ignore: Option<Color>) -> Seq<
        (BoardType, BitBoard, bool),
    > {
        self.occupancy_only().expand_upto(squares, ignore, 7)
    }

    /// The board with its piece lists left out: what attack computation reads.
    pub open spec fn occupancy_only(self) -> BoardView {
        BoardView { pieces: seq![], captured: seq![], ..self }
    }
}

impl BoardView {
    /// For the first `n` board types whose area holds the grid bits of
    /// `square`: the board type and whether `color` leaves it free there.
    pub open spec fn with_color_upto(self, square: u64, color: Color, n: int) -> Seq<
        (BoardType, bool),
    >
        decreases n,
    {
        if n <= 0 {
            seq![]
        } else {
            let prev = self.with_color_upto(square, color, n - 1);
            let bt = all_board_types()[n - 1];
            let s = square & GRID_MASK;
            if area_mask(level_of(self.board_set, bt)) & s == s {
                prev.push((bt, !(self.occupied.at(color).at(bt) & s == s)))
            } else {
                prev
            }
        }
    }
}

/// The board with occupancy and void masks recomputed from its pieces.
pub open spec fn with_occupancy(v: BoardView) -> BoardView {
    BoardView {
        void: void_mask(v.board_set),
        occupied: occupancy_mask(v.pieces, v.board_set),
        ..v
    }
}

/// The board after a full refresh: occupancy recomputed, then every
/// piece's attack set recomputed against that occupancy.
pub open spec fn refreshed(v: BoardView) -> BoardView {
    let o = with_occupancy(v);
    BoardView {
        pieces: o.pieces.map_values(|p: Piece| Piece { attacks: attack_set(p, o), ..p }),
        ..o
    }
}

/// The parts of a board that a snapshot keeps.
pub struct SnapshotView {
    pub pieces: Seq<Piece>,
    pub captured: Seq<Piece>,
    pub board_set: Topology,
    pub occupied: ColorMask,
}

/// What a snapshot of the board keeps.
pub open spec fn snapshot_of(v: BoardView) -> SnapshotView {
    SnapshotView {
        pieces: v.pieces,
        captured: v.captured,
        board_set: v.board_set,
        occupied: v.occupied,
    }
}

/// The board with the parts a snapshot keeps put back.
pub open spec fn restored(v: BoardView, s: SnapshotView) -> BoardView {
    BoardView {
        pieces: s.pieces,
        captured: s.captured,
        board_set: s.board_set,
        occupied: s.occupied,
        ..v
    }
}

/// A copy of the board's pieces, captured pieces, topology and occupancy.
pub struct BoardSnapshot {
    pieces: Vec<Piece>,
    captured_pieces: Vec<Piece>,
    board_set: Topology,
    occupied: ColorMask,
}

impl View for BoardSnapshot {
    type V = SnapshotView;

    closed spec fn view(&self) -> SnapshotView {
        SnapshotView {
            pieces: self.pieces@,
            captured: self.captured_pieces@,
            board_set: self.board_set,
            occupied: self.occupied,
        }
    }
}

impl BoardSnapshot {
    pub fn new(board: &Board) -> (r: BoardSnapshot)
        ensures
            r@ == snapshot_of(board@),
    {
        BoardSnapshot {
            pieces: copy_pieces(&board.pieces),
            captured_pieces: copy_pieces(&board.captured_pieces),
            board_set: board.board_set,
            occupied: board.occupied_piece,
        }
    }

    /// Put the kept parts back on `board`; its void masks stay as they are.
    pub fn restore(&self, board: &mut Board)
        ensures
            final(board)@ == restored(old(board)@, self@),
    {
        board.pieces = copy_pieces(&self.pieces);
        board.captured_pieces = copy_pieces(&self.captured_pieces);
        board.board_set = self.board_set;
        board.occupied_piece = self.occupied;
    }
}

/// Whether a board is as the engine keeps it: a well-formed topology,
/// every piece inside its level's area, and occupancy derived from the
/// pieces.
pub open spec fn board_consistent(v: BoardView) -> bool {
    &&& topology_wf(v.board_set)
    &&& pieces_valid(v.pieces)
    &&& v.occupied == occupancy_mask(v.pieces, v.board_set)
}

/// The same, for the parts a snapshot keeps.
pub open spec fn snapshot_consistent(s: SnapshotView) -> bool {
    &&& topology_wf(s.board_set)
    &&& pieces_valid(s.pieces)
    &&& s.occupied == occupancy_mask(s.pieces, s.board_set)
}

proof fn lemma_index_of_range(s: Seq<Piece>, pos: u64, k: int, i: int)
    requires
        0 <= k,
        index_of(s, pos, k) == Some(i),
    ensures
        k <= i < s.len(),
        s[i].position.bits == pos,
    decreases s.len() - k,
{
    if k < s.len() && s[k].position.bits != pos {
        lemma_index_of_range(s, pos, k + 1, i);
    }
}

proof fn lemma_without_valid(v: BoardView, pos: u64)
    requires
        pieces_valid(v.pieces),
    ensures
        pieces_valid(v.without(pos).pieces),
        v.without(pos).board_set == v.board_set,
{
    if let Some(i) = v.piece_index(pos) {
        lemma_index_of_range(v.pieces, pos, 0, i);
        let r = v.pieces.remove(i);
        assert forall|j: int| 0 <= j < r.len() implies position_valid(
            #[trigger] r[j].position.bits,
        ) by {
            if j < i {
                assert(r[j] == v.pieces[j]);
            } else {
                assert(r[j] == v.pieces[j + 1]);
            }
        }
    }
}

/// Placing a piece on a valid position keeps every piece inside its area.
pub proof fn lemma_placed_valid(v: BoardView, pos: u64, piece_type: PieceType, color: Color)
    requires
        pieces_valid(v.pieces),
        position_valid(pos),
    ensures
        pieces_valid(v.placed(pos, piece_type, color).pieces),
        v.placed(pos, piece_type, color).board_set == v.board_set,
{
    lemma_without_valid(v, pos);
    let w = v.without(pos);
    let r = v.placed(pos, piece_type, color).pieces;
    assert forall|j: int| 0 <= j < r.len() implies position_valid(#[trigger] r[j].position.bits) by {
        if j < w.pieces.len() {
            assert(r[j] == w.pieces[j]);
        }
    }
}

/// Moving a piece to a valid destination keeps every piece inside its area.
pub proof fn lemma_moved_valid(v: BoardView, src: u64, dst: u64)
    requires
        pieces_valid(v.pieces),
        v.piece_index(src) is Some,
        position_valid(dst),
    ensures
        pieces_valid(v.moved(src, dst).pieces),
        v.moved(src, dst).board_set == v.board_set,
{
    lemma_without_valid(v, src);
    let w = v.without(src);
    lemma_without_valid(w, dst);
    let c = match w.piece_index(dst) {
        Some(j) => BoardView { pieces: w.pieces.remove(j), captured: w.captured.push(w.pieces[j]), ..w },
        None => w,
    };
    assert(c.pieces == w.without(dst).pieces);
    let r = v.moved(src, dst).pieces;
    assert forall|j: int| 0 <= j < r.len() implies position_valid(#[trigger] r[j].position.bits) by {
        if j < c.pieces.len() {
            assert(r[j] == c.pieces[j]);
        }
    }
}

/// A refresh of a board with a well-formed topology whose pieces stand
/// inside their areas gives a consistent board.
pub proof fn lemma_refreshed_consistent(v: BoardView)
    requires
        topology_wf(v.board_set),
        pieces_valid(v.pieces),
    ensures
        board_consistent(refreshed(v)),
{
    let r = refreshed(v);
    assert forall|c: Color, bt: BoardType|
        occupancy_of(r.pieces, v.board_set, c, bt) == #[trigger] occupancy_of(
            v.pieces,
            v.board_set,
            c,
            bt,
        ) by {
        lemma_occupancy_same_positions(r.pieces, v.pieces, v.board_set, c, bt);
    }
    assert(occupancy_mask(r.pieces, v.board_set) == occupancy_mask(v.pieces, v.board_set));
    assert forall|j: int| 0 <= j < r.pieces.len() implies position_valid(
        #[trigger] r.pieces[j].position.bits,
    ) by {
        assert(r.pieces[j].position == v.pieces[j].position);
    }
}

/// Occupancy depends on the pieces' colors and positions alone.
proof fn lemma_occupancy_same_positions(
    a: Seq<Piece>,
    b: Seq<Piece>,
    top: Topology,
    color: Color,
    bt: BoardType,
)
    requires
        a.len() == b.len(),
        forall|i: int|
            0 <= i < a.len() ==> #[trigger] a[i].color == b[i].color && a[i].position
                == b[i].position,
    ensures
        occupancy_of(a, top, color, bt) == occupancy_of(b, top, color, bt),
    decreases a.len(),
{
    if a.len() > 0 {
        lemma_occupancy_same_positions(a.drop_last(), b.drop_last(), top, color, bt);
    }
}

/// When every piece stands inside its level's area, each side's occupancy
/// of a sub-board lies within that sub-board's legal area.
pub proof fn lemma_occupancy_within_area(
    pieces: Seq<Piece>,
    top: Topology,
    color: Color,
    bt: BoardType,
)
    requires
        topology_wf(top),
        pieces_valid(pieces),
    ensures
        occupancy_of(pieces, top, color, bt) & area_mask(level_of(top, bt)) == occupancy_of(
            pieces,
            top,
            color,
            bt,
        ),
    decreases pieces.len(),
{
    if pieces.len() > 0 {
        lemma_occupancy_within_area(pieces.drop_last(), top, color, bt);
        let a = occupancy_of(pieces.drop_last(), top, color, bt);
        let m = area_mask(level_of(top, bt));
        let p = pieces.last().position.bits;
        assert(pieces_valid(pieces.drop_last()));
        assert(position_valid(pieces[pieces.len() - 1].position.bits));
        if occupancy_part(pieces.last(), top, color, bt) != 0 {
            lemma_board_type_level(top, decode(p).level, bt);
        }
        assert((a & m == a && m & (p & GRID_MASK) == p & GRID_MASK) ==> ((a | (p & GRID_MASK))
            & m == (a | (p & GRID_MASK)))) by (bit_vector);
        assert((a & m == a) ==> ((a | 0) & m == (a | 0))) by (bit_vector);
    } else {
        let m = area_mask(level_of(top, bt));
        assert(0u64 & m == 0) by (bit_vector);
    }
}

/// After a refresh of a board whose pieces all stand inside their levels'
/// areas, each side's occupancy of every sub-board is a subset of that
/// sub-board's legal-area mask.
pub proof fn lemma_refreshed_occupancy_within_area(v: BoardView, color: Color, bt: BoardType)
    requires
        topology_wf(v.board_set),
        pieces_valid(v.pieces),
    ensures
        refreshed(v).occupied.at(color).at(bt) & area_mask(level_of(v.board_set, bt))
            == refreshed(v).occupied.at(color).at(bt),
{
    lemma_occupancy_within_area(v.pieces, v.board_set, color, bt);
}

/// Refreshing a board a second time, with no move in between, changes
/// nothing: the same occupancy, void masks and attack sets.
pub proof fn lemma_refresh_idempotent(v: BoardView)
    ensures
        refreshed(refreshed(v)) == refreshed(v),
{
    let o = with_occupancy(v);
    let r1 = refreshed(v);
    assert forall|c: Color, bt: BoardType|
        occupancy_of(r1.pieces, v.board_set, c, bt) == #[trigger] occupancy_of(
            v.pieces,
            v.board_set,
            c,
            bt,
        ) by {
        lemma_occupancy_same_positions(r1.pieces, v.pieces, v.board_set, c, bt);
    }
    assert(occupancy_mask(r1.pieces, v.board_set) == occupancy_mask(v.pieces, v.board_set));
    assert(with_occupancy(r1) == r1);
    assert(r1.occupancy_only() == o.occupancy_only());
    let r2 = refreshed(r1);
    assert forall|i: int| 0 <= i < r1.pieces.len() implies #[trigger] r2.pieces[i] == r1.pieces[i] by {
        let p = v.pieces[i];
        let q = r1.pieces[i];
        assert(q == Piece { attacks: attack_set(p, o), ..p });
        assert(attack_set(q, r1) == attack_set(p, o));
    }
    assert(r2.pieces =~= r1.pieces);
}

pub open spec fn default_topology() -> Topology {
    [
        (BoardType::White, Level::White),
        (BoardType::Neutral, Level::Neutral),
        (BoardType::Black, Level::Black),
        (BoardType::WhiteQueen, Level::QL1),
        (BoardType::WhiteKing, Level::KL1),
        (BoardType::BlackQueen, Level::QL6),
        (BoardType::BlackKing, Level::KL6),
    ]
}

/// Pieces on the board, pieces taken, the sub-board topology and the
/// occupancy derived from the pieces.
pub struct Board {
    pub pieces: Vec<Piece>,
    pub captured_pieces: Vec<Piece>,
    pub board_set: Topology,
    pub occupied_void: BitBoardSet,
    pub occupied_piece: ColorMask,
}

impl View for Board {
    type V = BoardView;

    open spec fn view(&self) -> BoardView {
        BoardView {
            pieces: self.pieces@,
            captured: self.captured_pieces@,
            board_set: self.board_set,
            void: self.occupied_void,
            occupied: self.occupied_piece,
        }
    }
}

/// An element-by-element copy of a list of pieces.
pub fn copy_pieces(v: &Vec<Piece>) -> (r: Vec<Piece>)
    ensures
        r@ == v@,
{
    let mut r: Vec<Piece> = Vec::new();
    let mut i: usize = 0;
    while i < v.len()
        invariant
            i <= v.len(),
            r@ == v@.take(i as int),
        decreases v.len() - i,
    {
        r.push(v[i]);
        i += 1;
        assert(r@ =~= v@.take(i as int));
    }
    assert(r@ =~= v@);
    r
}

impl Board {
    /// No pieces, the default topology, nothing occupied.
    pub fn new() -> (r: Board)
        ensures
            r.pieces@ == Seq::<Piece>::empty(),
            r.captured_pieces@ == Seq::<Piece>::empty(),
            r.board_set == default_topology(),
            forall|bt: BoardType| #[trigger] r.occupied_void.at(bt) == 0,
            forall|c: Color, bt: BoardType| #[trigger] r.occupied_piece.at(c).at(bt) == 0,
    {
        Board {
            pieces: Vec::new(),
            captured_pieces: Vec::new(),
            board_set: [
                (BoardType::White, Level::White),
                (BoardType::Neutral, Level::Neutral),
                (BoardType::Black, Level::Black),
                (BoardType::WhiteQueen, Level::QL1),
                (BoardType::WhiteKing, Level::KL1),
                (BoardType::BlackQueen, Level::QL6),
                (BoardType::BlackKing, Level::KL6),
            ],
            occupied_void: BitBoardSet::new(),
            occupied_piece: ColorMask::new(),
        }
    }

    /// Board type a level is bound to.
    pub fn convert_board_type(&self, level: Level) -> (r: Option<BoardType>)
        ensures
            r == board_type_of(self.board_set, level),
    {
        match level {
            Level::White => Some(BoardType::White),
            Level::Neutral => Some(BoardType::Neutral),
            Level::Black => Some(BoardType::Black),
            _ => {
                let mut i: usize = 0;
                while i < 7
                    invariant
                        i <= 7,
                        board_type_of(self.board_set, level) == find_level(
                            self.board_set,
                            level,
                            0,
                        ),
                        find_level(self.board_set, level, 0) == find_level(
                            self.board_set,
                            level,
                            i as int,
                        ),
                    decreases 7 - i,
                {
                    let (bt, l) = self.board_set[i];
                    if l == level {
                        assert(self.board_set@[i as int] == (bt, l));
                        return Some(bt);
                    }
                    i += 1;
                }
                None
            },
        }
    }

    /// Level a board type is bound to.
    pub fn convert_level(&self, board_type: BoardType) -> (r: Level)
        ensures
            r == level_of(self.board_set, board_type),
    {
        self.board_set[board_type.to_usize()].1
    }

    /// Index of the first piece standing exactly on `square`.
    fn find_piece(&self, square: BitBoard) -> (r: Option<usize>)
        ensures
            r matches Some(i) ==> i < self.pieces.len() && self@.piece_index(square.bits) == Some(
                i as int,
            ),
            r is None ==> self@.piece_index(square.bits) is None,
    {
        let mut i: usize = 0;
        while i < self.pieces.len()
            invariant
                i <= self.pieces.len(),
                index_of(self.pieces@, square.bits, 0) == index_of(
                    self.pieces@,
                    square.bits,
                    i as int,
                ),
            decreases self.pieces.len() - i,
        {
            if self.pieces[i].position.bits == square.bits {
                return Some(i);
            }
            i += 1;
        }
        None
    }

    /// The piece standing exactly on the level-tagged `square`, if any.
    pub fn get_piece(&self, square: BitBoard) -> (r: Option<&Piece>)
        ensures
            r matches Some(p) ==> self@.piece_index(square.bits) matches Some(i) && *p
                == self.pieces@[i],
            r is None ==> self@.piece_index(square.bits) is None,
    {
        match self.find_piece(square) {
            Some(i) => Some(&self.pieces[i]),
            None => None,
        }
    }

    /// Take off and return the piece standing exactly on `square`, if any.
    pub fn remove_piece(&mut self, square: BitBoard) -> (r: Option<Piece>)
        ensures
            final(self)@ == old(self)@.without(square.bits),
            r == (match old(self)@.piece_index(square.bits) {
                Some(i) => Some(old(self).pieces@[i]),
                None => None,
            }),
    {
        match self.find_piece(square) {
            Some(i) => Some(self.pieces.remove(i)),
            None => None,
        }
    }

    /// Put a new piece on `square`, which must lie in its level's legal area,
    /// returning the piece it replaces, if any.
    pub fn set_piece(&mut self, square: BitBoard, piece: PieceType, color: Color) -> (r: Option<
        Piece,
    >)
        requires
            position_valid(square.bits),
        ensures
            final(self)@ == old(self)@.placed(square.bits, piece, color),
            r == (match old(self)@.piece_index(square.bits) {
                Some(i) => Some(old(self).pieces@[i]),
                None => None,
            }),
    {
        let old_piece = self.remove_piece(square);
        self.pieces.push(Piece::new(square, piece, color));
        old_piece
    }

    /// Move the piece on `source` to `destination`, capturing any piece
    /// there; the moved piece is marked as moved. Fails, changing nothing,
    /// when no piece stands on `source`.
    pub fn move_piece(&mut self, source: BitBoard, destination: BitBoard) -> (r: Result<
        (),
        MoveError,
    >)
        ensures
            old(self)@.piece_index(source.bits) is Some ==> r is Ok && final(self)@ == old(
                self,
            )@.moved(source.bits, destination.bits),
            old(self)@.piece_index(source.bits) is None ==> r == Err::<(), MoveError>(
                MoveError::NoPieceAtSource,
            ) && final(self)@ == old(self)@,
    {
        let mut piece = match self.remove_piece(source) {
            Some(piece) => piece,
            None => return Err(MoveError::NoPieceAtSource),
        };
        match self.remove_piece(destination) {
            Some(captured) => self.captured_pieces.push(captured),
            None => {},
        }
        piece.position = destination;
        piece.is_moved = true;
        self.pieces.push(piece);
        Ok(())
    }

    /// Every grid square of `squares` (level tag ignored) on every sub-board
    /// whose area holds it, with whether it is empty: free of pieces of the
    /// color other than `ignore_color`, or of any piece when none is given.
    /// Board types come in declaration order, squares lowest bit first.
    pub fn get_empty_board(&self, squares: BitBoard, ignore_color: Option<Color>) -> (r: Vec<
        (BoardType, BitBoard, bool),
    >)
        ensures
            r@ == self@.expand(squares.bits, ignore_color),
    {
        let types = BoardType::iter();
        let occupied = match ignore_color {
            Some(color) => self.occupied_piece.get(color.opposite()),
            None => self.occupied_piece.union(),
        };
        let mut result: Vec<(BoardType, BitBoard, bool)> = Vec::new();
        let mut n: usize = 0;
        while n < 7
            invariant
                n <= 7,
                types@ == all_board_types(),
                forall|bt: BoardType| #[trigger]
                    occupied.at(bt) == self@.occupied_bits(ignore_color, bt),
                result@ == self@.occupancy_only().expand_upto(squares.bits, ignore_color, n as int),
            decreases 7 - n,
        {
            let bt = types[n];
            let area = self.convert_level(bt).get_bit_board().bits;
            let occ = occupied.get(bt).bits;
            let ghost before = result@;
            let mut k: u64 = 0;
            while k < 60
                invariant
                    k <= 60,
                    area == area_mask(level_of(self.board_set, bt)),
                    occ == self@.occupied_bits(ignore_color, bt),
                    result@ == before + self@.occupancy_only().board_part(
                        bt,
                        squares.bits,
                        ignore_color,
                        k as int,
                    ),
                decreases 60 - k,
            {
                if (squares.bits >> k) & 1 == 1 && (area >> k) & 1 == 1 {
                    result.push((bt, BitBoard { bits: 1u64 << k }, !((occ >> k) & 1 == 1)));
                }
                k += 1;
                assert(result@ =~= before + self@.occupancy_only().board_part(
                    bt,
                    squares.bits,
                    ignore_color,
                    k as int,
                ));
            }
            n += 1;
        }
        result
    }

    /// For each board type, in declaration order, whose area holds the grid
    /// bits of `square`: whether `color` leaves them free there.
    pub fn get_empty_board_with_color(&self, square: BitBoard, color: Color) -> (r: Vec<
        (BoardType, bool),
    >)
        ensures
            r@ == self@.with_color_upto(square.bits, color, 7),
    {
        let types = BoardType::iter();
        let grid = square.remove_level();
        let mut result: Vec<(BoardType, bool)> = Vec::new();
        let mut n: usize = 0;
        while n < 7
            invariant
                n <= 7,
                types@ == all_board_types(),
                grid.bits == square.bits & GRID_MASK,
                result@ == self@.with_color_upto(square.bits, color, n as int),
            decreases 7 - n,
        {
            let bt = types[n];
            let level = self.convert_level(bt);
            if level.get_bit_board().contains(grid) {
                let occupied = self.occupied_piece.get(color).get(bt);
                result.push((bt, !occupied.contains(grid)));
            }
            n += 1;
        }
        result
    }

    /// Recompute the void masks from the topology and the occupancy from the
    /// pieces. A piece counts, by its grid square, on the board type its
    /// level is bound to; a piece on an unbound level counts nowhere.
    pub fn update_occupied(&mut self)
        ensures
            final(self).pieces@ == old(self).pieces@,
            final(self).captured_pieces@ == old(self).captured_pieces@,
            final(self).board_set == old(self).board_set,
            final(self).occupied_void == void_mask(old(self).board_set),
            final(self).occupied_piece == occupancy_mask(old(self).pieces@, old(self).board_set),
    {
        self.occupied_void = BitBoardSet::new();
        self.occupied_piece = ColorMask::new();
        let types = BoardType::iter();
        let mut n: usize = 0;
        while n < 7
            invariant
                n <= 7,
                types@ == all_board_types(),
                self.board_set == old(self).board_set,
                self.pieces@ == old(self).pieces@,
                self.captured_pieces@ == old(self).captured_pieces@,
                forall|c: Color, bt: BoardType| #[trigger] self.occupied_piece.at(c).at(bt) == 0,
                forall|bt: BoardType|
                    bt.index() < n ==> #[trigger] self.occupied_void.at(bt) == void_of(
                        self.board_set,
                        bt,
                    ),
            decreases 7 - n,
        {
            let bt = types[n];
            let void = self.convert_level(bt).get_bit_board().complement().intersection(
                BitBoard::from_bits_retain(GRID_MASK),
            );
            self.occupied_void.set(bt, void);
            n += 1;
        }
        let mut i: usize = 0;
        while i < self.pieces.len()
            invariant
                i <= self.pieces.len(),
                self.board_set == old(self).board_set,
                self.pieces@ == old(self).pieces@,
                self.captured_pieces@ == old(self).captured_pieces@,
                forall|bt: BoardType| #[trigger]
                    self.occupied_void.at(bt) == void_of(self.board_set, bt),
                forall|c: Color, bt: BoardType| #[trigger]
                    self.occupied_piece.at(c).at(bt) == occupancy_of(
                        self.pieces@.take(i as int),
                        self.board_set,
                        c,
                        bt,
                    ),
            decreases self.pieces.len() - i,
        {
            let piece = self.pieces[i];
            let ghost before = self.occupied_piece;
            match self.convert_board_type(piece.position.get_level()) {
                Some(bt) => {
                    let cur = self.occupied_piece.get(piece.color).get(bt);
                    let add = piece.position.remove_level();
                    self.occupied_piece.set(piece.color, bt, cur.union(add));
                },
                None => {},
            }
            proof {
                let s = self.pieces@.take(i + 1);
                assert(s.drop_last() =~= self.pieces@.take(i as int));
                assert(s.last() == piece);
                assert forall|c: Color, bt: BoardType|
                    #[trigger] self.occupied_piece.at(c).at(bt) == occupancy_of(
                        s,
                        self.board_set,
                        c,
                        bt,
                    ) by {
                    lemma_or_assoc(before.at(c).at(bt), 0, 0);
                }
            }
            i += 1;
        }
        proof {
            assert(self.pieces@.take(i as int) =~= self.pieces@);
            BitBoardSet::lemma_ext(self.occupied_void, void_mask(self.board_set));
            let m = occupancy_mask(self.pieces@, self.board_set);
            assert(forall|bt: BoardType| #[trigger]
                self.occupied_piece.white.at(bt) == self.occupied_piece.at(Color::White).at(bt));
            assert(forall|bt: BoardType| #[trigger]
                self.occupied_piece.black.at(bt) == self.occupied_piece.at(Color::Black).at(bt));
            BitBoardSet::lemma_ext(self.occupied_piece.white, m.white);
            BitBoardSet::lemma_ext(self.occupied_piece.black, m.black);
        }
    }

    /// Recompute the occupancy, then every piece's attack set. Each attack
    /// set is computed from the occupancy alone, so no piece sees another's
    /// attacks from the same pass.
    pub fn update(&mut self)
        ensures
            final(self)@ == refreshed(old(self)@),
    {
        self.update_occupied();
        let ghost mid = self@;
        assert(mid == with_occupancy(old(self)@));
        let mut pieces = copy_pieces(&self.pieces);
        let mut i: usize = 0;
        while i < pieces.len()
            invariant
                i <= pieces.len(),
                self@ == mid,
                pieces.len() == mid.pieces.len(),
                forall|j: int|
                    0 <= j < i ==> #[trigger] pieces@[j] == (Piece {
                        attacks: attack_set(mid.pieces[j], mid),
                        ..mid.pieces[j]
                    }),
                forall|j: int| i <= j < pieces.len() ==> #[trigger] pieces@[j] == mid.pieces[j],
            decreases pieces.len() - i,
        {
            let mut piece = pieces[i];
            piece.update_attacks(self);
            pieces.set(i, piece);
            i += 1;
        }
        self.pieces = pieces;
        assert(self.pieces@ =~= refreshed(old(self)@).pieces);
    }

    /// Whether the grid square of `square` lies in the area of its level.
    pub fn validate_square(&self, square: BitBoard) -> (r: bool)
        ensures
            r == (area_mask(decode(square.bits).level) & (square.bits & GRID_MASK) == (square.bits
                & GRID_MASK)),
    {
        let level = square.into_square().level;
        let square = square.remove_level();
        level.get_bit_board().contains(square)
    }
}

} // verus!
