use vstd::prelude::*;

use crate::bit_board::{
    all_board_types, area_mask, BoardType, encode, BitBoard, BLACK_AREA, GRID_MASK, KL1_AREA, KL6_AREA, QL1_AREA, QL6_AREA, WHITE_AREA,
};
use crate::board::{
    board_consistent, lemma_encode_valid, lemma_moved_valid, lemma_occupancy_within_area,
    lemma_placed_valid, lemma_refreshed_consistent, level_of, pieces_valid, position_valid,
    snapshot_consistent, square_on_board, topology_wf, board_type_of, default_topology, refreshed, restored, snapshot_of, void_mask, Board,
    BoardSnapshot, BoardView, SnapshotView,
};
use crate::piece::{squares_upto, PieceType};
use crate::piece_move::{MoveError, PieceMove};
use crate::square::{Color, File, Level, Rank, Square};

verus! {

/// The starting position: square, piece type and color of each piece.
pub open spec fn standard_layout() -> Seq<(Square, PieceType, Color)> {
    seq![
        (Square { rank: Rank::Zero, file: File::Z, level: Level::QL1 }, PieceType::Rook, Color::White),
        (Square { rank: Rank::Zero, file: File::A, level: Level::QL1 }, PieceType::Queen, Color::White),
        (Square { rank: Rank::One, file: File::Z, level: Level::QL1 }, PieceType::Pawn, Color::White),
        (Square { rank: Rank::One, file: File::A, level: Level::QL1 }, PieceType::Pawn, Color::White),
        (Square { rank: Rank::One, file: File::A, level: Level::White }, PieceType::Knight, Color::White),
        (Square { rank: Rank::One, file: File::B, level: Level::White }, PieceType::Bishop, Color::White),
        (Square { rank: Rank::One, file: File::C, level: Level::White }, PieceType::Bishop, Color::White),
        (Square { rank: Rank::One, file: File::D, level: Level::White }, PieceType::Knight, Color::White),
        (Square { rank: Rank::Two, file: File::A, level: Level::White }, PieceType::Pawn, Color::White),
        (Square { rank: Rank::Two, file: File::B, level: Level::White }, PieceType::Pawn, Color::White),
        (Square { rank: Rank::Two, file: File::C, level: Level::White }, PieceType::Pawn, Color::White),
        (Square { rank: Rank::Two, file: File::D, level: Level::White }, PieceType::Pawn, Color::White),
        (Square { rank: Rank::Zero, file: File::D, level: Level::KL1 }, PieceType::King, Color::White),
        (Square { rank: Rank::Zero, file: File::E, level: Level::KL1 }, PieceType::Rook, Color::White),
        (Square { rank: Rank::One, file: File::D, level: Level::KL1 }, PieceType::Pawn, Color::White),
        (Square { rank: Rank::One, file: File::E, level: Level::KL1 }, PieceType::Pawn, Color::White),
        (Square { rank: Rank::Eight, file: File::Z, level: Level::QL6 }, PieceType::Pawn, Color::Black),
        (Square { rank: Rank::Eight, file: File::A, level: Level::QL6 }, PieceType::Pawn, Color::Black),
        (Square { rank: Rank::Nine, file: File::Z, level: Level::QL6 }, PieceType::Rook, Color::Black),
        (Square { rank: Rank::Nine, file: File::A, level: Level::QL6 }, PieceType::Queen, Color::Black),
        (Square { rank: Rank::Seven, file: File::A, level: Level::Black }, PieceType::Pawn, Color::Black),
        (Square { rank: Rank::Seven, file: File::B, level: Level::Black }, PieceType::Pawn, Color::Black),
        (Square { rank: Rank::Seven, file: File::C, level: Level::Black }, PieceType::Pawn, Color::Black),
        (Square { rank: Rank::Seven, file: File::D, level: Level::Black }, PieceType::Pawn, Color::Black),
        (Square { rank: Rank::Eight, file: File::A, level: Level::Black }, PieceType::Knight, Color::Black),
        (Square { rank: Rank::Eight, file: File::B, level: Level::Black }, PieceType::Bishop, Color::Black),
        (Square { rank: Rank::Eight, file: File::C, level: Level::Black }, PieceType::Bishop, Color::Black),
        (Square { rank: Rank::Eight, file: File::D, level: Level::Black }, PieceType::Knight, Color::Black),
        (Square { rank: Rank::Eight, file: File::D, level: Level::KL6 }, PieceType::Pawn, Color::Black),
        (Square { rank: Rank::Eight, file: File::E, level: Level::KL6 }, PieceType::Pawn, Color::Black),
        (Square { rank: Rank::Nine, file: File::D, level: Level::KL6 }, PieceType::King, Color::Black),
        (Square { rank: Rank::Nine, file: File::E, level: Level::KL6 }, PieceType::Rook, Color::Black),
    ]
}

/// The starting position, as a list.
pub fn initial_layout() -> (r: Vec<(Square, PieceType, Color)>)
    ensures
        r@ == standard_layout(),
{
    vec![
        (Square { rank: Rank::Zero, file: File::Z, level: Level::QL1 }, PieceType::Rook, Color::White),
        (Square { rank: Rank::Zero, file: File::A, level: Level::QL1 }, PieceType::Queen, Color::White),
        (Square { rank: Rank::One, file: File::Z, level: Level::QL1 }, PieceType::Pawn, Color::White),
        (Square { rank: Rank::One, file: File::A, level: Level::QL1 }, PieceType::Pawn, Color::White),
        (Square { rank: Rank::One, file: File::A, level: Level::White }, PieceType::Knight, Color::White),
        (Square { rank: Rank::One, file: File::B, level: Level::White }, PieceType::Bishop, Color::White),
        (Square { rank: Rank::One, file: File::C, level: Level::White }, PieceType::Bishop, Color::White),
        (Square { rank: Rank::One, file: File::D, level: Level::White }, PieceType::Knight, Color::White),
        (Square { rank: Rank::Two, file: File::A, level: Level::White }, PieceType::Pawn, Color::White),
        (Square { rank: Rank::Two, file: File::B, level: Level::White }, PieceType::Pawn, Color::White),
        (Square { rank: Rank::Two, file: File::C, level: Level::White }, PieceType::Pawn, Color::White),
        (Square { rank: Rank::Two, file: File::D, level: Level::White }, PieceType::Pawn, Color::White),
        (Square { rank: Rank::Zero, file: File::D, level: Level::KL1 }, PieceType::King, Color::White),
        (Square { rank: Rank::Zero, file: File::E, level: Level::KL1 }, PieceType::Rook, Color::White),
        (Square { rank: Rank::One, file: File::D, level: Level::KL1 }, PieceType::Pawn, Color::White),
        (Square { rank: Rank::One, file: File::E, level: Level::KL1 }, PieceType::Pawn, Color::White),
        (Square { rank: Rank::Eight, file: File::Z, level: Level::QL6 }, PieceType::Pawn, Color::Black),
        (Square { rank: Rank::Eight, file: File::A, level: Level::QL6 }, PieceType::Pawn, Color::Black),
        (Square { rank: Rank::Nine, file: File::Z, level: Level::QL6 }, PieceType::Rook, Color::Black),
        (Square { rank: Rank::Nine, file: File::A, level: Level::QL6 }, PieceType::Queen, Color::Black),
        (Square { rank: Rank::Seven, file: File::A, level: Level::Black }, PieceType::Pawn, Color::Black),
        (Square { rank: Rank::Seven, file: File::B, level: Level::Black }, PieceType::Pawn, Color::Black),
        (Square { rank: Rank::Seven, file: File::C, level: Level::Black }, PieceType::Pawn, Color::Black),
        (Square { rank: Rank::Seven, file: File::D, level: Level::Black }, PieceType::Pawn, Color::Black),
        (Square { rank: Rank::Eight, file: File::A, level: Level::Black }, PieceType::Knight, Color::Black),
        (Square { rank: Rank::Eight, file: File::B, level: Level::Black }, PieceType::Bishop, Color::Black),
        (Square { rank: Rank::Eight, file: File::C, level: Level::Black }, PieceType::Bishop, Color::Black),
        (Square { rank: Rank::Eight, file: File::D, level: Level::Black }, PieceType::Knight, Color::Black),
        (Square { rank: Rank::Eight, file: File::D, level: Level::KL6 }, PieceType::Pawn, Color::Black),
        (Square { rank: Rank::Eight, file: File::E, level: Level::KL6 }, PieceType::Pawn, Color::Black),
        (Square { rank: Rank::Nine, file: File::D, level: Level::KL6 }, PieceType::King, Color::Black),
        (Square { rank: Rank::Nine, file: File::E, level: Level::KL6 }, PieceType::Rook, Color::Black),
    ]
}

/// Whether the first `n` squares of `layout` lie in their levels' areas.
pub open spec fn layout_on_board(layout: Seq<(Square, PieceType, Color)>, n: int) -> bool
    decreases n,
{
    n <= 0 || (layout_on_board(layout, n - 1) && square_on_board(layout[n - 1].0))
}

proof fn lemma_layout_on_board(layout: Seq<(Square, PieceType, Color)>, n: int, i: int)
    requires
        layout_on_board(layout, n),
        0 <= i < n,
    ensures
        square_on_board(layout[i].0),
    decreases n,
{
    if i < n - 1 {
        lemma_layout_on_board(layout, n - 1, i);
    }
}

/// The board after placing the first `n` entries of `layout` in order.
pub open spec fn placed_all(v: BoardView, layout: Seq<(Square, PieceType, Color)>, n: int) -> BoardView
    decreases n,
{
    if n <= 0 {
        v
    } else {
        placed_all(v, layout, n - 1).placed(encode(layout[n - 1].0), layout[n - 1].1, layout[n - 1].2)
    }
}

/// An empty board with the default topology and nothing occupied.
pub open spec fn empty_board() -> BoardView {
    BoardView {
        pieces: seq![],
        captured: seq![],
        board_set: default_topology(),
        void: crate::board::set_of(|bt: crate::bit_board::BoardType| 0u64),
        occupied: crate::color_mask::ColorMask {
            white: crate::board::set_of(|bt: crate::bit_board::BoardType| 0u64),
            black: crate::board::set_of(|bt: crate::bit_board::BoardType| 0u64),
        },
    }
}

/// The state of a game, as values.
pub struct GameView {
    pub turn: Color,
    pub board: BoardView,
    pub history: Seq<(PieceMove, SnapshotView)>,
}

/// Whether a move can be made: a piece stands on its source square.
pub open spec fn push_ok(g: GameView, mv: PieceMove) -> bool {
    g.board.piece_index(encode(mv.source)) is Some
}

/// The game after a move that can be made: the board as it was is kept
/// with the move, the piece moves, the board is refreshed, the turn passes.
pub open spec fn pushed(g: GameView, mv: PieceMove) -> GameView {
    GameView {
        turn: g.turn.flip(),
        board: refreshed(g.board.moved(encode(mv.source), encode(mv.destination))),
        history: g.history.push((mv, snapshot_of(g.board))),
    }
}

/// The game after taking back the last move: the turn passes back and the
/// board kept with that move is put back.
pub open spec fn popped(g: GameView) -> GameView {
    GameView {
        turn: g.turn.flip(),
        board: restored(g.board, g.history.last().1),
        history: g.history.drop_last(),
    }
}

/// Whether the move's destination is among the attacks of the piece on its
/// source, on the sub-board the source level is bound to.
pub open spec fn is_legal(g: GameView, mv: PieceMove) -> bool {
    let dst = encode(mv.destination) & GRID_MASK;
    match g.board.piece_index(encode(mv.source)) {
        None => false,
        Some(i) => match board_type_of(g.board.board_set, mv.source.level) {
            None => false,
            Some(bt) => g.board.pieces[i].attacks.at(bt) & dst == dst,
        },
    }
}

/// The game after each of `moves` in turn.
pub open spec fn pushed_all(g: GameView, moves: Seq<PieceMove>) -> GameView
    decreases moves.len(),
{
    if moves.len() == 0 {
        g
    } else {
        pushed(pushed_all(g, moves.drop_last()), moves.last())
    }
}

/// Whether each of `moves` can be made in turn.
pub open spec fn all_pushes_ok(g: GameView, moves: Seq<PieceMove>) -> bool
    decreases moves.len(),
{
    moves.len() == 0 || (all_pushes_ok(g, moves.drop_last()) && push_ok(
        pushed_all(g, moves.drop_last()),
        moves.last(),
    ))
}

/// The game after taking back `n` moves.
pub open spec fn popped_n(g: GameView, n: nat) -> GameView
    decreases n,
{
    if n == 0 {
        g
    } else {
        popped_n(popped(g), (n - 1) as nat)
    }
}

/// Whether the board's void masks are those of its topology, as after any
/// refresh.
pub open spec fn voids_current(g: GameView) -> bool {
    g.board.void == void_mask(g.board.board_set)
}

/// Whether a game is as the engine keeps it: void masks current, the board
/// consistent, and every kept snapshot consistent and on the same topology.
pub open spec fn game_valid(g: GameView) -> bool {
    &&& voids_current(g)
    &&& board_consistent(g.board)
    &&& forall|i: int|
        0 <= i < g.history.len() ==> snapshot_consistent(#[trigger] g.history[i].1)
            && g.history[i].1.board_set == g.board.board_set
}

/// The default topology is well formed.
pub proof fn lemma_default_topology_wf()
    ensures
        topology_wf(default_topology()),
{
    assert forall|i: int| 0 <= i < 7 implies #[trigger] default_topology()@[i].0
        == all_board_types()[i] by {
        if i == 0 {
        } else if i == 1 {
        } else if i == 2 {
        } else if i == 3 {
        } else if i == 4 {
        } else if i == 5 {
        } else {
        }
    }
}

/// A move whose destination lies in its level's area keeps a game valid.
pub proof fn lemma_push_valid(g: GameView, mv: PieceMove)
    requires
        game_valid(g),
        push_ok(g, mv),
        position_valid(encode(mv.destination)),
    ensures
        game_valid(pushed(g, mv)),
{
    let src = encode(mv.source);
    let dst = encode(mv.destination);
    lemma_moved_valid(g.board, src, dst);
    lemma_refreshed_consistent(g.board.moved(src, dst));
    let p = pushed(g, mv);
    assert forall|i: int| 0 <= i < p.history.len() implies snapshot_consistent(
        #[trigger] p.history[i].1,
    ) && p.history[i].1.board_set == p.board.board_set by {
        if i < g.history.len() {
            assert(p.history[i] == g.history[i]);
        }
    }
}

/// Taking back a move keeps a game valid.
pub proof fn lemma_pop_valid(g: GameView)
    requires
        game_valid(g),
        g.history.len() > 0,
    ensures
        game_valid(popped(g)),
{
    let p = popped(g);
    let last = g.history[g.history.len() - 1].1;
    assert(g.history.last().1 == last);
    assert forall|i: int| 0 <= i < p.history.len() implies snapshot_consistent(
        #[trigger] p.history[i].1,
    ) && p.history[i].1.board_set == p.board.board_set by {
        assert(p.history[i] == g.history[i]);
    }
}

/// In a valid game each side's occupancy of every sub-board is a subset of
/// that sub-board's legal-area mask.
pub proof fn lemma_game_occupancy_within_area(g: GameView, color: Color, bt: BoardType)
    requires
        game_valid(g),
    ensures
        g.board.occupied.at(color).at(bt) & area_mask(level_of(g.board.board_set, bt))
            == g.board.occupied.at(color).at(bt),
{
    lemma_occupancy_within_area(g.board.pieces, g.board.board_set, color, bt);
}

/// Taking back a move just made restores the game exactly.
pub proof fn lemma_pop_after_push(g: GameView, mv: PieceMove)
    requires
        voids_current(g),
    ensures
        popped(pushed(g, mv)) == g,
        voids_current(pushed(g, mv)),
        pushed(g, mv).board.board_set == g.board.board_set,
{
    let p = pushed(g, mv);
    assert(p.history.drop_last() =~= g.history);
    assert(g.turn.flip().flip() == g.turn);
}

/// Making any sequence of moves that can each be made, then taking back as
/// many, gives back the game as it was: the same board, bit for bit, the
/// same turn and the same history.
pub proof fn lemma_undo_restores(g: GameView, moves: Seq<PieceMove>)
    requires
        voids_current(g),
        all_pushes_ok(g, moves),
    ensures
        popped_n(pushed_all(g, moves), moves.len()) == g,
        voids_current(pushed_all(g, moves)),
    decreases moves.len(),
{
    if moves.len() > 0 {
        let rest = moves.drop_last();
        lemma_undo_restores(g, rest);
        let h = pushed_all(g, rest);
        lemma_pop_after_push(h, moves.last());
        assert(popped_n(pushed_all(g, moves), moves.len()) == popped_n(
            popped(pushed(h, moves.last())),
            rest.len(),
        ));
    }
}

/// Turn, board and the stack of moves made, each with the board as it was
/// before it.
pub struct Game {
    pub turn: Color,
    pub board: Board,
    pub move_stack: Vec<(PieceMove, BoardSnapshot)>,
}

impl View for Game {
    type V = GameView;

    open spec fn view(&self) -> GameView {
        GameView {
            turn: self.turn,
            board: self.board@,
            history: self.move_stack@.map_values(
                |e: (PieceMove, BoardSnapshot)| (e.0, e.1@),
            ),
        }
    }
}

impl Game {
    /// The starting position, White to move, nothing to take back.
    pub fn new() -> (r: Game)
        ensures
            r@ == (GameView {
                turn: Color::White,
                board: refreshed(placed_all(empty_board(), standard_layout(), 32)),
                history: seq![],
            }),
            voids_current(r@),
            game_valid(r@),
    {
        let mut board = Board::new();
        proof {
            crate::bit_board::BitBoardSet::lemma_ext(board.occupied_void, empty_board().void);
            assert(forall|bt: crate::bit_board::BoardType| #[trigger]
                board.occupied_piece.white.at(bt) == board.occupied_piece.at(Color::White).at(bt));
            assert(forall|bt: crate::bit_board::BoardType| #[trigger]
                board.occupied_piece.black.at(bt) == board.occupied_piece.at(Color::Black).at(bt));
            crate::bit_board::BitBoardSet::lemma_ext(
                board.occupied_piece.white,
                empty_board().occupied.white,
            );
            crate::bit_board::BitBoardSet::lemma_ext(
                board.occupied_piece.black,
                empty_board().occupied.black,
            );
            assert(board@.pieces =~= empty_board().pieces);
            assert(board@.captured =~= empty_board().captured);
        }
        let layout = initial_layout();
        proof {
            assert(
            QL1_AREA & (1u64 << 0u64) == 1u64 << 0u64 &&
            QL1_AREA & (1u64 << 10u64) == 1u64 << 10u64 &&
            QL1_AREA & (1u64 << 1u64) == 1u64 << 1u64 &&
            QL1_AREA & (1u64 << 11u64) == 1u64 << 11u64 &&
            WHITE_AREA & (1u64 << 11u64) == 1u64 << 11u64 &&
            WHITE_AREA & (1u64 << 21u64) == 1u64 << 21u64 &&
            WHITE_AREA & (1u64 << 31u64) == 1u64 << 31u64 &&
            WHITE_AREA & (1u64 << 41u64) == 1u64 << 41u64 &&
            WHITE_AREA & (1u64 << 12u64) == 1u64 << 12u64 &&
            WHITE_AREA & (1u64 << 22u64) == 1u64 << 22u64 &&
            WHITE_AREA & (1u64 << 32u64) == 1u64 << 32u64 &&
            WHITE_AREA & (1u64 << 42u64) == 1u64 << 42u64 &&
            KL1_AREA & (1u64 << 40u64) == 1u64 << 40u64 &&
            KL1_AREA & (1u64 << 50u64) == 1u64 << 50u64 &&
            KL1_AREA & (1u64 << 41u64) == 1u64 << 41u64 &&
            KL1_AREA & (1u64 << 51u64) == 1u64 << 51u64 &&
            QL6_AREA & (1u64 << 8u64) == 1u64 << 8u64 &&
            QL6_AREA & (1u64 << 18u64) == 1u64 << 18u64 &&
            QL6_AREA & (1u64 << 9u64) == 1u64 << 9u64 &&
            QL6_AREA & (1u64 << 19u64) == 1u64 << 19u64 &&
            BLACK_AREA & (1u64 << 17u64) == 1u64 << 17u64 &&
            BLACK_AREA & (1u64 << 27u64) == 1u64 << 27u64 &&
            BLACK_AREA & (1u64 << 37u64) == 1u64 << 37u64 &&
            BLACK_AREA & (1u64 << 47u64) == 1u64 << 47u64 &&
            BLACK_AREA & (1u64 << 18u64) == 1u64 << 18u64 &&
            BLACK_AREA & (1u64 << 28u64) == 1u64 << 28u64 &&
            BLACK_AREA & (1u64 << 38u64) == 1u64 << 38u64 &&
            BLACK_AREA & (1u64 << 48u64) == 1u64 << 48u64 &&
            KL6_AREA & (1u64 << 48u64) == 1u64 << 48u64 &&
            KL6_AREA & (1u64 << 58u64) == 1u64 << 58u64 &&
            KL6_AREA & (1u64 << 49u64) == 1u64 << 49u64 &&
            KL6_AREA & (1u64 << 59u64) == 1u64 << 59u64
            ) by (bit_vector);
            reveal_with_fuel(layout_on_board, 33);
        }
        assert(layout_on_board(standard_layout(), 32));
        let mut i: usize = 0;
        while i < layout.len()
            invariant
                i <= layout.len(),
                layout@ == standard_layout(),
                layout_on_board(standard_layout(), 32),
                pieces_valid(board@.pieces),
                board.board_set == default_topology(),
                board@ == placed_all(empty_board(), standard_layout(), i as int),
            decreases layout.len() - i,
        {
            let (square, piece_type, color) = layout[i];
            proof {
                lemma_layout_on_board(standard_layout(), 32, i as int);
                lemma_encode_valid(square);
                lemma_placed_valid(board@, encode(square), piece_type, color);
            }
            board.set_piece(BitBoard::from_square(&square), piece_type, color);
            i += 1;
        }
        proof {
            lemma_default_topology_wf();
            lemma_refreshed_consistent(board@);
        }
        board.update();
        let game = Game { turn: Color::White, board, move_stack: Vec::new() };
        assert(game@.history =~= seq![]);
        game
    }

    fn pass_turn(&mut self)
        ensures
            final(self).turn == old(self).turn.flip(),
            final(self).board@ == old(self).board@,
            final(self).move_stack@ == old(self).move_stack@,
    {
        self.turn = self.turn.opposite();
    }

    /// Squares attacked by the piece on the level-tagged `square`; none when
    /// no piece stands there.
    pub fn get_attack_squares(&self, square: BitBoard) -> (r: Vec<Square>)
        ensures
            r@ == (match self.board@.piece_index(square.bits) {
                Some(i) => squares_upto(
                    self.board.pieces@[i].attacks,
                    self.board.board_set,
                    7,
                    60,
                ),
                None => seq![],
            }),
    {
        match self.board.get_piece(square) {
            Some(piece) => piece.get_attack_squares(&self.board),
            None => Vec::new(),
        }
    }

    /// Whether the move's destination is among the attacks of the piece on
    /// its source. King safety is not considered.
    pub fn legal_move(&self, piece_move: PieceMove) -> (r: bool)
        ensures
            r == is_legal(self@, piece_move),
    {
        let bit_source = BitBoard::from_square(&piece_move.source);
        let bit_destination = BitBoard::from_square(&piece_move.destination);
        let piece = match self.board.get_piece(bit_source) {
            Some(piece) => piece,
            None => return false,
        };
        let board_type = match self.board.convert_board_type(piece_move.source.level) {
            Some(board_type) => board_type,
            None => return false,
        };
        piece.attacks.get(board_type).contains(bit_destination.remove_level())
    }

    /// Make a move: keep the board as it is, move the piece, refresh the
    /// board and pass the turn. Fails, changing nothing, when no piece
    /// stands on the source square.
    pub fn push_move(&mut self, piece_move: PieceMove) -> (r: Result<(), MoveError>)
        ensures
            push_ok(old(self)@, piece_move) ==> r is Ok && final(self)@ == pushed(
                old(self)@,
                piece_move,
            ),
            !push_ok(old(self)@, piece_move) ==> r == Err::<(), MoveError>(
                MoveError::NoPieceAtSource,
            ) && final(self)@ == old(self)@,
    {
        let snapshot = BoardSnapshot::new(&self.board);
        let source = BitBoard::from_square(&piece_move.source);
        let destination = BitBoard::from_square(&piece_move.destination);
        match self.board.move_piece(source, destination) {
            Ok(()) => {},
            Err(e) => return Err(e),
        }
        self.board.update();
        self.move_stack.push((piece_move, snapshot));
        self.pass_turn();
        assert(self@.history =~= old(self)@.history.push((piece_move, snapshot_of(old(self)@.board))));
        Ok(())
    }

    /// Take back the last move: pass the turn back and put back the board
    /// kept with it. Fails, changing nothing, when no move was made.
    pub fn pop_move(&mut self) -> (r: Result<PieceMove, MoveError>)
        ensures
            old(self)@.history.len() > 0 ==> r == Ok::<PieceMove, MoveError>(
                old(self)@.history.last().0,
            ) && final(self)@ == popped(old(self)@),
            old(self)@.history.len() == 0 ==> r == Err::<PieceMove, MoveError>(
                MoveError::EmptyHistory,
            ) && final(self)@ == old(self)@,
    {
        match self.move_stack.pop() {
            Some((piece_move, snapshot)) => {
                self.pass_turn();
                snapshot.restore(&mut self.board);
                assert(self@.history =~= old(self)@.history.drop_last());
                Ok(piece_move)
            },
            None => Err(MoveError::EmptyHistory),
        }
    }
}

} // verus!
