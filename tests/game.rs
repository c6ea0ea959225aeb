use warp_square_engine::bit_board::{BitBoard, BoardType, GRID_MASK, KL1_AREA, WHITE_AREA};
use warp_square_engine::board::Board;
use warp_square_engine::game::Game;
use warp_square_engine::piece::PieceType;
use warp_square_engine::piece_move::{MoveError, PieceMove};
use warp_square_engine::square::{Color, File, Level, Rank, Square};

fn sq(rank: Rank, file: File, level: Level) -> Square {
    Square::new(rank, file, level)
}

fn at(rank: Rank, file: File, level: Level) -> BitBoard {
    BitBoard::from_square(&sq(rank, file, level))
}

#[test]
fn new_game_places_thirty_two_pieces() {
    let game = Game::new();
    assert_eq!(game.board.pieces.len(), 32);
    assert_eq!(game.turn, Color::White);
    assert!(game.board.captured_pieces.is_empty());
    assert!(game.move_stack.is_empty());
    let whites = game.board.pieces.iter().filter(|p| p.color == Color::White).count();
    assert_eq!(whites, 16);
    let king = game.board.get_piece(at(Rank::Zero, File::D, Level::KL1)).unwrap();
    assert_eq!(king.piece_type, PieceType::King);
    let queen = game.board.get_piece(at(Rank::Nine, File::A, Level::QL6)).unwrap();
    assert_eq!((queen.piece_type, queen.color), (PieceType::Queen, Color::Black));
    assert!(game.board.get_piece(at(Rank::Five, File::B, Level::Neutral)).is_none());
}

#[test]
fn pawn_double_step_then_single_step() {
    let mut game = Game::new();
    let from = sq(Rank::Two, File::B, Level::White);
    let squares = game.get_attack_squares(BitBoard::from_square(&from));
    assert!(squares.contains(&sq(Rank::Three, File::B, Level::White)));
    assert!(squares.contains(&sq(Rank::Four, File::B, Level::White)));

    let to = sq(Rank::Four, File::B, Level::White);
    let mv = PieceMove::new(from, to, None);
    assert!(game.legal_move(mv));
    assert_eq!(game.push_move(mv), Ok(()));
    assert_eq!(game.turn, Color::Black);
    let pawn = game.board.get_piece(BitBoard::from_square(&to)).unwrap();
    assert!(pawn.is_moved);
    let squares = pawn.get_attack_squares(&game.board);
    assert!(!squares.is_empty());
    assert!(squares.iter().all(|s| s.rank == Rank::Five && s.file == File::B));
    assert!(squares.contains(&sq(Rank::Five, File::B, Level::Neutral)));
}

#[test]
fn rook_ray_stops_at_opposing_piece() {
    let mut board = Board::new();
    board.set_piece(at(Rank::One, File::A, Level::White), PieceType::Rook, Color::White);
    board.set_piece(at(Rank::One, File::C, Level::White), PieceType::Knight, Color::Black);
    board.update();
    let rook = board.get_piece(at(Rank::One, File::A, Level::White)).unwrap();
    let squares = rook.get_attack_squares(&board);
    assert!(squares.contains(&sq(Rank::One, File::B, Level::White)));
    assert!(squares.contains(&sq(Rank::One, File::C, Level::White)));
    assert!(!squares.iter().any(|s| s.rank == Rank::One && (s.file == File::D || s.file == File::E)));
}

#[test]
fn push_from_empty_square_is_refused() {
    let mut game = Game::new();
    let before = game.board.pieces.clone();
    let mv = PieceMove::new(
        sq(Rank::Five, File::C, Level::Neutral),
        sq(Rank::Six, File::C, Level::Neutral),
        None,
    );
    assert!(!game.legal_move(mv));
    assert_eq!(game.push_move(mv), Err(MoveError::NoPieceAtSource));
    assert_eq!(game.board.pieces, before);
    assert_eq!(game.turn, Color::White);
    assert!(game.move_stack.is_empty());
}

#[test]
fn pop_on_new_game_is_refused() {
    let mut game = Game::new();
    assert_eq!(game.pop_move(), Err(MoveError::EmptyHistory));
    assert_eq!(game.turn, Color::White);
}

#[test]
fn pushes_then_pops_restore_board_and_turn() {
    let mut game = Game::new();
    let pieces = game.board.pieces.clone();
    let captured = game.board.captured_pieces.clone();
    let occupied = game.board.occupied_piece;
    let void = game.board.occupied_void;
    let moves = [
        PieceMove::new(sq(Rank::Two, File::B, Level::White), sq(Rank::Four, File::B, Level::White), None),
        PieceMove::new(sq(Rank::Seven, File::C, Level::Black), sq(Rank::Five, File::C, Level::Black), None),
        PieceMove::new(sq(Rank::Four, File::B, Level::White), sq(Rank::Five, File::C, Level::Black), None),
    ];
    for mv in moves {
        assert_eq!(game.push_move(mv), Ok(()));
    }
    assert_eq!(game.board.captured_pieces.len(), 1);
    assert_eq!(game.turn, Color::Black);
    for mv in moves.iter().rev() {
        assert_eq!(game.pop_move(), Ok(*mv));
    }
    assert_eq!(game.board.pieces, pieces);
    assert_eq!(game.board.captured_pieces, captured);
    assert_eq!(game.board.occupied_piece, occupied);
    assert_eq!(game.board.occupied_void, void);
    assert_eq!(game.turn, Color::White);
    assert_eq!(game.pop_move(), Err(MoveError::EmptyHistory));
}

#[test]
fn refresh_twice_changes_nothing() {
    let mut game = Game::new();
    let pieces = game.board.pieces.clone();
    let occupied = game.board.occupied_piece;
    game.board.update();
    assert_eq!(game.board.pieces, pieces);
    assert_eq!(game.board.occupied_piece, occupied);
    game.board.update();
    assert_eq!(game.board.pieces, pieces);
}

#[test]
fn occupancy_stays_within_legal_areas() {
    let game = Game::new();
    for color in Color::iter() {
        for bt in BoardType::iter() {
            let occ = game.board.occupied_piece.get(color).get(bt);
            let area = game.board.convert_level(bt).get_bit_board();
            assert!(area.contains(occ));
        }
    }
    let white = game.board.occupied_piece.get(Color::White);
    assert_eq!(white.get(BoardType::White).bits().count_ones(), 8);
    assert_eq!(white.get(BoardType::WhiteQueen).bits().count_ones(), 4);
    assert_eq!(white.get(BoardType::Black).bits(), 0);
}

#[test]
fn topology_lookups() {
    let board = Board::new();
    assert_eq!(board.convert_board_type(Level::Neutral), Some(BoardType::Neutral));
    assert_eq!(board.convert_board_type(Level::QL1), Some(BoardType::WhiteQueen));
    assert_eq!(board.convert_board_type(Level::KL6), Some(BoardType::BlackKing));
    assert_eq!(board.convert_board_type(Level::QL3), None);
    assert_eq!(board.convert_level(BoardType::WhiteKing), Level::KL1);
    assert!(board.validate_square(at(Rank::One, File::A, Level::White)));
    assert!(!board.validate_square(at(Rank::Five, File::A, Level::White)));
    assert!(board.validate_square(at(Rank::Nine, File::E, Level::KL6)));
}

#[test]
fn move_piece_captures_and_marks_moved() {
    let mut board = Board::new();
    let a = at(Rank::One, File::A, Level::White);
    let b = at(Rank::Two, File::A, Level::White);
    board.set_piece(a, PieceType::Rook, Color::White);
    board.set_piece(b, PieceType::Pawn, Color::Black);
    assert_eq!(board.move_piece(a, b), Ok(()));
    assert_eq!(board.pieces.len(), 1);
    assert_eq!(board.captured_pieces.len(), 1);
    assert_eq!(board.captured_pieces[0].color, Color::Black);
    let rook = board.get_piece(b).unwrap();
    assert!(rook.is_moved);
    assert_eq!(rook.piece_type, PieceType::Rook);
    assert_eq!(board.move_piece(a, b), Err(MoveError::NoPieceAtSource));
    let replaced = board.set_piece(b, PieceType::Queen, Color::White);
    assert_eq!(replaced.unwrap().piece_type, PieceType::Rook);
    assert_eq!(board.remove_piece(b).unwrap().piece_type, PieceType::Queen);
    assert!(board.remove_piece(b).is_none());
}

#[test]
fn expand_classifies_squares_per_sub_board() {
    let mut board = Board::new();
    board.set_piece(at(Rank::Three, File::B, Level::White), PieceType::Pawn, Color::Black);
    board.update_occupied();
    let squares = BitBoard::from_bits_retain(1u64 << 23);
    let all = board.get_empty_board(squares, None);
    assert_eq!(all.len(), 2);
    assert_eq!(all[0], (BoardType::White, squares, false));
    assert_eq!(all[1], (BoardType::Neutral, squares, true));
    let for_black = board.get_empty_board(squares, Some(Color::Black));
    assert_eq!(for_black[0], (BoardType::White, squares, true));
    let with_color = board.get_empty_board_with_color(squares, Color::Black);
    assert_eq!(with_color, vec![(BoardType::White, false), (BoardType::Neutral, true)]);
}

#[test]
fn knight_and_king_attacks_in_opening() {
    let game = Game::new();
    let knight = game.get_attack_squares(at(Rank::One, File::A, Level::White));
    assert!(knight.contains(&sq(Rank::Three, File::B, Level::White)));
    assert!(knight.contains(&sq(Rank::Three, File::B, Level::Neutral)));
    assert!(!knight.iter().any(|s| s.rank == Rank::Two));
    let king = game.get_attack_squares(at(Rank::Zero, File::D, Level::KL1));
    assert!(king.is_empty() || king.iter().all(|s| s.rank == Rank::One));
}

#[test]
fn piece_letters() {
    assert_eq!(PieceType::Knight.get_char(Color::White), "N");
    assert_eq!(PieceType::Queen.get_char(Color::Black), "q");
    let game = Game::new();
    let p = game.board.get_piece(at(Rank::Zero, File::Z, Level::QL1)).unwrap();
    assert_eq!(p.get_char(), "R");
    assert_eq!(p.get_square(), sq(Rank::Zero, File::Z, Level::QL1));
}

#[test]
fn void_masks_cover_grid_squares_outside_each_area() {
    let game = Game::new();
    assert_eq!(game.board.occupied_void.get(BoardType::White).bits(), !WHITE_AREA & GRID_MASK);
    assert_eq!(game.board.occupied_void.get(BoardType::WhiteKing).bits(), !KL1_AREA & GRID_MASK);
}
