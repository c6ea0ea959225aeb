use warp_square_engine::bit_board::{BitBoard, BoardType, BitBoardSet, GRID_MASK, WHITE_AREA};
use warp_square_engine::square::{Color, Direction, File, Level, Rank, Square};

fn sq(rank: Rank, file: File, level: Level) -> Square {
    Square::new(rank, file, level)
}

#[test]
fn encode_places_grid_bit_and_level_tag() {
    let b = BitBoard::from_square(&sq(Rank::One, File::A, Level::White));
    assert_eq!(b.bits(), (1u64 << 11) | (1u64 << 60));
    let b = BitBoard::from_square(&sq(Rank::Nine, File::E, Level::KL6));
    assert_eq!(b.bits(), (1u64 << 59) | (15u64 << 60));
    let b = BitBoard::from_square(&sq(Rank::Zero, File::Z, Level::QL1));
    assert_eq!(b.bits(), 1u64 | (4u64 << 60));
}

#[test]
fn decode_of_encode_round_trips_every_square() {
    let ranks = [
        Rank::Zero, Rank::One, Rank::Two, Rank::Three, Rank::Four,
        Rank::Five, Rank::Six, Rank::Seven, Rank::Eight, Rank::Nine,
    ];
    let files = [File::Z, File::A, File::B, File::C, File::D, File::E];
    let levels = [
        Level::White, Level::Neutral, Level::Black, Level::QL1, Level::QL2, Level::QL3,
        Level::QL4, Level::QL5, Level::QL6, Level::KL1, Level::KL2, Level::KL3, Level::KL4,
        Level::KL5, Level::KL6,
    ];
    for r in ranks {
        for f in files {
            for l in levels {
                let s = sq(r, f, l);
                assert_eq!(BitBoard::from_square(&s).into_square(), s);
            }
        }
    }
}

#[test]
fn decode_saturates_out_of_range_values() {
    let s = BitBoard::from_bits_retain(0).into_square();
    assert_eq!(s, sq(Rank::Four, File::E, Level::White));
    let s = BitBoard::from_bits_retain(1u64 << 25).into_square();
    assert_eq!(s, sq(Rank::Five, File::B, Level::White));
}

#[test]
fn remove_level_keeps_grid_bits() {
    let b = BitBoard::from_square(&sq(Rank::Three, File::C, Level::Black));
    assert_eq!(b.remove_level().bits(), 1u64 << 33);
    assert_eq!(BitBoard::from_bits_retain(u64::MAX).remove_level().bits(), GRID_MASK);
}

#[test]
fn rank_and_file_steps_saturate_at_edges() {
    assert_eq!(Rank::Nine.up(), Rank::Nine);
    assert_eq!(Rank::Zero.down(), Rank::Zero);
    assert_eq!(Rank::Four.up(), Rank::Five);
    assert_eq!(Rank::Four.down(), Rank::Three);
    assert_eq!(File::E.right(), File::E);
    assert_eq!(File::Z.left(), File::Z);
    assert_eq!(File::B.left(), File::A);
    assert_eq!(Rank::from_u8(200), Rank::Nine);
    assert_eq!(File::from_u8(7), File::E);
    assert_eq!(Level::from_u8(0), Level::White);
    assert_eq!(Level::from_u8(16), Level::KL6);
    assert_eq!(Level::from_u8(9), Level::QL6);
}

#[test]
fn square_moves_follow_color() {
    let s = sq(Rank::Two, File::B, Level::White);
    assert_eq!(s.forward(Color::White).rank, Rank::Three);
    assert_eq!(s.forward(Color::Black).rank, Rank::One);
    assert_eq!(s.backward(Color::White).rank, Rank::One);
    assert_eq!(s.left().file, File::A);
    assert_eq!(s.right().file, File::C);
    assert_eq!(sq(Rank::Nine, File::E, Level::KL6).up(), sq(Rank::Nine, File::E, Level::KL6));
}

#[test]
fn bitboard_step_stops_at_grid_edge() {
    let top = BitBoard::from_bits_retain(1u64 << 9);
    assert_eq!(top.step(Direction::Up).bits(), 1u64 << 9);
    assert_eq!(top.step(Direction::Down).bits(), 1u64 << 8);
    assert_eq!(top.step(Direction::UpRight).bits(), 1u64 << 9);
    assert_eq!(top.step(Direction::DownRight).bits(), 1u64 << 18);
    let corner = BitBoard::from_bits_retain(1u64 << 50);
    assert_eq!(corner.step(Direction::Right).bits(), 1u64 << 50);
    assert_eq!(corner.step(Direction::Left).bits(), 1u64 << 40);
}

#[test]
fn ray_stops_at_first_blocker_inclusive() {
    let start = BitBoard::from_bits_retain(1u64 << 11);
    let blockers = BitBoard::from_bits_retain(1u64 << 31);
    let r = start.ray(blockers, Direction::Right);
    assert_eq!(r.bits(), (1u64 << 21) | (1u64 << 31));
    let r = start.ray(BitBoard::empty(), Direction::Up);
    let mut expected = 0u64;
    for k in 12..20 {
        expected |= 1u64 << k;
    }
    assert_eq!(r.bits(), expected);
    let edge = BitBoard::from_bits_retain(1u64 << 19);
    assert_eq!(edge.ray(BitBoard::empty(), Direction::Up).bits(), 0);
}

#[test]
fn knight_targets_exclude_wrapped_squares() {
    let b1 = BitBoard::from_bits_retain(1u64 << 21);
    let expected = 1u64 | (1u64 << 2) | (1u64 << 13) | (1u64 << 33) | (1u64 << 40) | (1u64 << 42);
    assert_eq!(b1.knight_targets().bits(), expected);
    let z0 = BitBoard::from_bits_retain(1u64);
    assert_eq!(z0.knight_targets().bits(), (1u64 << 12) | (1u64 << 21));
}

#[test]
fn level_masks_and_tags() {
    assert_eq!(Level::White.get_bit_board().bits(), WHITE_AREA);
    assert!(Level::White
        .get_bit_board()
        .contains(BitBoard::from_bits_retain(1u64 << 11)));
    assert!(!Level::White
        .get_bit_board()
        .contains(BitBoard::from_bits_retain(1u64 << 15)));
    assert_eq!(Level::QL1.get_bit_board().bits(), 1 | 2 | (1 << 10) | (1 << 11));
    assert_eq!(Level::KL6.into_bit_board().bits(), 15u64 << 60);
}

#[test]
fn bitboard_set_union_and_intersection() {
    let mut s = BitBoardSet::new();
    assert_eq!(s.union().bits(), 0);
    s.set(BoardType::Neutral, BitBoard::from_bits_retain(0b1010));
    s.set(BoardType::BlackKing, BitBoard::from_bits_retain(0b0110));
    assert_eq!(s.get(BoardType::Neutral).bits(), 0b1010);
    assert_eq!(s.union().bits(), 0b1110);
    assert_eq!(s.intersection().bits(), 0);
    assert_eq!(BoardType::iter().len(), 7);
    assert_eq!(Color::iter(), vec![Color::White, Color::Black]);
}
