//! Rules and move generation for a three-tier chess variant: packed square
//! encoding, sub-board topology, occupancy and attack sets, and moves with
//! exact undo.
pub mod square;
pub mod bit_board;
pub mod color_mask;
pub mod piece;
pub mod piece_move;
pub mod board;
pub mod game;
