use vstd::prelude::*;

use crate::bit_board::{BitBoard, BitBoardSet, BoardType};
use crate::square::Color;

verus! {

/// Occupancy split by color: one set of sub-board bitmaps per side.
#[derive(Copy, Clone, PartialEq, Eq, Structural, Debug, Hash)]
pub struct ColorMask {
    pub white: BitBoardSet,
    pub black: BitBoardSet,
}

impl ColorMask {
    /// The sub-board bitmaps of one side.
    pub open spec fn at(self, color: Color) -> BitBoardSet {
        match color {
            Color::White => self.white,
            Color::Black => self.black,
        }
    }

    /// Both sides together, sub-board by sub-board.
    pub open spec fn union_at(self, bt: BoardType) -> u64 {
        self.white.at(bt) | self.black.at(bt)
    }

    /// Nothing occupied.
    pub fn new() -> (r: ColorMask)
        ensures
            forall|c: Color, bt: BoardType| #[trigger] r.at(c).at(bt) == 0,
    {
        ColorMask { white: BitBoardSet::new(), black: BitBoardSet::new() }
    }

    pub fn get(&self, color: Color) -> (r: BitBoardSet)
        ensures
            r == self.at(color),
    {
        match color {
            Color::White => self.white,
            Color::Black => self.black,
        }
    }

    /// Replace one side's bitmap on one sub-board.
    pub fn set(&mut self, color: Color, bt: BoardType, value: BitBoard)
        ensures
            forall|c: Color, b: BoardType|
                #![trigger final(self).at(c).at(b)]
                final(self).at(c).at(b) == if c == color && b == bt {
                    value.bits
                } else {
                    old(self).at(c).at(b)
                },
    {
        match color {
            Color::White => self.white.set(bt, value),
            Color::Black => self.black.set(bt, value),
        }
    }

    /// Both sides or-ed together, sub-board by sub-board.
    pub fn union(&self) -> (r: BitBoardSet)
        ensures
            forall|bt: BoardType| #[trigger] r.at(bt) == self.union_at(bt),
    {
        self.white.combine(&self.black)
    }
}

} // verus!
