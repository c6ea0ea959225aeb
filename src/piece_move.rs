use vstd::prelude::*;

use crate::piece::PieceType;
use crate::square::Square;

verus! {

/// A move from one square to another.
#[derive(Copy, Clone, PartialEq, Eq, Structural, Debug, Hash)]
pub struct PieceMove {
    pub source: Square,
    pub destination: Square,
    pub promotion: Option<PieceType>,
}

impl PieceMove {
    pub fn new(source: Square, destination: Square, promotion: Option<PieceType>) -> (r: PieceMove)
        ensures
            r == (PieceMove { source, destination, promotion }),
    {
        PieceMove { source, destination, promotion }
    }
}

/// Why a move or an undo was refused.
#[derive(Copy, Clone, PartialEq, Eq, Structural, Debug, Hash)]
pub enum MoveError {
    /// No piece stands on the move's source square.
    NoPieceAtSource,
    /// There is no move to take back.
    EmptyHistory,
}

} // verus!
