use vstd::prelude::*;

verus! {

/// The kinds of chess piece.
#[derive(Clone, Copy, Debug, PartialEq, Eq, Structural)]
pub enum PieceType {
    Pawn,
    Knight,
    Bishop,
    Rook,
    Queen,
    King,
}

/// Failure of a board update.
#[derive(Clone, Copy, Debug, PartialEq, Eq, Structural)]
pub enum BitboardError {
    /// The source square holds none of this side's pieces.
    PieceNotFound,
}

/// Failure of a piece lookup.
#[derive(Clone, Copy, Debug, PartialEq, Eq, Structural)]
pub enum PieceError {
    /// The square holds none of this side's pieces.
    NoPiece,
}

} // verus!
