//! Moves: tagged values naming the squares a move touches.

use vstd::prelude::*;

use crate::pieces::Piece;

verus! {

/// A move of a piece on the board. Squares are indices 0..64.
#[derive(Debug, PartialEq, Eq, Copy, Clone, Structural)]
pub enum Move {
    /// A quiet move or an ordinary capture: the piece on `from` moves to `to`.
    Normal { from: u8, to: u8 },
    /// A castling move: the king moves from `from` to `to`, and the rook on
    /// `rook` lands beside the king on the far side.
    Castle { from: u8, to: u8, rook: u8 },
    /// An en-passant capture: the pawn on `from` moves to `to` and the pawn on
    /// `captured` (which is not `to`) leaves the board.
    EnPassant { from: u8, to: u8, captured: u8 },
    /// A promotion: the pawn on `from` leaves the board and a piece of kind
    /// `promotion` appears on `to`, capturing whatever stood there.
    Promotion { from: u8, to: u8, promotion: Piece },
}

impl Move {
    /// The origin square.
    pub open spec fn from_sq(self) -> u8 {
        match self {
            Move::Normal { from, .. } => from,
            Move::Castle { from, .. } => from,
            Move::EnPassant { from, .. } => from,
            Move::Promotion { from, .. } => from,
        }
    }

    /// The destination square.
    pub open spec fn to_sq(self) -> u8 {
        match self {
            Move::Normal { to, .. } => to,
            Move::Castle { to, .. } => to,
            Move::EnPassant { to, .. } => to,
            Move::Promotion { to, .. } => to,
        }
    }

    /// A valid move value: every named square is an index 0..64, and a
    /// castling king changes square (the rook's landing square is computed
    /// from the direction of travel).
    pub open spec fn wf(self) -> bool {
        match self {
            Move::Normal { from, to } => from < 64 && to < 64,
            Move::Castle { from, to, rook } => from < 64 && to < 64 && rook < 64 && from != to,
            Move::EnPassant { from, to, captured } => from < 64 && to < 64 && captured < 64,
            Move::Promotion { from, to, promotion: _ } => from < 64 && to < 64,
        }
    }
}

} // verus!
