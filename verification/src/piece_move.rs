//! A compact move encoding: origin, destination, and a flag naming the move's
//! kind, built through one constructor per kind.

use vstd::prelude::*;

verus! {

/// A square index, 0..64.
pub type Square = u8;

/// The kind of a piece, without its color.
#[derive(Clone, Copy, PartialEq, Eq, Structural, Debug)]
pub enum PieceType {
    Pawn,
    Knight,
    Bishop,
    Rook,
    Queen,
    King,
}

/// The color of a piece.
#[derive(Clone, Copy, PartialEq, Eq, Structural, Debug)]
pub enum PieceColor {
    White,
    Black,
}

/// What kind of move a [`Move`] is, with the data its kind carries.
#[derive(Clone, Copy, PartialEq, Eq, Structural, Debug)]
pub enum MoveFlag {
    Quiet,
    DoublePawn,
    Capture,
    EnPassant { capture: Square },
    Promotion { piece: PieceType, capture: bool },
    Castle,
}

/// A move: origin, destination, and its kind.
#[derive(Clone, Copy, PartialEq, Eq, Structural, Debug)]
pub struct Move {
    from: Square,
    to: Square,
    flag: MoveFlag,
}

impl Move {
    /// The origin square.
    pub closed spec fn spec_from(self) -> Square {
        self.from
    }

    /// The destination square.
    pub closed spec fn spec_to(self) -> Square {
        self.to
    }

    /// The kind of the move.
    pub closed spec fn spec_flag(self) -> MoveFlag {
        self.flag
    }

    /// A quiet move from `from` to `to`.
    pub fn make_quiet(from: Square, to: Square) -> (m: Move)
        ensures
            m.spec_from() == from,
            m.spec_to() == to,
            m.spec_flag() == MoveFlag::Quiet,
    {
        Move { from, to, flag: MoveFlag::Quiet }
    }

    /// A two-square pawn advance from `from` to `to`.
    pub fn make_double_pawn(from: Square, to: Square) -> (m: Move)
        ensures
            m.spec_from() == from,
            m.spec_to() == to,
            m.spec_flag() == MoveFlag::DoublePawn,
    {
        Move { from, to, flag: MoveFlag::DoublePawn }
    }

    /// A capture from `from` to `to`.
    pub fn make_capture(from: Square, to: Square) -> (m: Move)
        ensures
            m.spec_from() == from,
            m.spec_to() == to,
            m.spec_flag() == MoveFlag::Capture,
    {
        Move { from, to, flag: MoveFlag::Capture }
    }

    /// An en-passant capture from `from` to `to` taking the pawn on `capture`.
    pub fn make_en_passant(from: Square, to: Square, capture: Square) -> (m: Move)
        ensures
            m.spec_from() == from,
            m.spec_to() == to,
            m.spec_flag() == (MoveFlag::EnPassant { capture }),
    {
        Move { from, to, flag: MoveFlag::EnPassant { capture } }
    }

    /// A promotion from `from` to `to` into `piece`, capturing or not.
    pub fn make_promotion(from: Square, to: Square, piece: PieceType, capture: bool) -> (m: Move)
        ensures
            m.spec_from() == from,
            m.spec_to() == to,
            m.spec_flag() == (MoveFlag::Promotion { piece, capture }),
    {
        Move { from, to, flag: MoveFlag::Promotion { piece, capture } }
    }

    /// A castling move from `from` to `to`.
    pub fn make_castle(from: Square, to: Square) -> (m: Move)
        ensures
            m.spec_from() == from,
            m.spec_to() == to,
            m.spec_flag() == MoveFlag::Castle,
    {
        Move { from, to, flag: MoveFlag::Castle }
    }

    /// A move from `from` to `to` with the kind `flag`.
    pub fn make(from: Square, to: Square, flag: MoveFlag) -> (m: Move)
        ensures
            m.spec_from() == from,
            m.spec_to() == to,
            m.spec_flag() == flag,
    {
        Move { from, to, flag }
    }
}

} // verus!
