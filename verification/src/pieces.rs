//! Piece kinds, tagged by color.

use vstd::prelude::*;

verus! {

/// ASCII code of the FEN glyph `P`.
pub const GLYPH_WP: u8 = 80;
/// ASCII code of the FEN glyph `N`.
pub const GLYPH_WN: u8 = 78;
/// ASCII code of the FEN glyph `B`.
pub const GLYPH_WB: u8 = 66;
/// ASCII code of the FEN glyph `R`.
pub const GLYPH_WR: u8 = 82;
/// ASCII code of the FEN glyph `Q`.
pub const GLYPH_WQ: u8 = 81;
/// ASCII code of the FEN glyph `K`.
pub const GLYPH_WK: u8 = 75;
/// ASCII code of the FEN glyph `p`.
pub const GLYPH_BP: u8 = 112;
/// ASCII code of the FEN glyph `n`.
pub const GLYPH_BN: u8 = 110;
/// ASCII code of the FEN glyph `b`.
pub const GLYPH_BB: u8 = 98;
/// ASCII code of the FEN glyph `r`.
pub const GLYPH_BR: u8 = 114;
/// ASCII code of the FEN glyph `q`.
pub const GLYPH_BQ: u8 = 113;
/// ASCII code of the FEN glyph `k`.
pub const GLYPH_BK: u8 = 107;

/// The type of a piece, one variant per (color, kind) pair.
#[derive(Debug, PartialEq, Eq, Copy, Clone, Structural)]
pub enum Piece {
    WhitePawn,
    WhiteKnight,
    WhiteBishop,
    WhiteRook,
    WhiteQueen,
    WhiteKing,
    BlackPawn,
    BlackKnight,
    BlackBishop,
    BlackRook,
    BlackQueen,
    BlackKing,
}

impl Piece {
    /// True for the six white variants.
    pub open spec fn is_white(self) -> bool {
        match self {
            Piece::WhitePawn
            | Piece::WhiteKnight
            | Piece::WhiteBishop
            | Piece::WhiteRook
            | Piece::WhiteQueen
            | Piece::WhiteKing => true,
            _ => false,
        }
    }

    /// The FEN glyph of the piece: upper case for white, lower case for black.
    pub open spec fn spec_glyph(self) -> u8 {
        match self {
            Piece::WhitePawn => GLYPH_WP,
            Piece::WhiteKnight => GLYPH_WN,
            Piece::WhiteBishop => GLYPH_WB,
            Piece::WhiteRook => GLYPH_WR,
            Piece::WhiteQueen => GLYPH_WQ,
            Piece::WhiteKing => GLYPH_WK,
            Piece::BlackPawn => GLYPH_BP,
            Piece::BlackKnight => GLYPH_BN,
            Piece::BlackBishop => GLYPH_BB,
            Piece::BlackRook => GLYPH_BR,
            Piece::BlackQueen => GLYPH_BQ,
            Piece::BlackKing => GLYPH_BK,
        }
    }

    /// The FEN glyph of the piece.
    pub fn glyph(self) -> (g: u8)
        ensures
            g == self.spec_glyph(),
    {
        match self {
            Piece::WhitePawn => GLYPH_WP,
            Piece::WhiteKnight => GLYPH_WN,
            Piece::WhiteBishop => GLYPH_WB,
            Piece::WhiteRook => GLYPH_WR,
            Piece::WhiteQueen => GLYPH_WQ,
            Piece::WhiteKing => GLYPH_WK,
            Piece::BlackPawn => GLYPH_BP,
            Piece::BlackKnight => GLYPH_BN,
            Piece::BlackBishop => GLYPH_BB,
            Piece::BlackRook => GLYPH_BR,
            Piece::BlackQueen => GLYPH_BQ,
            Piece::BlackKing => GLYPH_BK,
        }
    }

    /// The piece whose FEN glyph is `g`, if any.
    pub open spec fn spec_of_glyph(g: u8) -> Option<Piece> {
        if g == GLYPH_WP {
            Some(Piece::WhitePawn)
        } else if g == GLYPH_WN {
            Some(Piece::WhiteKnight)
        } else if g == GLYPH_WB {
            Some(Piece::WhiteBishop)
        } else if g == GLYPH_WR {
            Some(Piece::WhiteRook)
        } else if g == GLYPH_WQ {
            Some(Piece::WhiteQueen)
        } else if g == GLYPH_WK {
            Some(Piece::WhiteKing)
        } else if g == GLYPH_BP {
            Some(Piece::BlackPawn)
        } else if g == GLYPH_BN {
            Some(Piece::BlackKnight)
        } else if g == GLYPH_BB {
            Some(Piece::BlackBishop)
        } else if g == GLYPH_BR {
            Some(Piece::BlackRook)
        } else if g == GLYPH_BQ {
            Some(Piece::BlackQueen)
        } else if g == GLYPH_BK {
            Some(Piece::BlackKing)
        } else {
            None
        }
    }

    /// The piece whose FEN glyph is `g`, if any.
    pub fn of_glyph(g: u8) -> (p: Option<Piece>)
        ensures
            p == Piece::spec_of_glyph(g),
    {
        if g == GLYPH_WP {
            Some(Piece::WhitePawn)
        } else if g == GLYPH_WN {
            Some(Piece::WhiteKnight)
        } else if g == GLYPH_WB {
            Some(Piece::WhiteBishop)
        } else if g == GLYPH_WR {
            Some(Piece::WhiteRook)
        } else if g == GLYPH_WQ {
            Some(Piece::WhiteQueen)
        } else if g == GLYPH_WK {
            Some(Piece::WhiteKing)
        } else if g == GLYPH_BP {
            Some(Piece::BlackPawn)
        } else if g == GLYPH_BN {
            Some(Piece::BlackKnight)
        } else if g == GLYPH_BB {
            Some(Piece::BlackBishop)
        } else if g == GLYPH_BR {
            Some(Piece::BlackRook)
        } else if g == GLYPH_BQ {
            Some(Piece::BlackQueen)
        } else if g == GLYPH_BK {
            Some(Piece::BlackKing)
        } else {
            None
        }
    }

    /// The piece whose FEN letter is the character `c`, if any.
    pub open spec fn spec_of_char(c: char) -> Option<Piece> {
        if c == 'P' {
            Some(Piece::WhitePawn)
        } else if c == 'N' {
            Some(Piece::WhiteKnight)
        } else if c == 'B' {
            Some(Piece::WhiteBishop)
        } else if c == 'R' {
            Some(Piece::WhiteRook)
        } else if c == 'Q' {
            Some(Piece::WhiteQueen)
        } else if c == 'K' {
            Some(Piece::WhiteKing)
        } else if c == 'p' {
            Some(Piece::BlackPawn)
        } else if c == 'n' {
            Some(Piece::BlackKnight)
        } else if c == 'b' {
            Some(Piece::BlackBishop)
        } else if c == 'r' {
            Some(Piece::BlackRook)
        } else if c == 'q' {
            Some(Piece::BlackQueen)
        } else if c == 'k' {
            Some(Piece::BlackKing)
        } else {
            None
        }
    }

    /// The piece whose FEN letter is the character `c`, if any.
    pub fn of_char(c: char) -> (p: Option<Piece>)
        ensures
            p == Piece::spec_of_char(c),
    {
        if c == 'P' {
            Some(Piece::WhitePawn)
        } else if c == 'N' {
            Some(Piece::WhiteKnight)
        } else if c == 'B' {
            Some(Piece::WhiteBishop)
        } else if c == 'R' {
            Some(Piece::WhiteRook)
        } else if c == 'Q' {
            Some(Piece::WhiteQueen)
        } else if c == 'K' {
            Some(Piece::WhiteKing)
        } else if c == 'p' {
            Some(Piece::BlackPawn)
        } else if c == 'n' {
            Some(Piece::BlackKnight)
        } else if c == 'b' {
            Some(Piece::BlackBishop)
        } else if c == 'r' {
            Some(Piece::BlackRook)
        } else if c == 'q' {
            Some(Piece::BlackQueen)
        } else if c == 'k' {
            Some(Piece::BlackKing)
        } else {
            None
        }
    }
}

} // verus!
