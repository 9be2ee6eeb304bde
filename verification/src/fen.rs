//! FEN: parsing a position from Forsyth-Edwards Notation and serializing one
//! back to it.
//!
//! A FEN record has six whitespace-separated fields: piece placement (rank 8
//! first, `/` between ranks, digits for empty runs), side to move (`w` or
//! `b`), castling rights (a subset of `KQkq` or `-`), en-passant target
//! (a square like `e6`, or `-`), halfmove clock and fullmove number.

use vstd::prelude::*;

use crate::pieces::Piece;
use vstd::string::StringSliceAdditionalSpecFns;

verus! {

/// Why a FEN string was rejected.
#[derive(Debug, PartialEq, Eq, Copy, Clone, Structural)]
pub enum ParseError {
    /// One of the six fields is absent.
    MissingField,
    /// The placement field holds a byte that is no piece letter, digit or `/`.
    BadPieceGlyph,
    /// The placement field does not lay out eight ranks of eight files.
    BadPlacement,
    /// The side-to-move field is not `w` or `b`.
    BadTurn,
    /// The castling field holds a byte outside `KQkq-`.
    BadCastling,
    /// The en-passant field is not `-` or a file letter followed by `3` or `6`.
    BadEnPassant,
    /// A clock field is not a decimal number that fits the counter.
    BadCounter,
}

/// The twelve piece masks read from a placement field.
#[derive(Debug, PartialEq, Eq, Copy, Clone, Structural)]
pub struct Placement {
    pub white_pawns: u64,
    pub white_knights: u64,
    pub white_bishops: u64,
    pub white_rooks: u64,
    pub white_queens: u64,
    pub white_king: u64,
    pub black_pawns: u64,
    pub black_knights: u64,
    pub black_bishops: u64,
    pub black_rooks: u64,
    pub black_queens: u64,
    pub black_king: u64,
}

/// The placement with no piece on any square.
pub open spec fn empty_placement() -> Placement {
    Placement {
        white_pawns: 0,
        white_knights: 0,
        white_bishops: 0,
        white_rooks: 0,
        white_queens: 0,
        white_king: 0,
        black_pawns: 0,
        black_knights: 0,
        black_bishops: 0,
        black_rooks: 0,
        black_queens: 0,
        black_king: 0,
    }
}

/// `pl` with a piece of kind `p` added on square `sq`.
pub open spec fn spec_place_piece(pl: Placement, p: Piece, sq: u8) -> Placement {
    match p {
        Piece::WhitePawn => Placement { white_pawns: pl.white_pawns | (1u64 << (sq as u64)), ..pl },
        Piece::WhiteKnight => Placement {
            white_knights: pl.white_knights | (1u64 << (sq as u64)),
            ..pl
        },
        Piece::WhiteBishop => Placement {
            white_bishops: pl.white_bishops | (1u64 << (sq as u64)),
            ..pl
        },
        Piece::WhiteRook => Placement { white_rooks: pl.white_rooks | (1u64 << (sq as u64)), ..pl },
        Piece::WhiteQueen => Placement {
            white_queens: pl.white_queens | (1u64 << (sq as u64)),
            ..pl
        },
        Piece::WhiteKing => Placement { white_king: pl.white_king | (1u64 << (sq as u64)), ..pl },
        Piece::BlackPawn => Placement { black_pawns: pl.black_pawns | (1u64 << (sq as u64)), ..pl },
        Piece::BlackKnight => Placement {
            black_knights: pl.black_knights | (1u64 << (sq as u64)),
            ..pl
        },
        Piece::BlackBishop => Placement {
            black_bishops: pl.black_bishops | (1u64 << (sq as u64)),
            ..pl
        },
        Piece::BlackRook => Placement { black_rooks: pl.black_rooks | (1u64 << (sq as u64)), ..pl },
        Piece::BlackQueen => Placement {
            black_queens: pl.black_queens | (1u64 << (sq as u64)),
            ..pl
        },
        Piece::BlackKing => Placement { black_king: pl.black_king | (1u64 << (sq as u64)), ..pl },
    }
}

/// True for the ASCII whitespace bytes that separate FEN fields.
pub open spec fn is_ws(b: u8) -> bool {
    b == 32 || b == 9 || b == 10 || b == 11 || b == 12 || b == 13
}

/// One byte fed to the tokenizer: whitespace closes the pending token, any
/// other byte extends it.
pub open spec fn tok_step(toks: Seq<Seq<u8>>, cur: Seq<u8>, b: u8) -> (Seq<Seq<u8>>, Seq<u8>) {
    if is_ws(b) {
        if cur.len() > 0 {
            (toks.push(cur), Seq::empty())
        } else {
            (toks, cur)
        }
    } else {
        (toks, cur.push(b))
    }
}

/// The tokenizer state after the first `i` bytes of `s`.
pub open spec fn tok_fold(s: Seq<u8>, i: int) -> (Seq<Seq<u8>>, Seq<u8>)
    decreases i,
{
    if i <= 0 {
        (Seq::empty(), Seq::empty())
    } else {
        let prev = tok_fold(s, i - 1);
        tok_step(prev.0, prev.1, s[i - 1])
    }
}

/// The whitespace-separated tokens of `s`.
pub open spec fn spec_tokens(s: Seq<u8>) -> Seq<Seq<u8>> {
    let end = tok_fold(s, s.len() as int);
    if end.1.len() > 0 {
        end.0.push(end.1)
    } else {
        end.0
    }
}

/// One placement byte applied to the scan state `(pl, row, col)`: a digit
/// skips files, `/` closes a full rank and opens the one below, a piece letter
/// places a piece.
pub open spec fn place_step(pl: Placement, row: int, col: int, g: u8) -> Result<
    (Placement, int, int),
    ParseError,
> {
    if 49 <= g <= 56 {
        if col + (g - 48) <= 8 {
            Ok((pl, row, col + (g - 48)))
        } else {
            Err(ParseError::BadPlacement)
        }
    } else if g == 47 {
        if col == 8 && row > 0 {
            Ok((pl, row - 1, 0))
        } else {
            Err(ParseError::BadPlacement)
        }
    } else {
        match Piece::spec_of_glyph(g) {
            Some(p) => if col < 8 {
                Ok((spec_place_piece(pl, p, (row * 8 + col) as u8), row, col + 1))
            } else {
                Err(ParseError::BadPlacement)
            },
            None => Err(ParseError::BadPieceGlyph),
        }
    }
}

/// The placement scan from byte `i` on, starting in state `(pl, row, col)`:
/// it must end with rank 1 complete.
pub open spec fn place_rec(t: Seq<u8>, i: int, pl: Placement, row: int, col: int) -> Result<
    Placement,
    ParseError,
>
    decreases t.len() - i,
{
    if i >= t.len() {
        if row == 0 && col == 8 {
            Ok(pl)
        } else {
            Err(ParseError::BadPlacement)
        }
    } else {
        match place_step(pl, row, col, t[i]) {
            Ok((pl2, row2, col2)) => place_rec(t, i + 1, pl2, row2, col2),
            Err(e) => Err(e),
        }
    }
}

/// The piece masks encoded by a placement field: eight ranks, rank 8 first.
pub open spec fn spec_placement(t: Seq<u8>) -> Result<Placement, ParseError> {
    place_rec(t, 0, empty_placement(), 7, 0)
}

/// The side encoded by a turn field: `w` is white, `b` is black.
pub open spec fn spec_turn(t: Seq<u8>) -> Result<bool, ParseError> {
    if t.len() == 1 && t[0] == 119 {
        Ok(true)
    } else if t.len() == 1 && t[0] == 98 {
        Ok(false)
    } else {
        Err(ParseError::BadTurn)
    }
}

/// The castling scan from byte `i` on: each letter grants its right, `-`
/// grants nothing.
pub open spec fn castle_rec(t: Seq<u8>, i: int, wk: bool, wq: bool, bk: bool, bq: bool) -> Result<
    (bool, bool, bool, bool),
    ParseError,
>
    decreases t.len() - i,
{
    if i >= t.len() {
        Ok((wk, wq, bk, bq))
    } else if t[i] == 75 {
        castle_rec(t, i + 1, true, wq, bk, bq)
    } else if t[i] == 81 {
        castle_rec(t, i + 1, wk, true, bk, bq)
    } else if t[i] == 107 {
        castle_rec(t, i + 1, wk, wq, true, bq)
    } else if t[i] == 113 {
        castle_rec(t, i + 1, wk, wq, bk, true)
    } else if t[i] == 45 {
        castle_rec(t, i + 1, wk, wq, bk, bq)
    } else {
        Err(ParseError::BadCastling)
    }
}

/// The rights encoded by a castling field.
pub open spec fn spec_castling(t: Seq<u8>) -> Result<(bool, bool, bool, bool), ParseError> {
    castle_rec(t, 0, false, false, false, false)
}

/// The target square encoded by an en-passant field: `-` for none, else a
/// file letter `a`..`h` and rank digit `3` or `6`.
pub open spec fn spec_ep(t: Seq<u8>) -> Result<Option<u8>, ParseError> {
    if t.len() == 1 && t[0] == 45 {
        Ok(None)
    } else if t.len() == 2 && 97 <= t[0] <= 104 && (t[1] == 51 || t[1] == 54) {
        Ok(Some((((t[1] - 49) * 8 + (t[0] - 97))) as u8))
    } else {
        Err(ParseError::BadEnPassant)
    }
}

/// The decimal scan from byte `i` on with value `acc` so far; the value may
/// not pass 255.
pub open spec fn dec_rec(t: Seq<u8>, i: int, acc: int) -> Result<int, ParseError>
    decreases t.len() - i,
{
    if i >= t.len() {
        Ok(acc)
    } else if 48 <= t[i] <= 57 {
        let v = acc * 10 + (t[i] - 48);
        if v > 255 {
            Err(ParseError::BadCounter)
        } else {
            dec_rec(t, i + 1, v)
        }
    } else {
        Err(ParseError::BadCounter)
    }
}

/// The counter encoded by a clock field: decimal digits, value at most 255.
pub open spec fn spec_counter(t: Seq<u8>) -> Result<u8, ParseError> {
    if t.len() == 0 {
        Err(ParseError::BadCounter)
    } else {
        match dec_rec(t, 0, 0) {
            Ok(v) => Ok(v as u8),
            Err(e) => Err(e),
        }
    }
}

/// The position encoded by the FEN bytes `s`: the six fields parsed in order,
/// with the aggregate masks computed from the placement. Fields after the
/// sixth are ignored.
pub open spec fn spec_parse_fen(s: Seq<u8>) -> Result<crate::board::Board, ParseError> {
    let toks = spec_tokens(s);
    if toks.len() < 1 {
        Err(ParseError::MissingField)
    } else {
        match spec_placement(toks[0]) {
            Err(e) => Err(e),
            Ok(pl) => if toks.len() < 2 {
                Err(ParseError::MissingField)
            } else {
                match spec_turn(toks[1]) {
                    Err(e) => Err(e),
                    Ok(white_turn) => if toks.len() < 3 {
                        Err(ParseError::MissingField)
                    } else {
                        match spec_castling(toks[2]) {
                            Err(e) => Err(e),
                            Ok(rights) => if toks.len() < 4 {
                                Err(ParseError::MissingField)
                            } else {
                                match spec_ep(toks[3]) {
                                    Err(e) => Err(e),
                                    Ok(ep) => if toks.len() < 5 {
                                        Err(ParseError::MissingField)
                                    } else {
                                        match spec_counter(toks[4]) {
                                            Err(e) => Err(e),
                                            Ok(halfmove) => if toks.len() < 6 {
                                                Err(ParseError::MissingField)
                                            } else {
                                                match spec_counter(toks[5]) {
                                                    Err(e) => Err(e),
                                                    Ok(fullmove) => Ok(
                                                        assemble_board(
                                                            pl,
                                                            white_turn,
                                                            rights,
                                                            ep,
                                                            halfmove,
                                                            fullmove,
                                                        ),
                                                    ),
                                                }
                                            },
                                        }
                                    },
                                }
                            },
                        }
                    },
                }
            },
        }
    }
}

/// A board assembled from parsed fields, with the aggregate masks computed
/// from the placement.
pub open spec fn assemble_board(
    pl: Placement,
    white_turn: bool,
    rights: (bool, bool, bool, bool),
    ep: Option<u8>,
    halfmove: u8,
    fullmove: u8,
) -> crate::board::Board {
    let white_pieces = pl.white_pawns | pl.white_knights | pl.white_bishops | pl.white_rooks
        | pl.white_queens;
    let black_pieces = pl.black_pawns | pl.black_knights | pl.black_bishops | pl.black_rooks
        | pl.black_queens;
    crate::board::Board {
        white_pawns: pl.white_pawns,
        white_knights: pl.white_knights,
        white_bishops: pl.white_bishops,
        white_rooks: pl.white_rooks,
        white_queens: pl.white_queens,
        white_king: pl.white_king,
        black_pawns: pl.black_pawns,
        black_knights: pl.black_knights,
        black_bishops: pl.black_bishops,
        black_rooks: pl.black_rooks,
        black_queens: pl.black_queens,
        black_king: pl.black_king,
        white_pieces,
        black_pieces,
        empty_squares: !(white_pieces | black_pieces | pl.white_king | pl.black_king),
        en_passant: ep,
        white_turn,
        white_castle_kingside: rights.0,
        white_castle_queenside: rights.1,
        black_castle_kingside: rights.2,
        black_castle_queenside: rights.3,
        halfmove,
        fullmove,
    }
}

/// The whitespace-separated tokens of `bytes`.
fn tokenize(bytes: &[u8]) -> (r: Vec<Vec<u8>>)
    ensures
        r.deep_view() == spec_tokens(bytes@),
{
    let mut toks: Vec<Vec<u8>> = Vec::new();
    let mut cur: Vec<u8> = Vec::new();
    let mut i: usize = 0;
    while i < bytes.len()
        invariant
            i <= bytes@.len(),
            (toks.deep_view(), cur@) == tok_fold(bytes@, i as int),
        decreases bytes@.len() - i,
    {
        let b = bytes[i];
        if b == 32 || b == 9 || b == 10 || b == 11 || b == 12 || b == 13 {
            if cur.len() > 0 {
                toks.push(cur);
                cur = Vec::new();
            }
        } else {
            cur.push(b);
        }
        i = i + 1;
        proof {
            assert(toks.deep_view() =~~= tok_fold(bytes@, i as int).0);
            assert(cur@ =~= tok_fold(bytes@, i as int).1);
        }
    }
    if cur.len() > 0 {
        toks.push(cur);
    }
    proof {
        assert(toks.deep_view() =~~= spec_tokens(bytes@));
    }
    toks
}

/// `pl` with a piece of kind `p` added on square `sq`.
fn place_piece(pl: Placement, p: Piece, sq: u8) -> (r: Placement)
    requires
        sq < 64,
    ensures
        r == spec_place_piece(pl, p, sq),
{
    match p {
        Piece::WhitePawn => Placement { white_pawns: pl.white_pawns | (1u64 << sq), ..pl },
        Piece::WhiteKnight => Placement { white_knights: pl.white_knights | (1u64 << sq), ..pl },
        Piece::WhiteBishop => Placement { white_bishops: pl.white_bishops | (1u64 << sq), ..pl },
        Piece::WhiteRook => Placement { white_rooks: pl.white_rooks | (1u64 << sq), ..pl },
        Piece::WhiteQueen => Placement { white_queens: pl.white_queens | (1u64 << sq), ..pl },
        Piece::WhiteKing => Placement { white_king: pl.white_king | (1u64 << sq), ..pl },
        Piece::BlackPawn => Placement { black_pawns: pl.black_pawns | (1u64 << sq), ..pl },
        Piece::BlackKnight => Placement { black_knights: pl.black_knights | (1u64 << sq), ..pl },
        Piece::BlackBishop => Placement { black_bishops: pl.black_bishops | (1u64 << sq), ..pl },
        Piece::BlackRook => Placement { black_rooks: pl.black_rooks | (1u64 << sq), ..pl },
        Piece::BlackQueen => Placement { black_queens: pl.black_queens | (1u64 << sq), ..pl },
        Piece::BlackKing => Placement { black_king: pl.black_king | (1u64 << sq), ..pl },
    }
}

/// The piece masks encoded by a placement field.
fn parse_placement(t: &Vec<u8>) -> (r: Result<Placement, ParseError>)
    ensures
        r == spec_placement(t@),
{
    let mut pl = Placement {
        white_pawns: 0,
        white_knights: 0,
        white_bishops: 0,
        white_rooks: 0,
        white_queens: 0,
        white_king: 0,
        black_pawns: 0,
        black_knights: 0,
        black_bishops: 0,
        black_rooks: 0,
        black_queens: 0,
        black_king: 0,
    };
    let mut row: u8 = 7;
    let mut col: u8 = 0;
    let mut i: usize = 0;
    while i < t.len()
        invariant
            i <= t@.len(),
            row <= 7,
            col <= 8,
            spec_placement(t@) == place_rec(t@, i as int, pl, row as int, col as int),
        decreases t@.len() - i,
    {
        let g = t[i];
        if 49 <= g && g <= 56 {
            let d = g - 48;
            if col + d > 8 {
                return Err(ParseError::BadPlacement);
            }
            col = col + d;
        } else if g == 47 {
            if col == 8 && row > 0 {
                row = row - 1;
                col = 0;
            } else {
                return Err(ParseError::BadPlacement);
            }
        } else {
            match Piece::of_glyph(g) {
                Some(p) => {
                    if col >= 8 {
                        return Err(ParseError::BadPlacement);
                    }
                    pl = place_piece(pl, p, row * 8 + col);
                    col = col + 1;
                },
                None => {
                    return Err(ParseError::BadPieceGlyph);
                },
            }
        }
        i = i + 1;
    }
    if row == 0 && col == 8 {
        Ok(pl)
    } else {
        Err(ParseError::BadPlacement)
    }
}

/// The side encoded by a turn field.
fn parse_turn(t: &Vec<u8>) -> (r: Result<bool, ParseError>)
    ensures
        r == spec_turn(t@),
{
    if t.len() == 1 {
        let b = t[0];
        if b == 119 {
            Ok(true)
        } else if b == 98 {
            Ok(false)
        } else {
            Err(ParseError::BadTurn)
        }
    } else {
        Err(ParseError::BadTurn)
    }
}

/// The rights encoded by a castling field.
fn parse_castling(t: &Vec<u8>) -> (r: Result<(bool, bool, bool, bool), ParseError>)
    ensures
        r == spec_castling(t@),
{
    let mut wk = false;
    let mut wq = false;
    let mut bk = false;
    let mut bq = false;
    let mut i: usize = 0;
    while i < t.len()
        invariant
            i <= t@.len(),
            spec_castling(t@) == castle_rec(t@, i as int, wk, wq, bk, bq),
        decreases t@.len() - i,
    {
        let g = t[i];
        if g == 75 {
            wk = true;
        } else if g == 81 {
            wq = true;
        } else if g == 107 {
            bk = true;
        } else if g == 113 {
            bq = true;
        } else if g == 45 {
        } else {
            return Err(ParseError::BadCastling);
        }
        i = i + 1;
    }
    Ok((wk, wq, bk, bq))
}

/// The target square encoded by an en-passant field.
fn parse_ep(t: &Vec<u8>) -> (r: Result<Option<u8>, ParseError>)
    ensures
        r == spec_ep(t@),
{
    if t.len() == 1 && t[0] == 45 {
        Ok(None)
    } else if t.len() == 2 {
        let file = t[0];
        let rank = t[1];
        if 97 <= file && file <= 104 && (rank == 51 || rank == 54) {
            Ok(Some((rank - 49) * 8 + (file - 97)))
        } else {
            Err(ParseError::BadEnPassant)
        }
    } else {
        Err(ParseError::BadEnPassant)
    }
}

/// The counter encoded by a clock field.
fn parse_counter(t: &Vec<u8>) -> (r: Result<u8, ParseError>)
    ensures
        r == spec_counter(t@),
{
    if t.len() == 0 {
        return Err(ParseError::BadCounter);
    }
    let mut acc: u16 = 0;
    let mut i: usize = 0;
    while i < t.len()
        invariant
            i <= t@.len(),
            acc <= 255,
            t@.len() > 0,
            spec_counter(t@) == match dec_rec(t@, i as int, acc as int) {
                Ok(v) => Ok::<u8, ParseError>(v as u8),
                Err(e) => Err(e),
            },
        decreases t@.len() - i,
    {
        let g = t[i];
        if 48 <= g && g <= 57 {
            let v = acc * 10 + (g - 48) as u16;
            if v > 255 {
                return Err(ParseError::BadCounter);
            }
            acc = v;
        } else {
            return Err(ParseError::BadCounter);
        }
        i = i + 1;
    }
    Ok(acc as u8)
}

/// The position encoded by the FEN bytes, as `spec_parse_fen` states it.
pub fn parse_fen_bytes(bytes: &[u8]) -> (r: Result<crate::board::Board, ParseError>)
    ensures
        r == spec_parse_fen(bytes@),
        r matches Ok(b) ==> b.wf(),
{
    let toks = tokenize(bytes);
    proof {
        assert(toks.deep_view().len() == toks@.len());
        assert forall|k: int| 0 <= k < toks@.len() implies #[trigger] toks.deep_view()[k]
            == toks@[k]@ by {
            assert(toks.deep_view()[k] =~= toks@[k]@);
        }
    }
    if toks.len() < 1 {
        return Err(ParseError::MissingField);
    }
    let pl = match parse_placement(&toks[0]) {
        Ok(pl) => pl,
        Err(e) => {
            return Err(e);
        },
    };
    if toks.len() < 2 {
        return Err(ParseError::MissingField);
    }
    let white_turn = match parse_turn(&toks[1]) {
        Ok(t) => t,
        Err(e) => {
            return Err(e);
        },
    };
    if toks.len() < 3 {
        return Err(ParseError::MissingField);
    }
    let rights = match parse_castling(&toks[2]) {
        Ok(r) => r,
        Err(e) => {
            return Err(e);
        },
    };
    if toks.len() < 4 {
        return Err(ParseError::MissingField);
    }
    let ep = match parse_ep(&toks[3]) {
        Ok(e) => e,
        Err(e) => {
            return Err(e);
        },
    };
    if toks.len() < 5 {
        return Err(ParseError::MissingField);
    }
    let halfmove = match parse_counter(&toks[4]) {
        Ok(h) => h,
        Err(e) => {
            return Err(e);
        },
    };
    if toks.len() < 6 {
        return Err(ParseError::MissingField);
    }
    let fullmove = match parse_counter(&toks[5]) {
        Ok(f) => f,
        Err(e) => {
            return Err(e);
        },
    };

    proof {
        crate::bits::lemma_single_bit();
        assert forall|p1: Piece, p2: Piece| p1 != p2 implies #[trigger] (pl_mask(
            empty_placement(),
            p1,
        ) & pl_mask(empty_placement(), p2)) == 0u64 by {
            assert(pl_mask(empty_placement(), p1) == 0u64);
        }
        assert forall|p: Piece, sq: u8|
            sq < 64 && #[trigger] crate::bits::bit_set(
                pl_mask(empty_placement(), p),
                sq,
            ) implies scanned(7, 0, sq) by {
            assert(pl_mask(empty_placement(), p) == 0u64);
            assert(!crate::bits::bit_set(0u64, sq));
        }
        assert(placement_inv(empty_placement(), 7, 0));
        lemma_place_rec_disjoint(toks@[0]@, 0, empty_placement(), 7, 0);
    }
    let white_pieces = pl.white_pawns | pl.white_knights | pl.white_bishops | pl.white_rooks
        | pl.white_queens;
    let black_pieces = pl.black_pawns | pl.black_knights | pl.black_bishops | pl.black_rooks
        | pl.black_queens;
    proof {
        let board = assemble_board(
            pl,
            white_turn,
            rights,
            ep,
            halfmove,
            fullmove,
        );
        assert forall|p1: Piece, p2: Piece| p1 != p2 implies #[trigger] (board.piece_mask(p1)
            & board.piece_mask(p2)) == 0u64 by {
            assert(board.piece_mask(p1) == pl_mask(pl, p1));
            assert(board.piece_mask(p2) == pl_mask(pl, p2));
            assert(pl_mask(pl, p1) & pl_mask(pl, p2) == 0u64);
        }
        assert(board.masks_disjoint());
    }
    Ok(
        crate::board::Board {
            white_pawns: pl.white_pawns,
            white_knights: pl.white_knights,
            white_bishops: pl.white_bishops,
            white_rooks: pl.white_rooks,
            white_queens: pl.white_queens,
            white_king: pl.white_king,
            black_pawns: pl.black_pawns,
            black_knights: pl.black_knights,
            black_bishops: pl.black_bishops,
            black_rooks: pl.black_rooks,
            black_queens: pl.black_queens,
            black_king: pl.black_king,
            white_pieces,
            black_pieces,
            empty_squares: !(white_pieces | black_pieces | pl.white_king | pl.black_king),
            en_passant: ep,
            white_turn,
            white_castle_kingside: rights.0,
            white_castle_queenside: rights.1,
            black_castle_kingside: rights.2,
            black_castle_queenside: rights.3,
            halfmove,
            fullmove,
        },
    )
}

/// The position encoded by a FEN string, or the reason it was rejected.
pub fn parse_fen(input: &str) -> (r: Result<crate::board::Board, ParseError>)
    ensures
        r == spec_parse_fen(input.spec_bytes()),
        r matches Ok(b) ==> b.wf(),
{
    parse_fen_bytes(input.as_bytes())
}

/// The ASCII bytes `s` read as characters.
pub open spec fn ascii_view(s: Seq<u8>) -> Seq<char> {
    Seq::new(s.len(), |i: int| s[i] as char)
}

/// The placement bytes of one rank from file `col` on, with `run` empty
/// squares pending: runs flush as a digit before a piece letter and at the end
/// of the rank.
pub open spec fn rank_bytes_rec(b: crate::board::Board, row: int, col: int, run: int) -> Seq<u8>
    decreases 8 - col,
{
    if col < 0 || col >= 8 {
        if run > 0 {
            seq![(48 + run) as u8]
        } else {
            Seq::empty()
        }
    } else {
        match b.spec_square((row * 8 + col) as u8) {
            None => rank_bytes_rec(b, row, col + 1, run + 1),
            Some(g) => (if run > 0 {
                seq![(48 + run) as u8]
            } else {
                Seq::empty()
            }) + seq![g] + rank_bytes_rec(b, row, col + 1, 0),
        }
    }
}

/// The placement bytes of rank `row` and every rank below it, rank `row`
/// first, with `/` between ranks.
pub open spec fn placement_rows_rec(b: crate::board::Board, row: int) -> Seq<u8>
    decreases row,
{
    if row < 0 {
        Seq::empty()
    } else if row > 0 {
        rank_bytes_rec(b, row, 0, 0) + seq![47u8] + placement_rows_rec(b, row - 1)
    } else {
        rank_bytes_rec(b, row, 0, 0)
    }
}

/// The castling field of `b`: the rights held, in `KQkq` order, or `-`.
pub open spec fn castling_bytes(b: crate::board::Board) -> Seq<u8> {
    if !b.white_castle_kingside && !b.white_castle_queenside && !b.black_castle_kingside
        && !b.black_castle_queenside {
        seq![45u8]
    } else {
        (if b.white_castle_kingside {
            seq![75u8]
        } else {
            Seq::empty()
        }) + (if b.white_castle_queenside {
            seq![81u8]
        } else {
            Seq::empty()
        }) + (if b.black_castle_kingside {
            seq![107u8]
        } else {
            Seq::empty()
        }) + (if b.black_castle_queenside {
            seq![113u8]
        } else {
            Seq::empty()
        })
    }
}

/// The en-passant field of `b`: the file letter and rank digit of the target
/// square, or `-`.
pub open spec fn ep_bytes(b: crate::board::Board) -> Seq<u8> {
    match b.en_passant {
        None => seq![45u8],
        Some(e) => seq![(97 + (e % 8)) as u8, (49 + (e / 8)) as u8],
    }
}

/// A counter written in decimal, without leading zeros.
pub open spec fn dec_bytes(x: u8) -> Seq<u8> {
    if x < 10 {
        seq![(48 + x) as u8]
    } else if x < 100 {
        seq![(48 + x / 10) as u8, (48 + x % 10) as u8]
    } else {
        seq![(48 + x / 100) as u8, (48 + (x / 10) % 10) as u8, (48 + x % 10) as u8]
    }
}

/// The FEN record of `b`: placement from rank 8 down, side to move, castling
/// rights, en-passant target, halfmove clock and fullmove number, separated by
/// single spaces.
pub open spec fn spec_fen_bytes(b: crate::board::Board) -> Seq<u8> {
    placement_rows_rec(b, 7) + seq![32u8] + (if b.white_turn {
        seq![119u8]
    } else {
        seq![98u8]
    }) + seq![32u8] + castling_bytes(b) + seq![32u8] + ep_bytes(b) + seq![32u8] + dec_bytes(
        b.halfmove,
    ) + seq![32u8] + dec_bytes(b.fullmove)
}

/// Every byte a FEN record holds is ASCII.
pub open spec fn all_ascii(s: Seq<u8>) -> bool {
    forall|k: int| 0 <= k < s.len() ==> s[k] < 128
}

/// Relies on `String::from_utf8`: bytes below 128 are valid UTF-8 and decode
/// to the characters with the same code points.
#[verifier::external_body]
fn ascii_string(bytes: Vec<u8>) -> (r: String)
    requires
        all_ascii(bytes@),
    ensures
        r@ == ascii_view(bytes@),
{
    String::from_utf8(bytes).unwrap()
}

/// Appends a counter in decimal.
fn push_dec(out: &mut Vec<u8>, x: u8)
    ensures
        final(out)@ == old(out)@ + dec_bytes(x),
        all_ascii(old(out)@) ==> all_ascii(final(out)@),
{
    if x >= 100 {
        out.push(48 + x / 100);
        out.push(48 + (x / 10) % 10);
        out.push(48 + x % 10);
    } else if x >= 10 {
        out.push(48 + x / 10);
        out.push(48 + x % 10);
    } else {
        out.push(48 + x);
    }
    proof {
        assert(final(out)@ =~= old(out)@ + dec_bytes(x));
    }
}

/// Appends the placement bytes of rank `row`.
fn emit_rank(out: &mut Vec<u8>, b: &crate::board::Board, row: u8)
    requires
        row < 8,
    ensures
        final(out)@ == old(out)@ + rank_bytes_rec(*b, row as int, 0, 0),
        all_ascii(old(out)@) ==> all_ascii(final(out)@),
{
    let ghost rank_start = out@;
    let mut col: u8 = 0;
    let mut run: u8 = 0;
    while col < 8
        invariant
            col <= 8,
            run <= col,
            row < 8,
            rank_start + rank_bytes_rec(*b, row as int, 0, 0) == out@ + rank_bytes_rec(
                *b,
                row as int,
                col as int,
                run as int,
            ),
            all_ascii(rank_start) ==> all_ascii(out@),
        decreases 8 - col,
    {
        match b.square(row * 8 + col) {
            None => {
                run = run + 1;
            },
            Some(g) => {
                if run > 0 {
                    out.push(48 + run);
                    run = 0;
                }
                out.push(g);
            },
        }
        col = col + 1;
        proof {
            assert(rank_start + rank_bytes_rec(*b, row as int, 0, 0) =~= out@ + rank_bytes_rec(
                *b,
                row as int,
                col as int,
                run as int,
            ));
        }
    }
    if run > 0 {
        out.push(48 + run);
    }
    proof {
        assert(final(out)@ =~= old(out)@ + rank_bytes_rec(*b, row as int, 0, 0));
    }
}

/// Appends the placement field: rank 8 down to rank 1 with `/` between.
fn emit_placement(out: &mut Vec<u8>, b: &crate::board::Board)
    ensures
        final(out)@ == old(out)@ + placement_rows_rec(*b, 7),
        all_ascii(old(out)@) ==> all_ascii(final(out)@),
{
    let mut rr: u8 = 0;
    while rr < 8
        invariant
            rr <= 8,
            out@ + placement_rows_rec(*b, 7 - rr as int) == old(out)@ + placement_rows_rec(*b, 7),
            all_ascii(old(out)@) ==> all_ascii(out@),
        decreases 8 - rr,
    {
        let row = 7 - rr;
        emit_rank(out, b, row);
        if row > 0 {
            out.push(47);
        }
        rr = rr + 1;
        proof {
            assert(out@ + placement_rows_rec(*b, 7 - rr as int) =~= old(out)@
                + placement_rows_rec(*b, 7));
        }
    }
}

/// Appends the castling field: the rights held, in `KQkq` order, or `-`.
fn emit_castling(out: &mut Vec<u8>, b: &crate::board::Board)
    ensures
        final(out)@ == old(out)@ + castling_bytes(*b),
        all_ascii(old(out)@) ==> all_ascii(final(out)@),
{
    if !b.white_castle_kingside && !b.white_castle_queenside && !b.black_castle_kingside
        && !b.black_castle_queenside {
        out.push(45);
    } else {
        if b.white_castle_kingside {
            out.push(75);
        }
        if b.white_castle_queenside {
            out.push(81);
        }
        if b.black_castle_kingside {
            out.push(107);
        }
        if b.black_castle_queenside {
            out.push(113);
        }
    }
    proof {
        assert(final(out)@ =~= old(out)@ + castling_bytes(*b));
    }
}

/// Appends the en-passant field: the target square's file letter and rank
/// digit, or `-`.
fn emit_ep(out: &mut Vec<u8>, b: &crate::board::Board)
    ensures
        final(out)@ == old(out)@ + ep_bytes(*b),
        all_ascii(old(out)@) ==> all_ascii(final(out)@),
{
    match b.en_passant {
        None => {
            out.push(45);
        },
        Some(e) => {
            out.push(97 + e % 8);
            out.push(49 + e / 8);
        },
    }
    proof {
        assert(final(out)@ =~= old(out)@ + ep_bytes(*b));
    }
}

/// The FEN record of `b`, as `spec_fen_bytes` states it.
fn emit_fen_bytes(b: &crate::board::Board) -> (r: Vec<u8>)
    ensures
        r@ == spec_fen_bytes(*b),
        all_ascii(r@),
{
    let mut out: Vec<u8> = Vec::new();

    emit_placement(&mut out, b);
    out.push(32);
    if b.white_turn {
        out.push(119);
    } else {
        out.push(98);
    }
    out.push(32);
    emit_castling(&mut out, b);
    out.push(32);
    emit_ep(&mut out, b);
    out.push(32);
    push_dec(&mut out, b.halfmove);
    out.push(32);
    push_dec(&mut out, b.fullmove);

    proof {
        assert(out@ =~= spec_fen_bytes(*b));
    }
    out
}

/// The FEN record of `b` as a string.
pub fn emit_fen(b: &crate::board::Board) -> (r: String)
    ensures
        r@ == ascii_view(spec_fen_bytes(*b)),
{
    let out = emit_fen_bytes(b);
    ascii_string(out)
}


/// The mask of one piece kind in a placement.
pub open spec fn pl_mask(pl: Placement, p: Piece) -> u64 {
    match p {
        Piece::WhitePawn => pl.white_pawns,
        Piece::WhiteKnight => pl.white_knights,
        Piece::WhiteBishop => pl.white_bishops,
        Piece::WhiteRook => pl.white_rooks,
        Piece::WhiteQueen => pl.white_queens,
        Piece::WhiteKing => pl.white_king,
        Piece::BlackPawn => pl.black_pawns,
        Piece::BlackKnight => pl.black_knights,
        Piece::BlackBishop => pl.black_bishops,
        Piece::BlackRook => pl.black_rooks,
        Piece::BlackQueen => pl.black_queens,
        Piece::BlackKing => pl.black_king,
    }
}

/// No square is claimed by two different masks of the placement.
pub open spec fn pl_disjoint(pl: Placement) -> bool {
    forall|p1: Piece, p2: Piece|
        p1 != p2 ==> #[trigger] (pl_mask(pl, p1) & pl_mask(pl, p2)) == 0u64
}

/// True when the placement scan in state `(row, col)` has already passed
/// square `sq`: the scan walks rank 8 down to rank 1 and files left to right.
pub open spec fn scanned(row: int, col: int, sq: u8) -> bool {
    sq as int / 8 > row || (sq as int / 8 == row && sq as int % 8 < col)
}

/// The placement scan's invariant: masks pairwise disjoint, every placed
/// piece on an already-scanned square.
pub open spec fn placement_inv(pl: Placement, row: int, col: int) -> bool {
    &&& pl_disjoint(pl)
    &&& forall|p: Piece, sq: u8|
        sq < 64 && #[trigger] crate::bits::bit_set(pl_mask(pl, p), sq) ==> scanned(row, col, sq)
}

/// The placement scan keeps its masks pairwise disjoint: each step places a
/// piece on a square the scan has not passed before, so no mask claims it
/// yet.
pub proof fn lemma_place_rec_disjoint(t: Seq<u8>, i: int, pl: Placement, row: int, col: int)
    requires
        placement_inv(pl, row, col),
        0 <= row <= 7,
        0 <= col <= 8,
    ensures
        place_rec(t, i, pl, row, col) matches Ok(p) ==> pl_disjoint(p),
    decreases t.len() - i,
{
    if i >= t.len() {
        // base case: the accumulated placement itself
    } else {
        match place_step(pl, row, col, t[i]) {
            Ok((pl2, row2, col2)) => {
                let g = t[i];
                if 49 <= g <= 56 || g == 47 {
                    // the masks do not change; the scan front only advances
                    assert(placement_inv(pl2, row2, col2));
                } else {
                    let p = Piece::spec_of_glyph(g)->Some_0;
                    let sq = (row * 8 + col) as u8;
                    crate::bits::lemma_bit_ops();
                    crate::bits::lemma_single_bit();
                    assert(!scanned(row, col, sq));
                    // the new bit is on an unscanned square, so no mask holds it
                    assert(forall|q: Piece| !crate::bits::bit_set(#[trigger] pl_mask(pl, q), sq));
                    assert(forall|q: Piece| pl_mask(pl, q) & (1u64 << (sq as u64)) == 0u64);
                    assert(forall|q: Piece|
                        q != p ==> #[trigger] pl_mask(pl2, q) == pl_mask(pl, q));
                    assert(pl_mask(pl2, p) == pl_mask(pl, p) | (1u64 << (sq as u64)));
                    assert forall|p1: Piece, p2: Piece| p1 != p2 implies #[trigger] (pl_mask(
                        pl2,
                        p1,
                    ) & pl_mask(pl2, p2)) == 0u64 by {
                        lemma_or_bit_disjoint(
                            pl_mask(pl, p1),
                            pl_mask(pl, p2),
                            1u64 << (sq as u64),
                        );
                    }
                    assert forall|q: Piece, s2: u8|
                        s2 < 64 && #[trigger] crate::bits::bit_set(
                            pl_mask(pl2, q),
                            s2,
                        ) implies scanned(row2, col2, s2) by {
                        if q == p && s2 == sq {
                        } else {
                            assert(crate::bits::bit_set(pl_mask(pl, q), s2));
                        }
                    }
                    assert(placement_inv(pl2, row2, col2));
                }
                lemma_place_rec_disjoint(t, i + 1, pl2, row2, col2);
            },
            Err(_) => {},
        }
    }
}

/// Disjoint masks stay disjoint when one of them gains a bit no mask holds.
proof fn lemma_or_bit_disjoint(a: u64, b: u64, t: u64)
    by (bit_vector)
    requires
        a & b == 0,
        a & t == 0,
        b & t == 0,
    ensures
        (a | t) & b == 0,
        a & (b | t) == 0,
{
}

/// A turn field written for a side reads back as that side.
pub proof fn lemma_turn_round_trip(white_turn: bool)
    ensures
        spec_turn(
            if white_turn {
                seq![119u8]
            } else {
                seq![98u8]
            },
        ) == Ok::<bool, ParseError>(white_turn),
{
}

/// A clock field written for a counter reads back as that counter.
pub proof fn lemma_counter_round_trip(x: u8)
    ensures
        spec_counter(dec_bytes(x)) == Ok::<u8, ParseError>(x),
{
    let t = dec_bytes(x);
    if x < 10 {
        assert(dec_rec(t, 1, x as int) == Ok::<int, ParseError>(x as int));
    } else if x < 100 {
        assert((x as int / 10) * 10 + x as int % 10 == x as int);
        assert(dec_rec(t, 1, x as int / 10) == dec_rec(t, 2, x as int));
        assert(dec_rec(t, 2, x as int) == Ok::<int, ParseError>(x as int));
    } else {
        assert((x as int / 100) * 10 + (x as int / 10) % 10 == x as int / 10);
        assert((x as int / 10) * 10 + x as int % 10 == x as int);
        assert(dec_rec(t, 1, x as int / 100) == dec_rec(t, 2, x as int / 10));
        assert(dec_rec(t, 2, x as int / 10) == dec_rec(t, 3, x as int));
        assert(dec_rec(t, 3, x as int) == Ok::<int, ParseError>(x as int));
    }
}

/// An en-passant field written for a target on rank 3 or rank 6, or for no
/// target, reads back the same.
pub proof fn lemma_ep_round_trip(b: crate::board::Board)
    requires
        match b.en_passant {
            None => true,
            Some(e) => e < 64 && (e / 8 == 2 || e / 8 == 5),
        },
    ensures
        spec_ep(ep_bytes(b)) == Ok::<Option<u8>, ParseError>(b.en_passant),
{
    match b.en_passant {
        None => {},
        Some(e) => {
            assert((e as int / 8) * 8 + e as int % 8 == e as int);
        },
    }
}

/// A castling field written for a set of rights reads back those rights.
pub proof fn lemma_castling_round_trip(b: crate::board::Board)
    ensures
        spec_castling(castling_bytes(b)) == Ok::<(bool, bool, bool, bool), ParseError>(
            (
                b.white_castle_kingside,
                b.white_castle_queenside,
                b.black_castle_kingside,
                b.black_castle_queenside,
            ),
        ),
{
    let wk = b.white_castle_kingside;
    let wq = b.white_castle_queenside;
    let bk = b.black_castle_kingside;
    let bq = b.black_castle_queenside;
    let t = castling_bytes(b);
    if !wk && !wq && !bk && !bq {
        assert(t =~= seq![45u8]);
        assert(t[0] == 45);
        assert(castle_rec(t, 1, false, false, false, false) == Ok::<
            (bool, bool, bool, bool),
            ParseError,
        >((false, false, false, false)));
    } else {
        let s1: Seq<u8> = if wk {
            seq![75u8]
        } else {
            Seq::empty()
        };
        let s2: Seq<u8> = if wq {
            seq![81u8]
        } else {
            Seq::empty()
        };
        let s3: Seq<u8> = if bk {
            seq![107u8]
        } else {
            Seq::empty()
        };
        let s4: Seq<u8> = if bq {
            seq![113u8]
        } else {
            Seq::empty()
        };
        assert(t == s1 + s2 + s3 + s4);
        assert(t.skip(0) =~= s1 + s2 + s3 + s4);
        lemma_castle_letters(t, 0, false, false, false, false, wk, wq, bk, bq);
    }
}

/// Dropping the head of a suffix that starts with one known byte.
proof fn lemma_skip_one(t: Seq<u8>, i: int, h: u8, rest: Seq<u8>)
    requires
        0 <= i < t.len(),
        t.skip(i) == seq![h] + rest,
    ensures
        t.skip(i + 1) =~= rest,
        t[i] == h,
{
    assert(t.skip(i).len() == t.len() - i);
    assert(t[i] == t.skip(i)[0]);
    assert forall|k: int| 0 <= k < t.skip(i + 1).len() implies t.skip(i + 1)[k] == rest[k] by {
        assert(t.skip(i)[k + 1] == (seq![h] + rest)[k + 1]);
        assert(t.skip(i)[k + 1] == t[i + 1 + k]);
        assert(t.skip(i + 1)[k] == t[i + 1 + k]);
    }
}

/// Scanning the letters of the held rights, in `KQkq` order, grants exactly
/// those rights on top of what is granted already.
proof fn lemma_castle_letters(
    t: Seq<u8>,
    i: int,
    wk0: bool,
    wq0: bool,
    bk0: bool,
    bq0: bool,
    wk: bool,
    wq: bool,
    bk: bool,
    bq: bool,
)
    requires
        0 <= i <= t.len(),
        t.skip(i) =~= (if wk {
            seq![75u8]
        } else {
            Seq::<u8>::empty()
        }) + (if wq {
            seq![81u8]
        } else {
            Seq::<u8>::empty()
        }) + (if bk {
            seq![107u8]
        } else {
            Seq::<u8>::empty()
        }) + (if bq {
            seq![113u8]
        } else {
            Seq::<u8>::empty()
        }),
    ensures
        castle_rec(t, i, wk0, wq0, bk0, bq0) == Ok::<(bool, bool, bool, bool), ParseError>(
            (wk0 || wk, wq0 || wq, bk0 || bk, bq0 || bq),
        ),
    decreases t.len() - i,
{
    let s2: Seq<u8> = if wq {
        seq![81u8]
    } else {
        Seq::empty()
    };
    let s3: Seq<u8> = if bk {
        seq![107u8]
    } else {
        Seq::empty()
    };
    let s4: Seq<u8> = if bq {
        seq![113u8]
    } else {
        Seq::empty()
    };
    if wk {
        assert(t.skip(i) =~= seq![75u8] + (s2 + s3 + s4));
        assert(t.skip(i).len() == t.len() - i);
        lemma_skip_one(t, i, 75, s2 + s3 + s4);
        assert(t.skip(i + 1) =~= Seq::<u8>::empty() + s2 + s3 + s4);
        lemma_castle_letters(t, i + 1, true, wq0, bk0, bq0, false, wq, bk, bq);
    } else if wq {
        assert(t.skip(i) =~= seq![81u8] + (s3 + s4));
        assert(t.skip(i).len() == t.len() - i);
        lemma_skip_one(t, i, 81, s3 + s4);
        assert(t.skip(i + 1) =~= Seq::<u8>::empty() + Seq::<u8>::empty() + s3 + s4);
        lemma_castle_letters(t, i + 1, wk0, true, bk0, bq0, false, false, bk, bq);
    } else if bk {
        assert(t.skip(i) =~= seq![107u8] + s4);
        assert(t.skip(i).len() == t.len() - i);
        lemma_skip_one(t, i, 107, s4);
        assert(t.skip(i + 1) =~= Seq::<u8>::empty() + Seq::<u8>::empty() + Seq::<u8>::empty()
            + s4);
        lemma_castle_letters(t, i + 1, wk0, wq0, true, bq0, false, false, false, bq);
    } else if bq {
        assert(t.skip(i) =~= seq![113u8] + Seq::<u8>::empty());
        assert(t.skip(i).len() == t.len() - i);
        lemma_skip_one(t, i, 113, Seq::empty());
        assert(t.skip(i + 1) =~= Seq::<u8>::empty() + Seq::<u8>::empty() + Seq::<u8>::empty()
            + Seq::<u8>::empty());
        lemma_castle_letters(t, i + 1, wk0, wq0, bk0, true, false, false, false, false);
    } else {
        assert(t.skip(i).len() == t.len() - i);
        assert(i == t.len());
    }
}

/// No byte of `s` is whitespace.
pub open spec fn no_ws(s: Seq<u8>) -> bool {
    forall|k: int| 0 <= k < s.len() ==> !is_ws(#[trigger] s[k])
}

/// The bytes of one emitted rank are digits, piece letters or `/`: none is
/// whitespace.
proof fn lemma_rank_bytes_no_ws(b: crate::board::Board, row: int, col: int, run: int)
    requires
        0 <= run <= col <= 8,
    ensures
        no_ws(rank_bytes_rec(b, row, col, run)),
        col <= 8 ==> rank_bytes_rec(b, row, col, run).len() >= (if run > 0 || col < 8 {
            1int
        } else {
            0int
        }),
    decreases 8 - col,
{
    if col < 0 || col >= 8 {
    } else {
        match b.spec_square((row * 8 + col) as u8) {
            None => {
                lemma_rank_bytes_no_ws(b, row, col + 1, run + 1);
            },
            Some(g) => {
                lemma_rank_bytes_no_ws(b, row, col + 1, 0);
                let lead: Seq<u8> = if run > 0 {
                    seq![(48 + run) as u8]
                } else {
                    Seq::empty()
                };
                let rest = rank_bytes_rec(b, row, col + 1, 0);
                assert forall|k: int|
                    0 <= k < (lead + seq![g] + rest).len() implies !is_ws(
                    #[trigger] (lead + seq![g] + rest)[k],
                ) by {
                    if k < lead.len() {
                    } else if k == lead.len() {
                        assert((lead + seq![g] + rest)[k] == g);
                    } else {
                        assert((lead + seq![g] + rest)[k] == rest[k - lead.len() - 1]);
                    }
                }
            },
        }
    }
}

/// The bytes of the emitted placement field are never whitespace, and the
/// field is never empty.
proof fn lemma_placement_rows_no_ws(b: crate::board::Board, row: int)
    ensures
        no_ws(placement_rows_rec(b, row)),
        row >= 0 ==> placement_rows_rec(b, row).len() >= 1,
    decreases row,
{
    if row < 0 {
    } else {
        lemma_rank_bytes_no_ws(b, row, 0, 0);
        if row > 0 {
            lemma_placement_rows_no_ws(b, row - 1);
            let rank = rank_bytes_rec(b, row, 0, 0);
            let rest = placement_rows_rec(b, row - 1);
            assert forall|k: int|
                0 <= k < (rank + seq![47u8] + rest).len() implies !is_ws(
                #[trigger] (rank + seq![47u8] + rest)[k],
            ) by {
                if k < rank.len() {
                } else if k == rank.len() {
                    assert((rank + seq![47u8] + rest)[k] == 47);
                } else {
                    assert((rank + seq![47u8] + rest)[k] == rest[k - rank.len() - 1]);
                }
            }
        }
    }
}

/// The castling, en-passant and clock fields hold only letters, digits and
/// `-`: no whitespace, and never an empty field.
proof fn lemma_small_fields_no_ws(b: crate::board::Board)
    ensures
        no_ws(castling_bytes(b)),
        castling_bytes(b).len() >= 1,
        no_ws(ep_bytes(b)),
        ep_bytes(b).len() >= 1,
        no_ws(dec_bytes(b.halfmove)),
        dec_bytes(b.halfmove).len() >= 1,
        no_ws(dec_bytes(b.fullmove)),
        dec_bytes(b.fullmove).len() >= 1,
{
    assert forall|k: int| 0 <= k < castling_bytes(b).len() implies !is_ws(
        #[trigger] castling_bytes(b)[k],
    ) by {
        let v = castling_bytes(b)[k];
        assert(v == 45 || v == 75 || v == 81 || v == 107 || v == 113);
    }
}

/// Folding the tokenizer across a whitespace-free stretch extends the pending
/// token by exactly those bytes.
proof fn lemma_tok_fold_block(s: Seq<u8>, i: int, j: int)
    requires
        0 <= i <= j <= s.len(),
        forall|k: int| i <= k < j ==> !is_ws(#[trigger] s[k]),
    ensures
        tok_fold(s, j).0 == tok_fold(s, i).0,
        tok_fold(s, j).1 == tok_fold(s, i).1 + s.subrange(i, j),
    decreases j - i,
{
    if j == i {
        assert(tok_fold(s, i).1 + s.subrange(i, i) =~= tok_fold(s, i).1);
    } else {
        lemma_tok_fold_block(s, i, j - 1);
        assert(!is_ws(s[j - 1]));
        assert(tok_fold(s, j).1 == (tok_fold(s, i).1 + s.subrange(i, j - 1)).push(s[j - 1]));
        assert((tok_fold(s, i).1 + s.subrange(i, j - 1)).push(s[j - 1]) =~= tok_fold(s, i).1
            + s.subrange(i, j));
    }
}

/// An emitted FEN record splits back into exactly its six fields.
#[verifier::rlimit(100)]
proof fn lemma_emit_tokens(b: crate::board::Board)
    ensures
        spec_tokens(spec_fen_bytes(b)) == seq![
            placement_rows_rec(b, 7),
            (if b.white_turn {
                seq![119u8]
            } else {
                seq![98u8]
            }),
            castling_bytes(b),
            ep_bytes(b),
            dec_bytes(b.halfmove),
            dec_bytes(b.fullmove),
        ],
{
    let pl = placement_rows_rec(b, 7);
    let tn: Seq<u8> = if b.white_turn {
        seq![119u8]
    } else {
        seq![98u8]
    };
    let ca = castling_bytes(b);
    let ep = ep_bytes(b);
    let hm = dec_bytes(b.halfmove);
    let fm = dec_bytes(b.fullmove);
    let s = spec_fen_bytes(b);
    lemma_placement_rows_no_ws(b, 7);
    lemma_small_fields_no_ws(b);

    let o1 = pl.len() as int;
    let o2 = o1 + 1;
    let o3 = o2 + tn.len();
    let o4 = o3 + 1;
    let o5 = o4 + ca.len();
    let o6 = o5 + 1;
    let o7 = o6 + ep.len();
    let o8 = o7 + 1;
    let o9 = o8 + hm.len();
    let o10 = o9 + 1;
    let o11 = o10 + fm.len();
    assert(s.len() == o11);

    assert forall|k: int| 0 <= k < o1 implies s[k] == pl[k] && !is_ws(#[trigger] s[k]) by {}
    assert(s[o1] == 32);
    assert forall|k: int| o2 <= k < o3 implies s[k] == tn[k - o2] && !is_ws(#[trigger] s[k]) by {}
    assert(s[o3] == 32);
    assert forall|k: int| o4 <= k < o5 implies s[k] == ca[k - o4] && !is_ws(#[trigger] s[k]) by {}
    assert(s[o5] == 32);
    assert forall|k: int| o6 <= k < o7 implies s[k] == ep[k - o6] && !is_ws(#[trigger] s[k]) by {}
    assert(s[o7] == 32);
    assert forall|k: int| o8 <= k < o9 implies s[k] == hm[k - o8] && !is_ws(#[trigger] s[k]) by {}
    assert(s[o9] == 32);
    assert forall|k: int| o10 <= k < o11 implies s[k] == fm[k - o10] && !is_ws(#[trigger] s[k]) by {}

    lemma_tok_fold_block(s, 0, o1);
    assert(tok_fold(s, o1).1 =~= pl);
    assert(tok_fold(s, o2).0 =~= seq![pl]);
    assert(tok_fold(s, o2).1 =~= Seq::<u8>::empty());
    lemma_tok_fold_block(s, o2, o3);
    assert(tok_fold(s, o3).1 =~= tn);
    assert(tok_fold(s, o4).0 =~= seq![pl, tn]);
    assert(tok_fold(s, o4).1 =~= Seq::<u8>::empty());
    lemma_tok_fold_block(s, o4, o5);
    assert(tok_fold(s, o5).1 =~= ca);
    assert(tok_fold(s, o6).0 =~= seq![pl, tn, ca]);
    assert(tok_fold(s, o6).1 =~= Seq::<u8>::empty());
    lemma_tok_fold_block(s, o6, o7);
    assert(tok_fold(s, o7).1 =~= ep);
    assert(tok_fold(s, o8).0 =~= seq![pl, tn, ca, ep]);
    assert(tok_fold(s, o8).1 =~= Seq::<u8>::empty());
    lemma_tok_fold_block(s, o8, o9);
    assert(tok_fold(s, o9).1 =~= hm);
    assert(tok_fold(s, o10).0 =~= seq![pl, tn, ca, ep, hm]);
    assert(tok_fold(s, o10).1 =~= Seq::<u8>::empty());
    lemma_tok_fold_block(s, o10, o11);
    assert(tok_fold(s, o11).1 =~= fm);
    assert(tok_fold(s, o11).0 =~= seq![pl, tn, ca, ep, hm]);
    assert(fm.len() > 0);
    assert(spec_tokens(s) =~= seq![pl, tn, ca, ep, hm, fm]);
}

/// The placement scan as a state machine: the state after consuming
/// `t[i..]`, with no end-of-field check.
pub open spec fn place_scan(t: Seq<u8>, i: int, pl: Placement, row: int, col: int) -> Result<
    (Placement, int, int),
    ParseError,
>
    decreases t.len() - i,
{
    if i >= t.len() {
        Ok((pl, row, col))
    } else {
        match place_step(pl, row, col, t[i]) {
            Ok((pl2, row2, col2)) => place_scan(t, i + 1, pl2, row2, col2),
            Err(e) => Err(e),
        }
    }
}

/// The placement parse is the scan followed by the end-of-field check.
proof fn lemma_place_rec_is_scan(t: Seq<u8>, i: int, pl: Placement, row: int, col: int)
    ensures
        place_rec(t, i, pl, row, col) == match place_scan(t, i, pl, row, col) {
            Ok((pl2, row2, col2)) => if row2 == 0 && col2 == 8 {
                Ok::<Placement, ParseError>(pl2)
            } else {
                Err::<Placement, ParseError>(ParseError::BadPlacement)
            },
            Err(e) => Err(e),
        },
    decreases t.len() - i,
{
    if i < t.len() {
        match place_step(pl, row, col, t[i]) {
            Ok((pl2, row2, col2)) => {
                lemma_place_rec_is_scan(t, i + 1, pl2, row2, col2);
            },
            Err(_) => {},
        }
    }
}

/// Scanning the tail of a concatenation is scanning the second part.
proof fn lemma_place_scan_shift(t1: Seq<u8>, t2: Seq<u8>, j: int, pl: Placement, row: int, col: int)
    requires
        0 <= j <= t2.len(),
    ensures
        place_scan(t1 + t2, t1.len() + j, pl, row, col) == place_scan(t2, j, pl, row, col),
    decreases t2.len() - j,
{
    if j < t2.len() {
        assert((t1 + t2)[t1.len() + j] == t2[j]);
        match place_step(pl, row, col, t2[j]) {
            Ok((pl2, row2, col2)) => {
                lemma_place_scan_shift(t1, t2, j + 1, pl2, row2, col2);
            },
            Err(_) => {},
        }
    }
}

/// Scanning a concatenation is scanning the first part, then the second from
/// the state the first part reached.
proof fn lemma_place_scan_concat(t1: Seq<u8>, t2: Seq<u8>, i: int, pl: Placement, row: int, col: int)
    requires
        0 <= i <= t1.len(),
    ensures
        place_scan(t1 + t2, i, pl, row, col) == match place_scan(t1, i, pl, row, col) {
            Ok((pl2, row2, col2)) => place_scan(t2, 0, pl2, row2, col2),
            Err(e) => Err(e),
        },
    decreases t1.len() - i,
{
    if i == t1.len() {
        lemma_place_scan_shift(t1, t2, 0, pl, row, col);
    } else {
        assert((t1 + t2)[i] == t1[i]);
        match place_step(pl, row, col, t1[i]) {
            Ok((pl2, row2, col2)) => {
                lemma_place_scan_concat(t1, t2, i + 1, pl2, row2, col2);
            },
            Err(_) => {},
        }
    }
}

/// Reading a glyph back gives the piece it was written for.
proof fn lemma_glyph_round_trip()
    ensures
        forall|p: Piece| #[trigger] Piece::spec_of_glyph(p.spec_glyph()) == Some(p),
{
}

/// What the square probe says about the masks: no mask holds an empty
/// square's bit; a reported glyph names a piece whose mask holds the bit,
/// and no other mask does.
proof fn lemma_square_piece(b: crate::board::Board, sq: u8)
    requires
        sq < 64,
        b.masks_disjoint(),
    ensures
        match b.spec_square(sq) {
            None => forall|p: Piece| !crate::bits::bit_set(#[trigger] b.piece_mask(p), sq),
            Some(g) => {
                &&& Piece::spec_of_glyph(g) is Some
                &&& crate::bits::bit_set(b.piece_mask(Piece::spec_of_glyph(g)->Some_0), sq)
                &&& forall|p: Piece|
                    p != Piece::spec_of_glyph(g)->Some_0 ==> !crate::bits::bit_set(
                        #[trigger] b.piece_mask(p),
                        sq,
                    )
            },
        },
{
    crate::bits::lemma_bit_ops();
    crate::bits::lemma_single_bit();
    match b.spec_square(sq) {
        None => {},
        Some(g) => {
            let q = Piece::spec_of_glyph(g)->Some_0;
            assert(crate::bits::bit_set(b.piece_mask(q), sq));
            assert forall|p: Piece| p != q implies !crate::bits::bit_set(
                #[trigger] b.piece_mask(p),
                sq,
            ) by {
                assert(b.piece_mask(p) & b.piece_mask(q) == 0);
            }
        },
    }
}

/// The pieces of rank `row` from file `col` on, added to `pl` in scan order.
pub open spec fn row_pieces(pl: Placement, b: crate::board::Board, row: int, col: int) -> Placement
    decreases 8 - col,
{
    if col < 0 || col >= 8 {
        pl
    } else {
        match b.spec_square((row * 8 + col) as u8) {
            None => row_pieces(pl, b, row, col + 1),
            Some(g) => row_pieces(
                spec_place_piece(pl, Piece::spec_of_glyph(g)->Some_0, (row * 8 + col) as u8),
                b,
                row,
                col + 1,
            ),
        }
    }
}

/// The pieces of rank `row` and every rank below it, added to `pl` in scan
/// order.
pub open spec fn rows_pieces(pl: Placement, b: crate::board::Board, row: int) -> Placement
    decreases row + 1,
{
    if row < 0 {
        pl
    } else {
        rows_pieces(row_pieces(pl, b, row, 0), b, row - 1)
    }
}

/// Scanning one emitted rank carries the parser across the rank and adds
/// exactly the rank's pieces.
proof fn lemma_rank_scan(b: crate::board::Board, row: int, col: int, run: int, pl: Placement)
    requires
        0 <= run <= col <= 8,
        0 <= row <= 7,
        b.masks_disjoint(),
    ensures
        place_scan(rank_bytes_rec(b, row, col, run), 0, pl, row, col - run) == Ok::<
            (Placement, int, int),
            ParseError,
        >((row_pieces(pl, b, row, col), row, 8)),
    decreases 8 - col,
{
    let t = rank_bytes_rec(b, row, col, run);
    if col >= 8 {
        if run > 0 {
            assert(t == seq![(48 + run) as u8]);
            assert(t[0] == (48 + run) as u8);
            assert(place_step(pl, row, col - run, t[0]) == Ok::<
                (Placement, int, int),
                ParseError,
            >((pl, row, 8)));
            assert(place_scan(t, 1, pl, row, 8) == Ok::<(Placement, int, int), ParseError>(
                (pl, row, 8),
            ));
            assert(place_scan(t, 0, pl, row, col - run) == Ok::<
                (Placement, int, int),
                ParseError,
            >((pl, row, 8)));
            assert(row_pieces(pl, b, row, col) == pl);
        } else {
            assert(t.len() == 0);
            assert(place_scan(t, 0, pl, row, 8) == Ok::<(Placement, int, int), ParseError>(
                (pl, row, 8),
            ));
            assert(row_pieces(pl, b, row, col) == pl);
        }
    } else {
        let sq = (row * 8 + col) as u8;
        lemma_square_piece(b, sq);
        match b.spec_square(sq) {
            None => {
                lemma_rank_scan(b, row, col + 1, run + 1, pl);
            },
            Some(g) => {
                let piece = Piece::spec_of_glyph(g)->Some_0;
                let pl2 = spec_place_piece(pl, piece, sq);
                let lead: Seq<u8> = if run > 0 {
                    seq![(48 + run) as u8]
                } else {
                    Seq::empty()
                };
                let rest = rank_bytes_rec(b, row, col + 1, 0);
                assert(t == lead + seq![g] + rest);
                lemma_place_scan_concat(lead + seq![g], rest, 0, pl, row, col - run);
                // the head: an optional run digit, then the glyph
                if run > 0 {
                    assert((lead + seq![g])[0] == (48 + run) as u8);
                    assert((lead + seq![g])[1] == g);
                    assert((lead + seq![g]).len() == 2);
                    assert(place_step(pl, row, col - run, (48 + run) as u8) == Ok::<
                        (Placement, int, int),
                        ParseError,
                    >((pl, row, col)));
                    assert(place_step(pl, row, col, g) == Ok::<
                        (Placement, int, int),
                        ParseError,
                    >((pl2, row, col + 1)));
                    assert(place_scan(lead + seq![g], 2, pl2, row, col + 1) == Ok::<
                        (Placement, int, int),
                        ParseError,
                    >((pl2, row, col + 1)));
                    assert(place_scan(lead + seq![g], 1, pl, row, col) == Ok::<
                        (Placement, int, int),
                        ParseError,
                    >((pl2, row, col + 1)));
                    assert(place_scan(lead + seq![g], 0, pl, row, col - run) == Ok::<
                        (Placement, int, int),
                        ParseError,
                    >((pl2, row, col + 1)));
                } else {
                    assert((lead + seq![g])[0] == g);
                    assert((lead + seq![g]).len() == 1);
                    assert(place_step(pl, row, col, g) == Ok::<
                        (Placement, int, int),
                        ParseError,
                    >((pl2, row, col + 1)));
                    assert(place_scan(lead + seq![g], 1, pl2, row, col + 1) == Ok::<
                        (Placement, int, int),
                        ParseError,
                    >((pl2, row, col + 1)));
                    assert(place_scan(lead + seq![g], 0, pl, row, col - run) == Ok::<
                        (Placement, int, int),
                        ParseError,
                    >((pl2, row, col + 1)));
                }
                lemma_rank_scan(b, row, col + 1, 0, pl2);
            },
        }
    }
}

/// Scanning the emitted ranks from rank `row` down carries the parser to the
/// end of rank 1 and adds exactly those ranks' pieces.
proof fn lemma_rows_scan(b: crate::board::Board, row: int, pl: Placement)
    requires
        0 <= row <= 7,
        b.masks_disjoint(),
    ensures
        place_scan(placement_rows_rec(b, row), 0, pl, row, 0) == Ok::<
            (Placement, int, int),
            ParseError,
        >((rows_pieces(pl, b, row), 0, 8)),
    decreases row,
{
    if row == 0 {
        lemma_rank_scan(b, 0, 0, 0, pl);
        assert(rows_pieces(pl, b, 0) == rows_pieces(row_pieces(pl, b, 0, 0), b, -1));
        assert(rows_pieces(row_pieces(pl, b, 0, 0), b, -1) == row_pieces(pl, b, 0, 0));
    } else {
        let rank = rank_bytes_rec(b, row, 0, 0);
        let rest = placement_rows_rec(b, row - 1);
        let pl1 = row_pieces(pl, b, row, 0);
        assert(placement_rows_rec(b, row) == rank + seq![47u8] + rest);
        lemma_place_scan_concat(rank + seq![47u8], rest, 0, pl, row, 0);
        lemma_place_scan_concat(rank, seq![47u8], 0, pl, row, 0);
        lemma_rank_scan(b, row, 0, 0, pl);
        assert(seq![47u8][0] == 47);
        assert(place_step(pl1, row, 8, 47) == Ok::<(Placement, int, int), ParseError>(
            (pl1, row - 1, 0),
        ));
        assert(place_scan(seq![47u8], 1, pl1, row - 1, 0) == Ok::<
            (Placement, int, int),
            ParseError,
        >((pl1, row - 1, 0)));
        assert(place_scan(seq![47u8], 0, pl1, row, 8) == Ok::<
            (Placement, int, int),
            ParseError,
        >((pl1, row - 1, 0)));
        assert(place_scan(rank + seq![47u8], 0, pl, row, 0) == Ok::<
            (Placement, int, int),
            ParseError,
        >((pl1, row - 1, 0)));
        lemma_rows_scan(b, row - 1, pl1);
    }
}

/// The squares of rank `row` from file `col` rightward, as a mask.
pub open spec fn rowseg(row: u64, col: u64) -> u64 {
    (255u64 & !(((1u64 << col) - 1) as u64)) << (row * 8)
}

/// The squares of rank `row` and every rank below it, as a mask.
pub open spec fn region_rows(row: u64) -> u64 {
    if row >= 7 {
        !0u64
    } else {
        ((1u64 << ((row + 1) * 8)) - 1) as u64
    }
}

/// One square more of a rank: the scan region grows by that square's bit.
proof fn lemma_seg_step(row: u64, col: u64)
    by (bit_vector)
    requires
        row <= 7,
        col < 8,
    ensures
        rowseg(row, col) == ((1u64 << (row * 8 + col)) | rowseg(row, (col + 1) as u64)),
{
}

/// A fully scanned rank has no squares left.
proof fn lemma_seg_end(row: u64)
    by (bit_vector)
    requires
        row <= 7,
    ensures
        rowseg(row, 8) == 0u64,
{
}

/// One rank more: the scanned region grows by that rank.
proof fn lemma_region_step(row: u64)
    by (bit_vector)
    requires
        1 <= row <= 7,
    ensures
        region_rows(row) == (rowseg(row, 0) | region_rows((row - 1) as u64)),
{
}

/// The lowest rank alone.
proof fn lemma_region_zero()
    by (bit_vector)
    ensures
        region_rows(0) == rowseg(0, 0),
        region_rows(7) == !0u64,
{
}

/// How a mask meets a region extended by a stretch it is inside or outside
/// of, and the units of the mask operators.
proof fn lemma_mask_in_out(m: u64, t: u64, x: u64)
    by (bit_vector)
    ensures
        m & t == 0 ==> (m & (t | x)) == (m & x),
        m & t == t ==> (m & (t | x)) == (t | (m & x)),
        (m & (t | x)) == ((m & t) | (m & x)),
        (m | 0u64) == m,
        (m & 0u64) == 0u64,
        (m & !0u64) == m,
        (0u64 | m) == m,
{
}

/// Joining masks is associative.
proof fn lemma_or_assoc(a: u64, b: u64, c: u64)
    by (bit_vector)
    ensures
        (a | (b | c)) == ((a | b) | c),
{
}

/// A mask meets a single square's bit wholly or not at all.
proof fn lemma_bit_and(m: u64, i: u8)
    by (bit_vector)
    requires
        i < 64,
    ensures
        crate::bits::bit_set(m, i) ==> (m & (1u64 << (i as u64))) == (1u64 << (i as u64)),
        !crate::bits::bit_set(m, i) ==> (m & (1u64 << (i as u64))) == 0u64,
{
}

/// The pieces a rank scan collects: each mask gains exactly its bits in the
/// scanned stretch of the rank.
proof fn lemma_row_pieces_masks(pl: Placement, b: crate::board::Board, row: int, col: int)
    requires
        0 <= row <= 7,
        0 <= col <= 8,
        b.masks_disjoint(),
    ensures
        forall|p: Piece|
            pl_mask(#[trigger] row_pieces(pl, b, row, col), p) == (pl_mask(pl, p) | (b.piece_mask(
                p,
            ) & rowseg(row as u64, col as u64))),
    decreases 8 - col,
{
    if col >= 8 {
        lemma_seg_end(row as u64);
        assert forall|p: Piece|
            pl_mask(#[trigger] row_pieces(pl, b, row, col), p) == (pl_mask(pl, p) | (b.piece_mask(
                p,
            ) & rowseg(row as u64, col as u64))) by {
            lemma_mask_in_out(b.piece_mask(p), 0u64, 0u64);
            lemma_mask_in_out(pl_mask(pl, p), 0u64, 0u64);
        }
    } else {
        let sq = (row * 8 + col) as u8;
        let t = 1u64 << (sq as u64);
        let seg2 = rowseg(row as u64, (col + 1) as u64);
        lemma_square_piece(b, sq);
        lemma_seg_step(row as u64, col as u64);
        assert(sq as u64 == row as u64 * 8 + col as u64);
        assert(rowseg(row as u64, col as u64) == (t | seg2));
        match b.spec_square(sq) {
            None => {
                lemma_row_pieces_masks(pl, b, row, col + 1);
                assert forall|p: Piece|
                    pl_mask(#[trigger] row_pieces(pl, b, row, col), p) == (pl_mask(pl, p) | (
                    b.piece_mask(p) & rowseg(row as u64, col as u64))) by {
                    assert(row_pieces(pl, b, row, col) == row_pieces(pl, b, row, col + 1));
                    assert(pl_mask(row_pieces(pl, b, row, col + 1), p) == (pl_mask(pl, p) | (
                    b.piece_mask(p) & seg2)));
                    lemma_bit_and(b.piece_mask(p), sq);
                    lemma_mask_in_out(b.piece_mask(p), t, seg2);
                }
            },
            Some(g) => {
                let piece = Piece::spec_of_glyph(g)->Some_0;
                let pl2 = spec_place_piece(pl, piece, sq);
                lemma_row_pieces_masks(pl2, b, row, col + 1);
                assert forall|p: Piece|
                    pl_mask(#[trigger] row_pieces(pl, b, row, col), p) == (pl_mask(pl, p) | (
                    b.piece_mask(p) & rowseg(row as u64, col as u64))) by {
                    assert(row_pieces(pl, b, row, col) == row_pieces(pl2, b, row, col + 1));
                    assert(pl_mask(row_pieces(pl2, b, row, col + 1), p) == (pl_mask(pl2, p) | (
                    b.piece_mask(p) & seg2)));
                    lemma_bit_and(b.piece_mask(p), sq);
                    lemma_mask_in_out(b.piece_mask(p), t, seg2);
                    if p == piece {
                        assert(pl_mask(pl2, p) == (pl_mask(pl, p) | t));
                        assert(b.piece_mask(p) & (t | seg2) == (t | (b.piece_mask(p) & seg2)));
                        lemma_or_assoc(pl_mask(pl, p), t, b.piece_mask(p) & seg2);
                    } else {
                        assert(pl_mask(pl2, p) == pl_mask(pl, p));
                    }
                }
            },
        }
    }
}

/// The pieces the whole placement scan collects: each mask gains exactly its
/// bits on the scanned ranks.
proof fn lemma_rows_pieces_masks(pl: Placement, b: crate::board::Board, row: int)
    requires
        0 <= row <= 7,
        b.masks_disjoint(),
    ensures
        forall|p: Piece|
            pl_mask(#[trigger] rows_pieces(pl, b, row), p) == (pl_mask(pl, p) | (b.piece_mask(p)
                & region_rows(row as u64))),
    decreases row,
{
    lemma_row_pieces_masks(pl, b, row, 0);
    let pl1 = row_pieces(pl, b, row, 0);
    if row == 0 {
        lemma_region_zero();
        assert(rows_pieces(pl, b, 0) == rows_pieces(pl1, b, -1));
        assert(rows_pieces(pl1, b, -1) == pl1);
    } else {
        lemma_rows_pieces_masks(pl1, b, row - 1);
        lemma_region_step(row as u64);
        assert forall|p: Piece|
            pl_mask(#[trigger] rows_pieces(pl, b, row), p) == (pl_mask(pl, p) | (b.piece_mask(p)
                & region_rows(row as u64))) by {
            let m = b.piece_mask(p);
            let seg = rowseg(row as u64, 0);
            let reg = region_rows((row - 1) as u64);
            assert(rows_pieces(pl, b, row) == rows_pieces(pl1, b, row - 1));
            assert(pl_mask(rows_pieces(pl1, b, row - 1), p) == (pl_mask(pl1, p) | (m & reg)));
            assert(pl_mask(pl1, p) == (pl_mask(pl, p) | (m & seg)));
            lemma_mask_in_out(m, seg, reg);
            assert(m & (seg | reg) == ((m & seg) | (m & reg)));
            lemma_or_assoc(pl_mask(pl, p), m & seg, m & reg);
        }
    }
}

/// The placement field written for a position reads back as exactly the
/// position's twelve masks.
pub proof fn lemma_placement_read_back(b: crate::board::Board)
    requires
        b.masks_disjoint(),
    ensures
        spec_placement(placement_rows_rec(b, 7)) == Ok::<Placement, ParseError>(
            Placement {
                white_pawns: b.white_pawns,
                white_knights: b.white_knights,
                white_bishops: b.white_bishops,
                white_rooks: b.white_rooks,
                white_queens: b.white_queens,
                white_king: b.white_king,
                black_pawns: b.black_pawns,
                black_knights: b.black_knights,
                black_bishops: b.black_bishops,
                black_rooks: b.black_rooks,
                black_queens: b.black_queens,
                black_king: b.black_king,
            },
        ),
{
    let t = placement_rows_rec(b, 7);
    lemma_rows_scan(b, 7, empty_placement());
    lemma_place_rec_is_scan(t, 0, empty_placement(), 7, 0);
    let out = rows_pieces(empty_placement(), b, 7);
    lemma_rows_pieces_masks(empty_placement(), b, 7);
    lemma_region_zero();
    assert forall|p: Piece| pl_mask(out, p) == b.piece_mask(p) by {
        assert(pl_mask(empty_placement(), p) == 0u64);
        lemma_mask_in_out(b.piece_mask(p), 0u64, 0u64);
        lemma_mask_in_out(0u64, 0u64, b.piece_mask(p) & !0u64);
        assert(b.piece_mask(p) & !0u64 == b.piece_mask(p));
        assert(0u64 | (b.piece_mask(p) & !0u64) == b.piece_mask(p) & !0u64);
    }
    assert(out.white_pawns == pl_mask(out, Piece::WhitePawn));
    assert(out.white_knights == pl_mask(out, Piece::WhiteKnight));
    assert(out.white_bishops == pl_mask(out, Piece::WhiteBishop));
    assert(out.white_rooks == pl_mask(out, Piece::WhiteRook));
    assert(out.white_queens == pl_mask(out, Piece::WhiteQueen));
    assert(out.white_king == pl_mask(out, Piece::WhiteKing));
    assert(out.black_pawns == pl_mask(out, Piece::BlackPawn));
    assert(out.black_knights == pl_mask(out, Piece::BlackKnight));
    assert(out.black_bishops == pl_mask(out, Piece::BlackBishop));
    assert(out.black_rooks == pl_mask(out, Piece::BlackRook));
    assert(out.black_queens == pl_mask(out, Piece::BlackQueen));
    assert(out.black_king == pl_mask(out, Piece::BlackKing));
}

/// The round trip: the FEN record written for a well-formed position parses
/// back to exactly that position. The en-passant target, when present, must
/// lie on rank 3 or rank 6, as the grammar can express no other rank.
#[verifier::rlimit(100)]
pub proof fn lemma_parse_inverts_emit(b: crate::board::Board)
    requires
        b.wf(),
        match b.en_passant {
            None => true,
            Some(e) => e / 8 == 2 || e / 8 == 5,
        },
    ensures
        spec_parse_fen(spec_fen_bytes(b)) == Ok::<crate::board::Board, ParseError>(b),
{
    lemma_emit_tokens(b);
    lemma_placement_read_back(b);
    lemma_turn_round_trip(b.white_turn);
    lemma_castling_round_trip(b);
    lemma_ep_round_trip(b);
    lemma_counter_round_trip(b.halfmove);
    lemma_counter_round_trip(b.fullmove);
    let toks = spec_tokens(spec_fen_bytes(b));
    assert(toks.len() == 6);
    assert(toks[0] == placement_rows_rec(b, 7));
    let pl = Placement {
        white_pawns: b.white_pawns,
        white_knights: b.white_knights,
        white_bishops: b.white_bishops,
        white_rooks: b.white_rooks,
        white_queens: b.white_queens,
        white_king: b.white_king,
        black_pawns: b.black_pawns,
        black_knights: b.black_knights,
        black_bishops: b.black_bishops,
        black_rooks: b.black_rooks,
        black_queens: b.black_queens,
        black_king: b.black_king,
    };
    assert(spec_placement(toks[0]) == Ok::<Placement, ParseError>(pl));
    let out = assemble_board(
        pl,
        b.white_turn,
        (
            b.white_castle_kingside,
            b.white_castle_queenside,
            b.black_castle_kingside,
            b.black_castle_queenside,
        ),
        b.en_passant,
        b.halfmove,
        b.fullmove,
    );
    assert(out.white_pieces == b.white_pieces);
    assert(out.black_pieces == b.black_pieces);
    assert(out.empty_squares == b.empty_squares);
    assert(out == b);
}

} // verus!
