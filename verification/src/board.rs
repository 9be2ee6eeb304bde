//! The board: twelve piece bitboards, aggregate masks, and move metadata.

use vstd::prelude::*;
use vstd::string::StringSliceAdditionalSpecFns;

use crate::move_service::{
    black_moves_seq, bc_moves_seq, bb_moves_seq, bk_moves_seq, bn_moves_seq, bp_moves_seq,
    bq_moves_seq, br_moves_seq, spec_unsafe_b, spec_unsafe_w, wb_moves_seq, wc_moves_seq,
    white_moves_seq, wk_moves_seq, wn_moves_seq, wp_moves_seq, wq_moves_seq, wr_moves_seq,
    MoveService, all_wf,
};
use crate::bits::{bit_set, lemma_bit_ops, lemma_single_bit};
use crate::moves::Move;
use crate::pieces::Piece;

verus! {

/// A chess position.
///
/// Each piece kind has a 64-bit occupancy mask. The least significant bit is
/// square a1 and the most significant bit is square h8; squares run left to
/// right within a rank and rank by rank upward.
#[derive(Debug, Clone, Copy)]
pub struct Board {
    /// A bitboard representing the white pawns.
    pub white_pawns: u64,
    /// A bitboard representing the white knights.
    pub white_knights: u64,
    /// A bitboard representing the white bishops.
    pub white_bishops: u64,
    /// A bitboard representing the white rooks.
    pub white_rooks: u64,
    /// A bitboard representing the white queens.
    pub white_queens: u64,
    /// A bitboard representing the white king.
    pub white_king: u64,
    /// A bitboard representing the black pawns.
    pub black_pawns: u64,
    /// A bitboard representing the black knights.
    pub black_knights: u64,
    /// A bitboard representing the black bishops.
    pub black_bishops: u64,
    /// A bitboard representing the black rooks.
    pub black_rooks: u64,
    /// A bitboard representing the black queens.
    pub black_queens: u64,
    /// A bitboard representing the black king.
    pub black_king: u64,
    /// The union of the white non-king masks.
    pub white_pieces: u64,
    /// The union of the black non-king masks.
    pub black_pieces: u64,
    /// The complement of the union of all twelve piece masks.
    pub empty_squares: u64,
    /// The en-passant target square, 0..64, when the previous move was a
    /// two-square pawn advance.
    pub en_passant: Option<u8>,
    /// True when it is white's turn to move.
    pub white_turn: bool,
    /// Whether white may still castle kingside.
    pub white_castle_kingside: bool,
    /// Whether white may still castle queenside.
    pub white_castle_queenside: bool,
    /// Whether black may still castle kingside.
    pub black_castle_kingside: bool,
    /// Whether black may still castle queenside.
    pub black_castle_queenside: bool,
    /// The number of halfmoves since the last capture or pawn advance.
    pub halfmove: u8,
    /// The number of the full move.
    pub fullmove: u8,
}

impl Board {
    /// The occupancy mask of one piece kind.
    pub open spec fn piece_mask(self, p: Piece) -> u64 {
        match p {
            Piece::WhitePawn => self.white_pawns,
            Piece::WhiteKnight => self.white_knights,
            Piece::WhiteBishop => self.white_bishops,
            Piece::WhiteRook => self.white_rooks,
            Piece::WhiteQueen => self.white_queens,
            Piece::WhiteKing => self.white_king,
            Piece::BlackPawn => self.black_pawns,
            Piece::BlackKnight => self.black_knights,
            Piece::BlackBishop => self.black_bishops,
            Piece::BlackRook => self.black_rooks,
            Piece::BlackQueen => self.black_queens,
            Piece::BlackKing => self.black_king,
        }
    }

    /// No square is claimed by two different piece masks.
    pub open spec fn masks_disjoint(self) -> bool {
        forall|p1: Piece, p2: Piece|
            p1 != p2 ==> #[trigger] (self.piece_mask(p1) & self.piece_mask(p2)) == 0u64
    }

    /// The stored aggregate masks match their definitions: `white_pieces` and
    /// `black_pieces` are the unions of the non-king masks of their side, and
    /// `empty_squares` is the complement of the union of all twelve masks.
    pub open spec fn aggregates_ok(self) -> bool {
        &&& self.white_pieces == self.white_pawns | self.white_knights | self.white_bishops
            | self.white_rooks | self.white_queens
        &&& self.black_pieces == self.black_pawns | self.black_knights | self.black_bishops
            | self.black_rooks | self.black_queens
        &&& self.empty_squares == !(self.white_pieces | self.black_pieces | self.white_king
            | self.black_king)
    }

    /// The en-passant target, when present, is a valid square index.
    pub open spec fn ep_ok(self) -> bool {
        match self.en_passant {
            Some(e) => e < 64,
            None => true,
        }
    }

    /// A well-formed position: disjoint piece masks, correct aggregates, and a
    /// valid en-passant target.
    pub open spec fn wf(self) -> bool {
        self.masks_disjoint() && self.aggregates_ok() && self.ep_ok()
    }
}

/// The mask of one piece kind after a move is applied to it: the moving bit
/// travels, a captured bit is cleared, a promoted piece appears.
pub open spec fn spec_move_mask(mask: u64, m: Move, board_type: Piece) -> u64 {
    match m {
        Move::Normal { from, to } => {
            if mask & (1u64 << (from as u64)) == 0 {
                // not the mover's mask: any piece on the target square is captured
                mask & !(1u64 << (to as u64))
            } else {
                (mask & !(1u64 << (from as u64))) | (1u64 << (to as u64))
            }
        },
        Move::Castle { from, to, rook } => {
            if mask & (1u64 << (from as u64)) != 0 {
                // the king's mask
                (mask & !(1u64 << (from as u64))) | (1u64 << (to as u64))
            } else if mask & (1u64 << (rook as u64)) != 0 {
                // the rook's mask: the rook lands beside the king's destination
                let new_rook = if to > from {
                    (to - 1) as u8
                } else {
                    (to + 1) as u8
                };
                (mask & !(1u64 << (rook as u64))) | (1u64 << (new_rook as u64))
            } else {
                mask
            }
        },
        Move::EnPassant { from, to, captured } => {
            if mask & (1u64 << (from as u64)) != 0 {
                // the moving pawn's mask
                (mask & !(1u64 << (from as u64))) | (1u64 << (to as u64))
            } else if mask & (1u64 << (captured as u64)) != 0 {
                // the captured pawn's mask
                mask & !(1u64 << (captured as u64))
            } else {
                mask
            }
        },
        Move::Promotion { from, to, promotion } => {
            if mask & (1u64 << (from as u64)) != 0 {
                // the promoting pawn's mask: the pawn leaves the board
                mask & !(1u64 << (from as u64))
            } else if promotion == board_type {
                // the promoted kind's mask: the new piece appears
                mask | (1u64 << (to as u64))
            } else if mask & (1u64 << (to as u64)) != 0 {
                // any piece on the target square is captured
                mask & !(1u64 << (to as u64))
            } else {
                mask
            }
        },
    }
}

/// Saturating increment: counters stick at their maximum instead of wrapping.
pub open spec fn sat_inc(x: u8) -> u8 {
    if x == 255 {
        255u8
    } else {
        (x + 1) as u8
    }
}

impl Board {
    /// The en-passant target after `m`: the square between `from` and `to`
    /// when a pawn of the side to move advances two squares, otherwise absent.
    pub open spec fn spec_new_ep(self, m: Move) -> Option<u8> {
        let from = m.from_sq();
        let to = m.to_sq();
        let mover_pawns = if self.white_turn {
            self.white_pawns
        } else {
            self.black_pawns
        };
        if (to == from + 16 || from == to + 16) && mover_pawns & (1u64 << (from as u64)) != 0 {
            Some(((from + to) / 2) as u8)
        } else {
            None
        }
    }

    /// True when `m` resets the halfmove clock: a pawn of the side to move
    /// advances, or a piece is captured (the destination was occupied, or the
    /// move is an en-passant capture).
    pub open spec fn spec_resets_halfmove(self, m: Move) -> bool {
        let from = m.from_sq();
        let to = m.to_sq();
        let mover_pawns = if self.white_turn {
            self.white_pawns
        } else {
            self.black_pawns
        };
        mover_pawns & (1u64 << (from as u64)) != 0 || m matches Move::EnPassant { .. }
            || !self.empty_squares & (1u64 << (to as u64)) != 0
    }

    /// The position after `m` is committed: every piece mask updated, castling
    /// rights cleared when the king or a rook corner moves, the en-passant
    /// target and halfmove clock set, the side to move flipped, the fullmove
    /// number raised, and the aggregate masks recomputed. King safety is not
    /// judged here.
    pub open spec fn spec_apply(self, m: Move) -> Board {
        let from = m.from_sq();
        let to = m.to_sq();
        let new_white_pawns = spec_move_mask(self.white_pawns, m, Piece::WhitePawn);
        let new_white_knights = spec_move_mask(self.white_knights, m, Piece::WhiteKnight);
        let new_white_bishops = spec_move_mask(self.white_bishops, m, Piece::WhiteBishop);
        let new_white_rooks = spec_move_mask(self.white_rooks, m, Piece::WhiteRook);
        let new_white_queens = spec_move_mask(self.white_queens, m, Piece::WhiteQueen);
        let new_white_king = spec_move_mask(self.white_king, m, Piece::WhiteKing);
        let new_black_pawns = spec_move_mask(self.black_pawns, m, Piece::BlackPawn);
        let new_black_knights = spec_move_mask(self.black_knights, m, Piece::BlackKnight);
        let new_black_bishops = spec_move_mask(self.black_bishops, m, Piece::BlackBishop);
        let new_black_rooks = spec_move_mask(self.black_rooks, m, Piece::BlackRook);
        let new_black_queens = spec_move_mask(self.black_queens, m, Piece::BlackQueen);
        let new_black_king = spec_move_mask(self.black_king, m, Piece::BlackKing);
        let new_white_pieces = new_white_pawns | new_white_knights | new_white_bishops
            | new_white_rooks | new_white_queens;
        let new_black_pieces = new_black_pawns | new_black_knights | new_black_bishops
            | new_black_rooks | new_black_queens;
        let moved = (1u64 << (from as u64)) | (1u64 << (to as u64));
        Board {
            white_pawns: new_white_pawns,
            white_knights: new_white_knights,
            white_bishops: new_white_bishops,
            white_rooks: new_white_rooks,
            white_queens: new_white_queens,
            white_king: new_white_king,
            black_pawns: new_black_pawns,
            black_knights: new_black_knights,
            black_bishops: new_black_bishops,
            black_rooks: new_black_rooks,
            black_queens: new_black_queens,
            black_king: new_black_king,
            white_pieces: new_white_pieces,
            black_pieces: new_black_pieces,
            empty_squares: !(new_white_pieces | new_black_pieces | new_white_king
                | new_black_king),
            en_passant: self.spec_new_ep(m),
            white_turn: !self.white_turn,
            white_castle_kingside: self.white_castle_kingside && self.white_king & (1u64 << (
            from as u64)) == 0 && moved & self.white_rooks & (1u64 << 7) == 0,
            white_castle_queenside: self.white_castle_queenside && self.white_king & (1u64 << (
            from as u64)) == 0 && moved & self.white_rooks & (1u64 << 0) == 0,
            black_castle_kingside: self.black_castle_kingside && self.black_king & (1u64 << (
            from as u64)) == 0 && moved & self.black_rooks & (1u64 << 63) == 0,
            black_castle_queenside: self.black_castle_queenside && self.black_king & (1u64 << (
            from as u64)) == 0 && moved & self.black_rooks & (1u64 << 56) == 0,
            halfmove: if self.spec_resets_halfmove(m) {
                0u8
            } else {
                sat_inc(self.halfmove)
            },
            fullmove: sat_inc(self.fullmove),
        }
    }

    /// True when committing `m` leaves the mover's king on no square the other
    /// side attacks.
    pub open spec fn king_safe_after(self, m: Move) -> bool {
        let nb = self.spec_apply(m);
        if self.white_turn {
            nb.white_king & spec_unsafe_w(nb) == 0
        } else {
            nb.black_king & spec_unsafe_b(nb) == 0
        }
    }

    /// What `make_move` returns: the new position when the mover's king stays
    /// safe, otherwise the old position as the error value.
    pub open spec fn spec_make(self, m: Move) -> Result<Board, Board> {
        if self.king_safe_after(m) {
            Ok(self.spec_apply(m))
        } else {
            Err(self)
        }
    }
}


impl Board {
    /// One piece mask with `m` applied, as `spec_move_mask` states.
    fn moved_mask(mask: u64, m: &Move, board_type: Piece) -> (r: u64)
        requires
            m.wf(),
        ensures
            r == spec_move_mask(mask, *m, board_type),
    {
        match *m {
            Move::Normal { from, to } => {
                if mask & (1u64 << from) == 0 {
                    mask & !(1u64 << to)
                } else {
                    (mask & !(1u64 << from)) | (1u64 << to)
                }
            },
            Move::Castle { from, to, rook } => {
                if mask & (1u64 << from) != 0 {
                    (mask & !(1u64 << from)) | (1u64 << to)
                } else if mask & (1u64 << rook) != 0 {
                    let new_rook = if to > from {
                        to - 1
                    } else {
                        to + 1
                    };
                    (mask & !(1u64 << rook)) | (1u64 << new_rook)
                } else {
                    mask
                }
            },
            Move::EnPassant { from, to, captured } => {
                if mask & (1u64 << from) != 0 {
                    (mask & !(1u64 << from)) | (1u64 << to)
                } else if mask & (1u64 << captured) != 0 {
                    mask & !(1u64 << captured)
                } else {
                    mask
                }
            },
            Move::Promotion { from, to, promotion } => {
                if mask & (1u64 << from) != 0 {
                    mask & !(1u64 << from)
                } else if promotion == board_type {
                    mask | (1u64 << to)
                } else if mask & (1u64 << to) != 0 {
                    mask & !(1u64 << to)
                } else {
                    mask
                }
            },
        }
    }

    /// The piece mask selected by the FEN letter `board_type`, with `m`
    /// applied to it.
    pub fn move_board(&self, m: &Move, board_type: char) -> (r: u64)
        requires
            m.wf(),
            Piece::spec_of_char(board_type) is Some,
        ensures
            Piece::spec_of_char(board_type) matches Some(p) ==> r == spec_move_mask(
                self.piece_mask(p),
                *m,
                p,
            ),
    {
        let piece = Piece::of_char(board_type).unwrap();
        let mask = match piece {
            Piece::WhitePawn => self.white_pawns,
            Piece::WhiteKnight => self.white_knights,
            Piece::WhiteBishop => self.white_bishops,
            Piece::WhiteRook => self.white_rooks,
            Piece::WhiteQueen => self.white_queens,
            Piece::WhiteKing => self.white_king,
            Piece::BlackPawn => self.black_pawns,
            Piece::BlackKnight => self.black_knights,
            Piece::BlackBishop => self.black_bishops,
            Piece::BlackRook => self.black_rooks,
            Piece::BlackQueen => self.black_queens,
            Piece::BlackKing => self.black_king,
        };
        Board::moved_mask(mask, m, piece)
    }

    /// Commits `m` and judges its legality: the new position exactly as
    /// `spec_apply` states it, or the old position as the error when the
    /// mover's king would be left on an attacked square. The halfmove clock
    /// resets on a pawn move or a capture and the counters saturate at their
    /// maximum; the en-passant target is set only for a two-square advance of
    /// a pawn of the side to move.
    pub fn make_move(&self, m: &Move) -> (r: Result<Board, Board>)
        requires
            m.wf(),
        ensures
            r == self.spec_make(*m),
            r is Ok <==> self.king_safe_after(*m),
            r matches Ok(nb) ==> nb == self.spec_apply(*m) && nb.aggregates_ok() && nb.ep_ok(),
            r matches Ok(nb) ==> (if self.white_turn {
                nb.white_king & spec_unsafe_w(nb) == 0
            } else {
                nb.black_king & spec_unsafe_b(nb) == 0
            }),
            r matches Err(b) ==> b == *self,
    {
        let new_white_pawns = Board::moved_mask(self.white_pawns, m, Piece::WhitePawn);
        let new_white_knights = Board::moved_mask(self.white_knights, m, Piece::WhiteKnight);
        let new_white_bishops = Board::moved_mask(self.white_bishops, m, Piece::WhiteBishop);
        let new_white_rooks = Board::moved_mask(self.white_rooks, m, Piece::WhiteRook);
        let new_white_queens = Board::moved_mask(self.white_queens, m, Piece::WhiteQueen);
        let new_white_king = Board::moved_mask(self.white_king, m, Piece::WhiteKing);
        let new_black_pawns = Board::moved_mask(self.black_pawns, m, Piece::BlackPawn);
        let new_black_knights = Board::moved_mask(self.black_knights, m, Piece::BlackKnight);
        let new_black_bishops = Board::moved_mask(self.black_bishops, m, Piece::BlackBishop);
        let new_black_rooks = Board::moved_mask(self.black_rooks, m, Piece::BlackRook);
        let new_black_queens = Board::moved_mask(self.black_queens, m, Piece::BlackQueen);
        let new_black_king = Board::moved_mask(self.black_king, m, Piece::BlackKing);

        let (from, to) = match *m {
            Move::Normal { from, to } => (from, to),
            Move::Castle { from, to, .. } => (from, to),
            Move::EnPassant { from, to, .. } => (from, to),
            Move::Promotion { from, to, .. } => (from, to),
        };

        let mover_pawns = if self.white_turn {
            self.white_pawns
        } else {
            self.black_pawns
        };
        let new_en_passant: Option<u8> = if (to == from + 16 || from == to + 16) && mover_pawns
            & (1u64 << from) != 0 {
            Some((from + to) / 2)
        } else {
            None
        };

        let resets = mover_pawns & (1u64 << from) != 0 || matches!(m, Move::EnPassant { .. })
            || !self.empty_squares & (1u64 << to) != 0;
        let new_halfmove = if resets {
            0
        } else if self.halfmove == 255 {
            255
        } else {
            self.halfmove + 1
        };
        let new_fullmove = if self.fullmove == 255 {
            255
        } else {
            self.fullmove + 1
        };

        let moved = (1u64 << from) | (1u64 << to);
        let new_white_castle_kingside = self.white_castle_kingside && self.white_king & (1u64
            << from) == 0 && moved & self.white_rooks & (1u64 << 7) == 0;
        let new_white_castle_queenside = self.white_castle_queenside && self.white_king & (1u64
            << from) == 0 && moved & self.white_rooks & (1u64 << 0) == 0;
        let new_black_castle_kingside = self.black_castle_kingside && self.black_king & (1u64
            << from) == 0 && moved & self.black_rooks & (1u64 << 63) == 0;
        let new_black_castle_queenside = self.black_castle_queenside && self.black_king & (1u64
            << from) == 0 && moved & self.black_rooks & (1u64 << 56) == 0;

        let new_white_pieces = new_white_pawns | new_white_knights | new_white_bishops
            | new_white_rooks | new_white_queens;
        let new_black_pieces = new_black_pawns | new_black_knights | new_black_bishops
            | new_black_rooks | new_black_queens;
        let new_empty_squares = !(new_white_pieces | new_black_pieces | new_white_king
            | new_black_king);

        let new_board = Board {
            white_pawns: new_white_pawns,
            black_pawns: new_black_pawns,
            white_knights: new_white_knights,
            black_knights: new_black_knights,
            white_bishops: new_white_bishops,
            black_bishops: new_black_bishops,
            white_rooks: new_white_rooks,
            black_rooks: new_black_rooks,
            white_queens: new_white_queens,
            black_queens: new_black_queens,
            white_king: new_white_king,
            black_king: new_black_king,
            white_pieces: new_white_pieces,
            black_pieces: new_black_pieces,
            empty_squares: new_empty_squares,
            en_passant: new_en_passant,
            white_turn: !self.white_turn,
            white_castle_kingside: new_white_castle_kingside,
            white_castle_queenside: new_white_castle_queenside,
            black_castle_kingside: new_black_castle_kingside,
            black_castle_queenside: new_black_castle_queenside,
            halfmove: new_halfmove,
            fullmove: new_fullmove,
        };

        if (new_board.white_king & MoveService::unsafe_w(&new_board) == 0 && self.white_turn) || (
        new_board.black_king & MoveService::unsafe_b(&new_board) == 0 && !self.white_turn) {
            Ok(new_board)
        } else {
            Err(*self)
        }
    }

    /// Every pseudo-legal white move: pawns, king, queens, rooks, bishops,
    /// knights, castles.
    pub fn possible_white(&self) -> (r: Vec<Move>)
        requires
            self.ep_ok(),
        ensures
            r@ == white_moves_seq(*self),
            all_wf(r@),
    {
        MoveService::possible_white(self)
    }

    /// Every pseudo-legal black move: pawns, king, queens, rooks, bishops,
    /// knights, castles.
    pub fn possible_black(&self) -> (r: Vec<Move>)
        requires
            self.ep_ok(),
        ensures
            r@ == black_moves_seq(*self),
            all_wf(r@),
    {
        MoveService::possible_black(self)
    }

    /// The pseudo-legal white pawn moves.
    pub fn possible_wp(&self) -> (r: Vec<Move>)
        requires
            self.ep_ok(),
        ensures
            r@ == wp_moves_seq(*self),
    {
        MoveService::possible_wp(self)
    }

    /// The pseudo-legal black pawn moves.
    pub fn possible_bp(&self) -> (r: Vec<Move>)
        requires
            self.ep_ok(),
        ensures
            r@ == bp_moves_seq(*self),
    {
        MoveService::possible_bp(self)
    }

    /// The pseudo-legal white knight moves.
    pub fn possible_wn(&self) -> (r: Vec<Move>)
        ensures
            r@ == wn_moves_seq(*self),
    {
        MoveService::possible_wn(self)
    }

    /// The pseudo-legal black knight moves.
    pub fn possible_bn(&self) -> (r: Vec<Move>)
        ensures
            r@ == bn_moves_seq(*self),
    {
        MoveService::possible_bn(self)
    }

    /// The pseudo-legal white bishop moves.
    pub fn possible_wb(&self) -> (r: Vec<Move>)
        ensures
            r@ == wb_moves_seq(*self),
    {
        MoveService::possible_wb(self)
    }

    /// The pseudo-legal black bishop moves.
    pub fn possible_bb(&self) -> (r: Vec<Move>)
        ensures
            r@ == bb_moves_seq(*self),
    {
        MoveService::possible_bb(self)
    }

    /// The pseudo-legal white rook moves.
    pub fn possible_wr(&self) -> (r: Vec<Move>)
        ensures
            r@ == wr_moves_seq(*self),
    {
        MoveService::possible_wr(self)
    }

    /// The pseudo-legal black rook moves.
    pub fn possible_br(&self) -> (r: Vec<Move>)
        ensures
            r@ == br_moves_seq(*self),
    {
        MoveService::possible_br(self)
    }

    /// The pseudo-legal white queen moves.
    pub fn possible_wq(&self) -> (r: Vec<Move>)
        ensures
            r@ == wq_moves_seq(*self),
    {
        MoveService::possible_wq(self)
    }

    /// The pseudo-legal black queen moves.
    pub fn possible_bq(&self) -> (r: Vec<Move>)
        ensures
            r@ == bq_moves_seq(*self),
    {
        MoveService::possible_bq(self)
    }

    /// The pseudo-legal white king moves.
    pub fn possible_wk(&self) -> (r: Vec<Move>)
        ensures
            r@ == wk_moves_seq(*self),
    {
        MoveService::possible_wk(self)
    }

    /// The pseudo-legal black king moves.
    pub fn possible_bk(&self) -> (r: Vec<Move>)
        ensures
            r@ == bk_moves_seq(*self),
    {
        MoveService::possible_bk(self)
    }

    /// The white castling moves that are open in this position.
    pub fn possible_wc(&self) -> (r: Vec<Move>)
        ensures
            r@ == wc_moves_seq(*self),
    {
        MoveService::possible_wc(self)
    }

    /// The black castling moves that are open in this position.
    pub fn possible_bc(&self) -> (r: Vec<Move>)
        ensures
            r@ == bc_moves_seq(*self),
    {
        MoveService::possible_bc(self)
    }

    /// The squares attacked by black: unsafe squares for the white king.
    pub fn unsafe_w(&self) -> (r: u64)
        ensures
            r == spec_unsafe_w(*self),
    {
        MoveService::unsafe_w(self)
    }

    /// The squares attacked by white: unsafe squares for the black king.
    pub fn unsafe_b(&self) -> (r: u64)
        ensures
            r == spec_unsafe_b(*self),
    {
        MoveService::unsafe_b(self)
    }
}


impl Board {
    /// The FEN glyph of the piece on `position`, if any: the twelve masks are
    /// probed in the order white pawn to white king, then black pawn to black
    /// king.
    pub open spec fn spec_square(self, position: u8) -> Option<u8> {
        if self.white_pawns & (1u64 << (position as u64)) != 0 {
            Some(crate::pieces::GLYPH_WP)
        } else if self.white_knights & (1u64 << (position as u64)) != 0 {
            Some(crate::pieces::GLYPH_WN)
        } else if self.white_bishops & (1u64 << (position as u64)) != 0 {
            Some(crate::pieces::GLYPH_WB)
        } else if self.white_rooks & (1u64 << (position as u64)) != 0 {
            Some(crate::pieces::GLYPH_WR)
        } else if self.white_queens & (1u64 << (position as u64)) != 0 {
            Some(crate::pieces::GLYPH_WQ)
        } else if self.white_king & (1u64 << (position as u64)) != 0 {
            Some(crate::pieces::GLYPH_WK)
        } else if self.black_pawns & (1u64 << (position as u64)) != 0 {
            Some(crate::pieces::GLYPH_BP)
        } else if self.black_knights & (1u64 << (position as u64)) != 0 {
            Some(crate::pieces::GLYPH_BN)
        } else if self.black_bishops & (1u64 << (position as u64)) != 0 {
            Some(crate::pieces::GLYPH_BB)
        } else if self.black_rooks & (1u64 << (position as u64)) != 0 {
            Some(crate::pieces::GLYPH_BR)
        } else if self.black_queens & (1u64 << (position as u64)) != 0 {
            Some(crate::pieces::GLYPH_BQ)
        } else if self.black_king & (1u64 << (position as u64)) != 0 {
            Some(crate::pieces::GLYPH_BK)
        } else {
            None
        }
    }

    /// The FEN glyph of the piece on `position`, if any.
    pub fn square(&self, position: u8) -> (r: Option<u8>)
        requires
            position < 64,
        ensures
            r == self.spec_square(position),
    {
        if self.white_pawns & (1u64 << position) != 0 {
            Some(crate::pieces::GLYPH_WP)
        } else if self.white_knights & (1u64 << position) != 0 {
            Some(crate::pieces::GLYPH_WN)
        } else if self.white_bishops & (1u64 << position) != 0 {
            Some(crate::pieces::GLYPH_WB)
        } else if self.white_rooks & (1u64 << position) != 0 {
            Some(crate::pieces::GLYPH_WR)
        } else if self.white_queens & (1u64 << position) != 0 {
            Some(crate::pieces::GLYPH_WQ)
        } else if self.white_king & (1u64 << position) != 0 {
            Some(crate::pieces::GLYPH_WK)
        } else if self.black_pawns & (1u64 << position) != 0 {
            Some(crate::pieces::GLYPH_BP)
        } else if self.black_knights & (1u64 << position) != 0 {
            Some(crate::pieces::GLYPH_BN)
        } else if self.black_bishops & (1u64 << position) != 0 {
            Some(crate::pieces::GLYPH_BB)
        } else if self.black_rooks & (1u64 << position) != 0 {
            Some(crate::pieces::GLYPH_BR)
        } else if self.black_queens & (1u64 << position) != 0 {
            Some(crate::pieces::GLYPH_BQ)
        } else if self.black_king & (1u64 << position) != 0 {
            Some(crate::pieces::GLYPH_BK)
        } else {
            None
        }
    }

    /// The position a FEN string encodes. The string must parse; `parse_fen`
    /// reports the reason when one does not.
    pub fn new(input: &str) -> (r: Board)
        requires
            crate::fen::spec_parse_fen(input.spec_bytes()) is Ok,
        ensures
            Ok::<Board, crate::fen::ParseError>(r) == crate::fen::spec_parse_fen(input.spec_bytes()),
            r.wf(),
    {
        crate::fen::parse_fen(input).unwrap()
    }

    /// This position written as a FEN string, as `spec_fen_bytes` states it.
    pub fn export_fen(&self) -> (r: String)
        ensures
            r@ == crate::fen::ascii_view(crate::fen::spec_fen_bytes(*self)),
    {
        crate::fen::emit_fen(self)
    }
}


/// Two disjoint masks stay disjoint under the edits a move makes: a narrowed
/// mask, a mask whose bit travels onto a square the other does not keep, and
/// two travelling bits that land on distinct free squares.
proof fn lemma_disjoint_edits()
    by (bit_vector)
    ensures
        forall|a: u64, b: u64| #[trigger] (a & b) == b & a,
        forall|a: u64, b: u64, x: u64, y: u64|
            a & b == 0 ==> #[trigger] ((a & x) & (b & y)) == 0,
        forall|a: u64, b: u64, x: u64| a & b == 0 ==> #[trigger] ((a & x) & b) == 0,
        forall|a: u64, b: u64, f: u64, t: u64|
            a & b == 0 ==> #[trigger] (((a & !f) | t) & (b & !t)) == 0,
        forall|a: u64, b: u64, f: u64, t: u64|
            a & b == 0 && b & t == 0 ==> #[trigger] (((a & !f) | t) & b) == 0,
        forall|a: u64, b: u64, f: u64, t: u64, x: u64|
            a & b == 0 && b & t == 0 ==> #[trigger] (((a & !f) | t) & (b & x)) == 0,
{
}

/// The travelling-bit edits of a castling move and the appearing bit of a
/// promotion, against the other masks' edits.
proof fn lemma_disjoint_edits_more()
    by (bit_vector)
    ensures
        forall|a: u64, b: u64, f1: u64, t1: u64, f2: u64, t2: u64|
            a & b == 0 && a & t2 == 0 && b & t1 == 0 && t1 & t2 == 0 ==> #[trigger] ((((a & !f1)
                | t1)) & (((b & !f2) | t2))) == 0,
        forall|a: u64, c: u64, f: u64, t: u64|
            a & c == 0 && a & t == 0 ==> #[trigger] ((a & !f) & (c | t)) == 0,
        forall|a: u64, c: u64, t: u64, x: u64|
            a & c == 0 && c & t == 0 ==> #[trigger] ((a | t) & (c & x)) == 0,
        forall|a: u64, c: u64, t: u64| a & c == 0 ==> #[trigger] ((a | t) & (c & !t)) == 0,
        forall|a: u64, c: u64, t: u64|
            a & c == 0 && c & t == 0 ==> #[trigger] ((a | t) & c) == 0,
{
}

impl Board {
    /// No piece stands on `sq` when the position's aggregates mark it empty.
    pub proof fn lemma_empty_square_clear(self, sq: u8)
        requires
            self.aggregates_ok(),
            sq < 64,
            bit_set(self.empty_squares, sq),
        ensures
            forall|p: Piece| !bit_set(#[trigger] self.piece_mask(p), sq),
    {
        lemma_bit_ops();
        assert(bit_set(
            !(self.white_pieces | self.black_pieces | self.white_king | self.black_king),
            sq,
        ));
        assert(!bit_set(
            self.white_pieces | self.black_pieces | self.white_king | self.black_king,
            sq,
        ));
        assert(!bit_set(
            self.white_pawns | self.white_knights | self.white_bishops | self.white_rooks
                | self.white_queens,
            sq,
        ));
        assert(!bit_set(
            self.black_pawns | self.black_knights | self.black_bishops | self.black_rooks
                | self.black_queens,
            sq,
        ));
    }

    /// One mask of the position after `m` is that mask with the move's edit
    /// applied.
    pub proof fn lemma_apply_mask(self, m: Move, p: Piece)
        ensures
            self.spec_apply(m).piece_mask(p) == spec_move_mask(self.piece_mask(p), m, p),
    {
    }

    /// Mask disjointness is preserved by committing a move, provided the
    /// squares the move writes to are free as its kind demands: nothing for an
    /// ordinary move, the king's and the rook's landing squares empty for a
    /// castle, the target square empty for an en-passant capture, and for a
    /// promotion no piece both on the origin and on the target square.
    pub proof fn lemma_apply_keeps_disjoint(self, m: Move)
        requires
            self.wf(),
            m.wf(),
            match m {
                Move::Normal { .. } => true,
                Move::Castle { from, to, rook: _ } => bit_set(self.empty_squares, to) && bit_set(
                    self.empty_squares,
                    if to > from {
                        (to - 1) as u8
                    } else {
                        (to + 1) as u8
                    },
                ),
                Move::EnPassant { from: _, to, captured: _ } => bit_set(self.empty_squares, to),
                Move::Promotion { from, to, promotion: _ } => forall|p: Piece|
                    bit_set(#[trigger] self.piece_mask(p), from) ==> !bit_set(
                        self.piece_mask(p),
                        to,
                    ),
            },
        ensures
            self.spec_apply(m).masks_disjoint(),
    {
        let nb = self.spec_apply(m);
        match m {
            Move::Normal { from, to } => {
                assert forall|p1: Piece, p2: Piece| p1 != p2 implies #[trigger] (nb.piece_mask(p1)
                    & nb.piece_mask(p2)) == 0u64 by {
                    self.lemma_apply_mask(m, p1);
                    self.lemma_apply_mask(m, p2);
                    lemma_normal_pair(self.piece_mask(p1), self.piece_mask(p2), m, p1, p2);
                }
            },
            Move::Castle { from, to, rook } => {
                let nr_sq = if to > from {
                    (to - 1) as u8
                } else {
                    (to + 1) as u8
                };
                self.lemma_empty_square_clear(to);
                self.lemma_empty_square_clear(nr_sq);
                assert forall|p1: Piece, p2: Piece| p1 != p2 implies #[trigger] (nb.piece_mask(p1)
                    & nb.piece_mask(p2)) == 0u64 by {
                    self.lemma_apply_mask(m, p1);
                    self.lemma_apply_mask(m, p2);
                    assert(!bit_set(self.piece_mask(p1), to) && !bit_set(self.piece_mask(p2), to));
                    assert(!bit_set(self.piece_mask(p1), nr_sq) && !bit_set(
                        self.piece_mask(p2),
                        nr_sq,
                    ));
                    lemma_castle_pair(self.piece_mask(p1), self.piece_mask(p2), m, p1, p2);
                }
            },
            Move::EnPassant { from, to, captured } => {
                self.lemma_empty_square_clear(to);
                assert forall|p1: Piece, p2: Piece| p1 != p2 implies #[trigger] (nb.piece_mask(p1)
                    & nb.piece_mask(p2)) == 0u64 by {
                    self.lemma_apply_mask(m, p1);
                    self.lemma_apply_mask(m, p2);
                    assert(!bit_set(self.piece_mask(p1), to) && !bit_set(self.piece_mask(p2), to));
                    lemma_ep_pair(self.piece_mask(p1), self.piece_mask(p2), m, p1, p2);
                }
            },
            Move::Promotion { from, to, promotion } => {
                assert forall|p1: Piece, p2: Piece| p1 != p2 implies #[trigger] (nb.piece_mask(p1)
                    & nb.piece_mask(p2)) == 0u64 by {
                    self.lemma_apply_mask(m, p1);
                    self.lemma_apply_mask(m, p2);
                    assert(bit_set(self.piece_mask(p1), from) ==> !bit_set(
                        self.piece_mask(p1),
                        to,
                    ));
                    assert(bit_set(self.piece_mask(p2), from) ==> !bit_set(
                        self.piece_mask(p2),
                        to,
                    ));
                    lemma_promotion_pair(self.piece_mask(p1), self.piece_mask(p2), m, p1, p2);
                }
            },
        }
    }

    /// Every position `make_move` accepts is well formed: the piece masks stay
    /// pairwise disjoint and the aggregates and en-passant target match their
    /// definitions, provided the squares the move writes to are free as its
    /// kind demands (see `lemma_apply_keeps_disjoint`).
    pub proof fn lemma_make_move_keeps_wf(self, m: Move)
        requires
            self.wf(),
            m.wf(),
            match m {
                Move::Normal { .. } => true,
                Move::Castle { from, to, rook: _ } => bit_set(self.empty_squares, to) && bit_set(
                    self.empty_squares,
                    if to > from {
                        (to - 1) as u8
                    } else {
                        (to + 1) as u8
                    },
                ),
                Move::EnPassant { from: _, to, captured: _ } => bit_set(self.empty_squares, to),
                Move::Promotion { from, to, promotion: _ } => forall|p: Piece|
                    bit_set(#[trigger] self.piece_mask(p), from) ==> !bit_set(
                        self.piece_mask(p),
                        to,
                    ),
            },
        ensures
            self.spec_make(m) matches Ok(nb) ==> nb.wf(),
    {
        if self.king_safe_after(m) {
            self.lemma_apply_keeps_disjoint(m);
        }
    }
}


/// Disjointness of two masks survives an ordinary move: the travelling bit
/// lands on a square every other mask gives up.
proof fn lemma_normal_pair(a: u64, c: u64, m: Move, p1: Piece, p2: Piece)
    requires
        a & c == 0,
        m is Normal,
        m.wf(),
    ensures
        spec_move_mask(a, m, p1) & spec_move_mask(c, m, p2) == 0,
{
    let from = m.from_sq();
    let to = m.to_sq();
    let f = 1u64 << (from as u64);
    let t = 1u64 << (to as u64);
    lemma_bit_ops();
    lemma_single_bit();
    lemma_disjoint_edits();
    if a & f != 0 && c & f != 0 {
        assert(bit_set(a, from) && bit_set(c, from));
        assert(false);
    } else if a & f != 0 {
        assert((((a & !f) | t) & (c & !t)) == 0);
    } else if c & f != 0 {
        assert((((c & !f) | t) & (a & !t)) == 0);
    } else {
        assert(((a & !t) & (c & !t)) == 0);
    }
}

/// Disjointness of two masks survives a castling move when neither holds the
/// king's or the rook's landing square.
proof fn lemma_castle_pair(a: u64, c: u64, m: Move, p1: Piece, p2: Piece)
    requires
        a & c == 0,
        m matches Move::Castle { from, to, rook } && !bit_set(a, to) && !bit_set(c, to)
            && !bit_set(
            a,
            if to > from {
                (to - 1) as u8
            } else {
                (to + 1) as u8
            },
        ) && !bit_set(
            c,
            if to > from {
                (to - 1) as u8
            } else {
                (to + 1) as u8
            },
        ),
        m.wf(),
    ensures
        spec_move_mask(a, m, p1) & spec_move_mask(c, m, p2) == 0,
{
    let from = m.from_sq();
    let to = m.to_sq();
    let rook = m->Castle_rook;
    let f = 1u64 << (from as u64);
    let t = 1u64 << (to as u64);
    let r = 1u64 << (rook as u64);
    let nr_sq = if to > from {
        (to - 1) as u8
    } else {
        (to + 1) as u8
    };
    let nr = 1u64 << (nr_sq as u64);
    lemma_bit_ops();
    lemma_single_bit();
    lemma_disjoint_edits();
    lemma_disjoint_edits_more();
    assert(a & t == 0 && c & t == 0 && a & nr == 0 && c & nr == 0);
    assert(to != nr_sq);
    assert(!bit_set(t, nr_sq));
    assert(t & nr == 0);
    if a & f != 0 && c & f != 0 {
        assert(bit_set(a, from) && bit_set(c, from));
        assert(false);
    } else if a & f == 0 && c & f == 0 && a & r != 0 && c & r != 0 {
        assert(bit_set(a, rook) && bit_set(c, rook));
        assert(false);
    } else if a & f != 0 {
        if c & r != 0 {
            assert((((a & !f) | t) & ((c & !r) | nr)) == 0);
        } else {
            assert((((a & !f) | t) & c) == 0);
        }
    } else if c & f != 0 {
        if a & r != 0 {
            assert((((c & !f) | t) & ((a & !r) | nr)) == 0);
        } else {
            assert((((c & !f) | t) & a) == 0);
        }
    } else if a & r != 0 {
        assert((((a & !r) | nr) & c) == 0);
    } else if c & r != 0 {
        assert((((c & !r) | nr) & a) == 0);
    }
}

/// Disjointness of two masks survives an en-passant capture when neither
/// holds the target square.
proof fn lemma_ep_pair(a: u64, c: u64, m: Move, p1: Piece, p2: Piece)
    requires
        a & c == 0,
        m matches Move::EnPassant { from, to, captured } && !bit_set(a, to) && !bit_set(c, to),
        m.wf(),
    ensures
        spec_move_mask(a, m, p1) & spec_move_mask(c, m, p2) == 0,
{
    let from = m.from_sq();
    let to = m.to_sq();
    let captured = m->EnPassant_captured;
    let f = 1u64 << (from as u64);
    let t = 1u64 << (to as u64);
    let cap = 1u64 << (captured as u64);
    lemma_bit_ops();
    lemma_single_bit();
    lemma_disjoint_edits();
    assert(a & t == 0 && c & t == 0);
    if a & f != 0 && c & f != 0 {
        assert(bit_set(a, from) && bit_set(c, from));
        assert(false);
    } else if a & f != 0 {
        assert((((a & !f) | t) & (c & !cap)) == 0);
        assert((((a & !f) | t) & c) == 0);
    } else if c & f != 0 {
        assert((((c & !f) | t) & (a & !cap)) == 0);
        assert((((c & !f) | t) & a) == 0);
    } else {
        assert(((a & !cap) & (c & !cap)) == 0);
        assert(((a & !cap) & c) == 0);
        assert(((c & !cap) & a) == 0);
    }
}

/// Disjointness of two masks survives a promotion when no mask keeps both the
/// origin and the target square.
proof fn lemma_promotion_pair(a: u64, c: u64, m: Move, p1: Piece, p2: Piece)
    requires
        a & c == 0,
        p1 != p2,
        m matches Move::Promotion { from, to, promotion } && (bit_set(a, from) ==> !bit_set(
            a,
            to,
        )) && (bit_set(c, from) ==> !bit_set(c, to)),
        m.wf(),
    ensures
        spec_move_mask(a, m, p1) & spec_move_mask(c, m, p2) == 0,
{
    let from = m.from_sq();
    let to = m.to_sq();
    let promotion = m->Promotion_promotion;
    let f = 1u64 << (from as u64);
    let t = 1u64 << (to as u64);
    lemma_bit_ops();
    lemma_single_bit();
    lemma_disjoint_edits();
    lemma_disjoint_edits_more();
    if a & f != 0 && c & f != 0 {
        assert(bit_set(a, from) && bit_set(c, from));
        assert(false);
    } else if a & f != 0 {
        assert(bit_set(a, from));
        assert(!bit_set(a, to));
        assert(a & t == 0);
        if p2 == promotion {
            assert(((a & !f) & (c | t)) == 0);
        } else {
            assert(((a & !f) & (c & !t)) == 0);
            assert(((a & !f) & c) == 0);
        }
    } else if c & f != 0 {
        assert(bit_set(c, from));
        assert(!bit_set(c, to));
        assert(c & t == 0);
        if p1 == promotion {
            assert(((c & !f) & (a | t)) == 0);
        } else {
            assert(((c & !f) & (a & !t)) == 0);
            assert(((c & !f) & a) == 0);
        }
    } else if p1 == promotion {
        assert(((a | t) & (c & !t)) == 0);
        if c & t == 0 {
            assert(((a | t) & c) == 0);
        }
    } else if p2 == promotion {
        assert(((c | t) & (a & !t)) == 0);
        if a & t == 0 {
            assert(((c | t) & a) == 0);
        }
    } else {
        assert(((a & !t) & (c & !t)) == 0);
        assert(((a & !t) & c) == 0);
        assert(((c & !t) & a) == 0);
    }
}


} // verus!
