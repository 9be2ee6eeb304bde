//! Laws tying the generator and make-move together: every move the generator
//! yields is a valid move value, and committing one keeps the position well
//! formed.

use vstd::prelude::*;

use crate::bits::{bit_set, lemma_bit_ops, lemma_single_bit, FILE_A as FILE_A_L, FILE_H as FILE_H_L, RANK_1, RANK_8};
use crate::board::Board;
use crate::move_service::{
    bc_moves_seq, bk_moves_seq, bn_moves_seq, bp_moves_seq, bq_moves_seq, br_moves_seq,
    bb_moves_seq, bp_se_captures, bp_sw_captures, bp_forward_one, bp_forward_two, bp_promotions,
    bp_promotion_se_captures, bp_promotion_sw_captures, bp_ep_seq, da_moves_rec, first_sq_rec,
    hv_moves_rec, king_span_at, knight_moves_rec, knight_targets, lemma_first_sq_bound,
    normal_targets_rec, pawn_targets_rec, promo_four, promo_targets_rec, queen_moves_rec,
    wb_moves_seq, wc_moves_seq, white_moves_seq, wk_moves_seq, wn_moves_seq, wp_moves_seq,
    wp_ep_seq, wp_forward_one, wp_forward_two, wp_ne_captures, wp_nw_captures, wp_promotions,
    wp_promotion_ne_captures, wp_promotion_nw_captures, wq_moves_seq, wr_moves_seq,
    black_moves_seq, wrap_guard,
};
use crate::moves::Move;
use crate::perft::side_moves;
use crate::pieces::Piece;

verus! {

/// A member of a concatenation is a member of one of its parts.
proof fn lemma_contains_split(s1: Seq<Move>, s2: Seq<Move>, m: Move)
    requires
        (s1 + s2).contains(m),
    ensures
        s1.contains(m) || s2.contains(m),
{
    let i = choose|i: int| 0 <= i < (s1 + s2).len() && (s1 + s2)[i] == m;
    if i < s1.len() {
        assert(s1[i] == m);
    } else {
        assert(s2[i - s1.len()] == m);
    }
}

/// Every move of a target scan is a `Normal` move from the given square onto
/// a set target bit.
proof fn lemma_normal_targets_props(from: u8, targets: u64, n: int, m: Move)
    requires
        from < 64,
        n <= 64,
        normal_targets_rec(from, targets, n).contains(m),
    ensures
        m matches Move::Normal { from: f2, to } && f2 == from && to < 64 && bit_set(targets, to),
    decreases n,
{
    if n > 0 {
        if bit_set(targets, (n - 1) as u8) {
            lemma_contains_split(
                normal_targets_rec(from, targets, n - 1),
                seq![Move::Normal { from, to: (n - 1) as u8 }],
                m,
            );
            if normal_targets_rec(from, targets, n - 1).contains(m) {
                lemma_normal_targets_props(from, targets, n - 1, m);
            } else {
                assert(m == Move::Normal { from, to: (n - 1) as u8 });
            }
        } else {
            lemma_normal_targets_props(from, targets, n - 1, m);
        }
    }
}

/// Every move of a pawn target scan is a `Normal` move onto a set target bit,
/// from the square `delta` away.
proof fn lemma_pawn_targets_props(delta: u8, down: bool, targets: u64, n: int, m: Move)
    requires
        n <= 64,
        pawn_targets_rec(delta, down, targets, n).contains(m),
    ensures
        m matches Move::Normal { from, to } && to < 64 && bit_set(targets, to) && from == (if down {
            (to + delta) as u8
        } else {
            (to - delta) as u8
        }),
    decreases n,
{
    if n > 0 {
        if bit_set(targets, (n - 1) as u8) {
            let to = (n - 1) as u8;
            let from = if down {
                (to + delta) as u8
            } else {
                (to - delta) as u8
            };
            lemma_contains_split(
                pawn_targets_rec(delta, down, targets, n - 1),
                seq![Move::Normal { from, to }],
                m,
            );
            if pawn_targets_rec(delta, down, targets, n - 1).contains(m) {
                lemma_pawn_targets_props(delta, down, targets, n - 1, m);
            }
        } else {
            lemma_pawn_targets_props(delta, down, targets, n - 1, m);
        }
    }
}

/// Every move of a promotion scan is a `Promotion` onto a set target bit,
/// from the square `delta` away, into a piece of the scanning side.
proof fn lemma_promo_targets_props(delta: u8, down: bool, white: bool, targets: u64, n: int, m: Move)
    requires
        n <= 64,
        promo_targets_rec(delta, down, white, targets, n).contains(m),
    ensures
        m matches Move::Promotion { from, to, promotion } && to < 64 && bit_set(targets, to)
            && from == (if down {
            (to + delta) as u8
        } else {
            (to - delta) as u8
        }) && promotion.is_white() == white && promotion != Piece::WhitePawn && promotion
            != Piece::BlackPawn && promotion != Piece::WhiteKing && promotion != Piece::BlackKing,
    decreases n,
{
    if n > 0 {
        if bit_set(targets, (n - 1) as u8) {
            let to = (n - 1) as u8;
            let from = if down {
                (to + delta) as u8
            } else {
                (to - delta) as u8
            };
            lemma_contains_split(
                promo_targets_rec(delta, down, white, targets, n - 1),
                promo_four(from, to, white),
                m,
            );
            if promo_targets_rec(delta, down, white, targets, n - 1).contains(m) {
                lemma_promo_targets_props(delta, down, white, targets, n - 1, m);
            } else {
                let k = choose|k: int|
                    0 <= k < promo_four(from, to, white).len() && promo_four(from, to, white)[k]
                        == m;
                assert(k == 0 || k == 1 || k == 2 || k == 3);
            }
        } else {
            lemma_promo_targets_props(delta, down, white, targets, n - 1, m);
        }
    }
}

/// Every move of a knight scan is a `Normal` move between squares of the
/// board.
proof fn lemma_knight_moves_props(knights: u64, own_pieces: u64, own_king: u64, n: int, m: Move)
    requires
        n <= 64,
        knight_moves_rec(knights, own_pieces, own_king, n).contains(m),
    ensures
        m matches Move::Normal { from, to } && from < 64 && to < 64,
    decreases n,
{
    if n > 0 {
        if bit_set(knights, (n - 1) as u8) {
            lemma_contains_split(
                knight_moves_rec(knights, own_pieces, own_king, n - 1),
                normal_targets_rec(
                    (n - 1) as u8,
                    knight_targets((n - 1) as u8, own_pieces, own_king),
                    64,
                ),
                m,
            );
            if knight_moves_rec(knights, own_pieces, own_king, n - 1).contains(m) {
                lemma_knight_moves_props(knights, own_pieces, own_king, n - 1, m);
            } else {
                lemma_normal_targets_props(
                    (n - 1) as u8,
                    knight_targets((n - 1) as u8, own_pieces, own_king),
                    64,
                    m,
                );
            }
        } else {
            lemma_knight_moves_props(knights, own_pieces, own_king, n - 1, m);
        }
    }
}

/// Every move of a diagonal-slider scan is a `Normal` move between squares of
/// the board.
proof fn lemma_da_moves_props(b: Board, mask: u64, own_pieces: u64, own_king: u64, n: int, m: Move)
    requires
        n <= 64,
        da_moves_rec(b, mask, own_pieces, own_king, n).contains(m),
    ensures
        m matches Move::Normal { from, to } && from < 64 && to < 64,
    decreases n,
{
    if n > 0 {
        if bit_set(mask, (n - 1) as u8) {
            lemma_contains_split(
                da_moves_rec(b, mask, own_pieces, own_king, n - 1),
                normal_targets_rec(
                    (n - 1) as u8,
                    crate::move_service::spec_da(b, (n - 1) as u8) & !own_pieces & !own_king,
                    64,
                ),
                m,
            );
            if da_moves_rec(b, mask, own_pieces, own_king, n - 1).contains(m) {
                lemma_da_moves_props(b, mask, own_pieces, own_king, n - 1, m);
            } else {
                lemma_normal_targets_props(
                    (n - 1) as u8,
                    crate::move_service::spec_da(b, (n - 1) as u8) & !own_pieces & !own_king,
                    64,
                    m,
                );
            }
        } else {
            lemma_da_moves_props(b, mask, own_pieces, own_king, n - 1, m);
        }
    }
}

/// Every move of a rank/file-slider scan is a `Normal` move between squares
/// of the board.
proof fn lemma_hv_moves_props(b: Board, mask: u64, own_pieces: u64, own_king: u64, n: int, m: Move)
    requires
        n <= 64,
        hv_moves_rec(b, mask, own_pieces, own_king, n).contains(m),
    ensures
        m matches Move::Normal { from, to } && from < 64 && to < 64,
    decreases n,
{
    if n > 0 {
        if bit_set(mask, (n - 1) as u8) {
            lemma_contains_split(
                hv_moves_rec(b, mask, own_pieces, own_king, n - 1),
                normal_targets_rec(
                    (n - 1) as u8,
                    crate::move_service::spec_hv(b, (n - 1) as u8) & !own_pieces & !own_king,
                    64,
                ),
                m,
            );
            if hv_moves_rec(b, mask, own_pieces, own_king, n - 1).contains(m) {
                lemma_hv_moves_props(b, mask, own_pieces, own_king, n - 1, m);
            } else {
                lemma_normal_targets_props(
                    (n - 1) as u8,
                    crate::move_service::spec_hv(b, (n - 1) as u8) & !own_pieces & !own_king,
                    64,
                    m,
                );
            }
        } else {
            lemma_hv_moves_props(b, mask, own_pieces, own_king, n - 1, m);
        }
    }
}

/// Every move of a queen scan is a `Normal` move between squares of the
/// board.
proof fn lemma_queen_moves_props(
    b: Board,
    mask: u64,
    own_pieces: u64,
    own_king: u64,
    n: int,
    m: Move,
)
    requires
        n <= 64,
        queen_moves_rec(b, mask, own_pieces, own_king, n).contains(m),
    ensures
        m matches Move::Normal { from, to } && from < 64 && to < 64,
    decreases n,
{
    if n > 0 {
        if bit_set(mask, (n - 1) as u8) {
            let targets = (crate::move_service::spec_hv(b, (n - 1) as u8)
                | crate::move_service::spec_da(b, (n - 1) as u8)) & !own_pieces & !own_king;
            lemma_contains_split(
                queen_moves_rec(b, mask, own_pieces, own_king, n - 1),
                normal_targets_rec((n - 1) as u8, targets, 64),
                m,
            );
            if queen_moves_rec(b, mask, own_pieces, own_king, n - 1).contains(m) {
                lemma_queen_moves_props(b, mask, own_pieces, own_king, n - 1, m);
            } else {
                lemma_normal_targets_props((n - 1) as u8, targets, 64, m);
            }
        } else {
            lemma_queen_moves_props(b, mask, own_pieces, own_king, n - 1, m);
        }
    }
}

/// The castling guards read back: a square under neither attack nor occupancy
/// is empty.
proof fn lemma_castle_empty()
    by (bit_vector)
    ensures
        forall|x: u64, y: u64, t: u64|
            #![trigger (x | y) & t]
            (x | y) & t == 0 ==> (y & t) == 0,
        forall|e: u64, i: u8|
            i < 64 && ((!e) & (1u64 << (i as u64))) == 0 ==> bit_set(e, i),
{
}

/// A white pawn mask bit at the move's origin is the only mask bit there, and
/// the capture target belongs to black, so no white mask holds it.
proof fn lemma_white_promo_premise(b: Board, from: u8, to: u8)
    requires
        b.wf(),
        from < 64,
        to < 64,
        bit_set(b.white_pawns, from),
        bit_set(b.empty_squares, to) || bit_set(b.black_pieces, to),
    ensures
        forall|p: Piece|
            bit_set(#[trigger] b.piece_mask(p), from) ==> !bit_set(b.piece_mask(p), to),
{
    lemma_bit_ops();
    lemma_single_bit();
    if bit_set(b.empty_squares, to) {
        b.lemma_empty_square_clear(to);
    } else {
        assert forall|p: Piece|
            bit_set(#[trigger] b.piece_mask(p), from) implies !bit_set(b.piece_mask(p), to) by {
            if p != Piece::WhitePawn {
                assert(b.piece_mask(p) & b.piece_mask(Piece::WhitePawn) == 0);
                assert(false);
            }
            assert(bit_set(
                b.black_pawns | b.black_knights | b.black_bishops | b.black_rooks
                    | b.black_queens,
                to,
            ));
            if bit_set(b.black_pawns, to) {
                assert(b.piece_mask(Piece::WhitePawn) & b.piece_mask(Piece::BlackPawn) == 0);
            } else if bit_set(b.black_knights, to) {
                assert(b.piece_mask(Piece::WhitePawn) & b.piece_mask(Piece::BlackKnight) == 0);
            } else if bit_set(b.black_bishops, to) {
                assert(b.piece_mask(Piece::WhitePawn) & b.piece_mask(Piece::BlackBishop) == 0);
            } else if bit_set(b.black_rooks, to) {
                assert(b.piece_mask(Piece::WhitePawn) & b.piece_mask(Piece::BlackRook) == 0);
            } else {
                assert(b.piece_mask(Piece::WhitePawn) & b.piece_mask(Piece::BlackQueen) == 0);
            }
        }
    }
}

/// A black pawn mask bit at the move's origin is the only mask bit there, and
/// the capture target belongs to white, so no black mask holds it.
proof fn lemma_black_promo_premise(b: Board, from: u8, to: u8)
    requires
        b.wf(),
        from < 64,
        to < 64,
        bit_set(b.black_pawns, from),
        bit_set(b.empty_squares, to) || bit_set(b.white_pieces, to),
    ensures
        forall|p: Piece|
            bit_set(#[trigger] b.piece_mask(p), from) ==> !bit_set(b.piece_mask(p), to),
{
    lemma_bit_ops();
    lemma_single_bit();
    if bit_set(b.empty_squares, to) {
        b.lemma_empty_square_clear(to);
    } else {
        assert forall|p: Piece|
            bit_set(#[trigger] b.piece_mask(p), from) implies !bit_set(b.piece_mask(p), to) by {
            if p != Piece::BlackPawn {
                assert(b.piece_mask(p) & b.piece_mask(Piece::BlackPawn) == 0);
                assert(false);
            }
            assert(bit_set(
                b.white_pawns | b.white_knights | b.white_bishops | b.white_rooks
                    | b.white_queens,
                to,
            ));
            if bit_set(b.white_pawns, to) {
                assert(b.piece_mask(Piece::BlackPawn) & b.piece_mask(Piece::WhitePawn) == 0);
            } else if bit_set(b.white_knights, to) {
                assert(b.piece_mask(Piece::BlackPawn) & b.piece_mask(Piece::WhiteKnight) == 0);
            } else if bit_set(b.white_bishops, to) {
                assert(b.piece_mask(Piece::BlackPawn) & b.piece_mask(Piece::WhiteBishop) == 0);
            } else if bit_set(b.white_rooks, to) {
                assert(b.piece_mask(Piece::BlackPawn) & b.piece_mask(Piece::WhiteRook) == 0);
            } else {
                assert(b.piece_mask(Piece::BlackPawn) & b.piece_mask(Piece::WhiteQueen) == 0);
            }
        }
    }
}

/// What membership in the white move list gives: the move is a valid value;
/// a castle lands the king and rook on empty squares; a promotion leaves no
/// mask holding both its origin and its target.
proof fn lemma_white_member(b: Board, m: Move)
    requires
        b.wf(),
        white_moves_seq(b).contains(m),
    ensures
        m.wf(),
        m matches Move::Castle { from, to, rook: _ } ==> bit_set(b.empty_squares, to) && bit_set(
            b.empty_squares,
            if to > from {
                (to - 1) as u8
            } else {
                (to + 1) as u8
            },
        ),
        m matches Move::Promotion { from, to, promotion: _ } ==> forall|p: Piece|
            bit_set(#[trigger] b.piece_mask(p), from) ==> !bit_set(b.piece_mask(p), to),
{
    let s1 = wp_moves_seq(b);
    let s2 = wk_moves_seq(b);
    let s3 = wq_moves_seq(b);
    let s4 = wr_moves_seq(b);
    let s5 = wb_moves_seq(b);
    let s6 = wn_moves_seq(b);
    let s7 = wc_moves_seq(b);
    lemma_bit_ops();
    lemma_single_bit();
    lemma_contains_split(s1 + s2 + s3 + s4 + s5 + s6, s7, m);
    if (s1 + s2 + s3 + s4 + s5 + s6).contains(m) {
        lemma_contains_split(s1 + s2 + s3 + s4 + s5, s6, m);
        if (s1 + s2 + s3 + s4 + s5).contains(m) {
            lemma_contains_split(s1 + s2 + s3 + s4, s5, m);
            if (s1 + s2 + s3 + s4).contains(m) {
                lemma_contains_split(s1 + s2 + s3, s4, m);
                if (s1 + s2 + s3).contains(m) {
                    lemma_contains_split(s1 + s2, s3, m);
                    if (s1 + s2).contains(m) {
                        lemma_contains_split(s1, s2, m);
                        if s1.contains(m) {
                            lemma_wp_member(b, m);
                        } else {
                            // king moves
                            match first_sq_rec(b.white_king, 64) {
                                Some(i) => {
                                    lemma_first_sq_bound(b.white_king, 64);
                                    lemma_normal_targets_props(
                                        i,
                                        (king_span_at(i) & (wrap_guard(i) & !b.white_pieces))
                                            & !crate::move_service::spec_unsafe_w(b),
                                        64,
                                        m,
                                    );
                                },
                                None => {},
                            }
                        }
                    } else {
                        lemma_queen_moves_props(
                            b,
                            b.white_queens,
                            b.white_pieces,
                            b.white_king,
                            64,
                            m,
                        );
                    }
                } else {
                    lemma_hv_moves_props(b, b.white_rooks, b.white_pieces, b.white_king, 64, m);
                }
            } else {
                lemma_da_moves_props(b, b.white_bishops, b.white_pieces, b.white_king, 64, m);
            }
        } else {
            lemma_knight_moves_props(b.white_knights, b.white_pieces, b.white_king, 64, m);
        }
    } else {
        // castles: the guards of the emitted moves include the empty squares
        lemma_castle_empty();
        let us = crate::move_service::spec_unsafe_w(b);
        let kingside = if b.white_castle_kingside && us & (1u64 << 4) == 0 && (us
            | !b.empty_squares) & (1u64 << 5) == 0 && (us | !b.empty_squares) & (1u64 << 6) == 0
            && b.white_rooks & (1u64 << 7) != 0 {
            seq![Move::Castle { from: 4u8, to: 6u8, rook: 7u8 }]
        } else {
            Seq::<Move>::empty()
        };
        let queenside = if b.white_castle_queenside && b.white_rooks & (1u64 << 0) != 0
            && !b.empty_squares & (1u64 << 1) == 0 && (us | !b.empty_squares) & (1u64 << 2) == 0
            && (us | !b.empty_squares) & (1u64 << 3) == 0 && us & (1u64 << 4) == 0 {
            seq![Move::Castle { from: 4u8, to: 2u8, rook: 0u8 }]
        } else {
            Seq::<Move>::empty()
        };
        assert(wc_moves_seq(b) == kingside + queenside);
        lemma_contains_split(kingside, queenside, m);
        if kingside.contains(m) {
            assert(m == Move::Castle { from: 4u8, to: 6u8, rook: 7u8 });
            assert(((!b.empty_squares) & (1u64 << 5)) == 0);
            assert(((!b.empty_squares) & (1u64 << 6)) == 0);
            assert(bit_set(b.empty_squares, 5) && bit_set(b.empty_squares, 6));
        } else {
            assert(m == Move::Castle { from: 4u8, to: 2u8, rook: 0u8 });
            assert(((!b.empty_squares) & (1u64 << 2)) == 0);
            assert(((!b.empty_squares) & (1u64 << 3)) == 0);
            assert(bit_set(b.empty_squares, 2) && bit_set(b.empty_squares, 3));
        }
    }
}

/// What membership in the white pawn move list gives.
proof fn lemma_wp_member(b: Board, m: Move)
    requires
        b.wf(),
        wp_moves_seq(b).contains(m),
    ensures
        m.wf(),
        !(m is Castle),
        m matches Move::Promotion { from, to, promotion: _ } ==> forall|p: Piece|
            bit_set(#[trigger] b.piece_mask(p), from) ==> !bit_set(b.piece_mask(p), to),
{
    let c1 = pawn_targets_rec(9, false, wp_ne_captures(b), 64);
    let c2 = pawn_targets_rec(7, false, wp_nw_captures(b), 64);
    let c3 = pawn_targets_rec(8, false, wp_forward_one(b), 64);
    let c4 = pawn_targets_rec(16, false, wp_forward_two(b), 64);
    let c5 = promo_targets_rec(8, false, true, wp_promotions(b), 64);
    let c6 = promo_targets_rec(9, false, true, wp_promotion_ne_captures(b), 64);
    let c7 = promo_targets_rec(7, false, true, wp_promotion_nw_captures(b), 64);
    let c8 = wp_ep_seq(b);
    lemma_bit_ops();
    lemma_single_bit();
    lemma_contains_split(c1 + c2 + c3 + c4 + c5 + c6 + c7, c8, m);
    if (c1 + c2 + c3 + c4 + c5 + c6 + c7).contains(m) {
        lemma_contains_split(c1 + c2 + c3 + c4 + c5 + c6, c7, m);
        if (c1 + c2 + c3 + c4 + c5 + c6).contains(m) {
            lemma_contains_split(c1 + c2 + c3 + c4 + c5, c6, m);
            if (c1 + c2 + c3 + c4 + c5).contains(m) {
                lemma_contains_split(c1 + c2 + c3 + c4, c5, m);
                if (c1 + c2 + c3 + c4).contains(m) {
                    lemma_contains_split(c1 + c2 + c3, c4, m);
                    if (c1 + c2 + c3).contains(m) {
                        lemma_contains_split(c1 + c2, c3, m);
                        if (c1 + c2).contains(m) {
                            lemma_contains_split(c1, c2, m);
                            if c1.contains(m) {
                                lemma_pawn_targets_props(9, false, wp_ne_captures(b), 64, m);
                            } else {
                                lemma_pawn_targets_props(7, false, wp_nw_captures(b), 64, m);
                            }
                        } else {
                            lemma_pawn_targets_props(8, false, wp_forward_one(b), 64, m);
                        }
                    } else {
                        lemma_pawn_targets_props(16, false, wp_forward_two(b), 64, m);
                    }
                } else {
                    lemma_promo_targets_props(8, false, true, wp_promotions(b), 64, m);
                    let to = m.to_sq();
                    let from = m.from_sq();
                    assert(bit_set(b.empty_squares, to) && bit_set(b.white_pawns, from));
                    lemma_white_promo_premise(b, from, to);
                }
            } else {
                lemma_promo_targets_props(9, false, true, wp_promotion_ne_captures(b), 64, m);
                let to = m.to_sq();
                let from = m.from_sq();
                assert(bit_set(b.black_pieces, to) && bit_set(b.white_pawns, from));
                lemma_white_promo_premise(b, from, to);
            }
        } else {
            lemma_promo_targets_props(7, false, true, wp_promotion_nw_captures(b), 64, m);
            let to = m.to_sq();
            let from = m.from_sq();
            assert(bit_set(b.black_pieces, to) && bit_set(b.white_pawns, from));
            lemma_white_promo_premise(b, from, to);
        }
    } else {
        // en-passant captures: the target lies off rank 1, nine (or seven)
        // squares up from a pawn
        match b.en_passant {
            None => {},
            Some(e) => {
                let ne = if ((b.white_pawns << 9u64) & !FILE_A_L & !RANK_1 & (1u64 << (e as u64)))
                    != 0 && b.white_turn {
                    seq![
                        Move::EnPassant { from: (e - 9) as u8, to: e, captured: (e - 8) as u8 },
                    ]
                } else {
                    Seq::<Move>::empty()
                };
                let nw = if ((b.white_pawns << 7u64) & !FILE_H_L & !RANK_1 & (1u64 << (e as u64)))
                    != 0 && b.white_turn {
                    seq![
                        Move::EnPassant { from: (e - 7) as u8, to: e, captured: (e - 8) as u8 },
                    ]
                } else {
                    Seq::<Move>::empty()
                };
                lemma_contains_split(ne, nw, m);
                if ne.contains(m) {
                    assert(bit_set((b.white_pawns << 9u64) & !FILE_A_L & !RANK_1, e));
                } else {
                    assert(bit_set((b.white_pawns << 7u64) & !FILE_H_L & !RANK_1, e));
                    assert(e >= 8) by (bit_vector)
                        requires
                            bit_set(!RANK_1, e),
                            e < 64,
                    ;
                }
            },
        }
    }
}

/// What membership in the black move list gives: the move is a valid value;
/// a castle lands the king and rook on empty squares; a promotion leaves no
/// mask holding both its origin and its target.
proof fn lemma_black_member(b: Board, m: Move)
    requires
        b.wf(),
        black_moves_seq(b).contains(m),
    ensures
        m.wf(),
        m matches Move::Castle { from, to, rook: _ } ==> bit_set(b.empty_squares, to) && bit_set(
            b.empty_squares,
            if to > from {
                (to - 1) as u8
            } else {
                (to + 1) as u8
            },
        ),
        m matches Move::Promotion { from, to, promotion: _ } ==> forall|p: Piece|
            bit_set(#[trigger] b.piece_mask(p), from) ==> !bit_set(b.piece_mask(p), to),
{
    let s1 = bp_moves_seq(b);
    let s2 = bk_moves_seq(b);
    let s3 = bq_moves_seq(b);
    let s4 = br_moves_seq(b);
    let s5 = bb_moves_seq(b);
    let s6 = bn_moves_seq(b);
    let s7 = bc_moves_seq(b);
    lemma_bit_ops();
    lemma_single_bit();
    lemma_contains_split(s1 + s2 + s3 + s4 + s5 + s6, s7, m);
    if (s1 + s2 + s3 + s4 + s5 + s6).contains(m) {
        lemma_contains_split(s1 + s2 + s3 + s4 + s5, s6, m);
        if (s1 + s2 + s3 + s4 + s5).contains(m) {
            lemma_contains_split(s1 + s2 + s3 + s4, s5, m);
            if (s1 + s2 + s3 + s4).contains(m) {
                lemma_contains_split(s1 + s2 + s3, s4, m);
                if (s1 + s2 + s3).contains(m) {
                    lemma_contains_split(s1 + s2, s3, m);
                    if (s1 + s2).contains(m) {
                        lemma_contains_split(s1, s2, m);
                        if s1.contains(m) {
                            lemma_bp_member(b, m);
                        } else {
                            match first_sq_rec(b.black_king, 64) {
                                Some(i) => {
                                    lemma_first_sq_bound(b.black_king, 64);
                                    lemma_normal_targets_props(
                                        i,
                                        (king_span_at(i) & (wrap_guard(i) & !b.black_pieces))
                                            & !crate::move_service::spec_unsafe_b(b),
                                        64,
                                        m,
                                    );
                                },
                                None => {},
                            }
                        }
                    } else {
                        lemma_queen_moves_props(
                            b,
                            b.black_queens,
                            b.black_pieces,
                            b.black_king,
                            64,
                            m,
                        );
                    }
                } else {
                    lemma_hv_moves_props(b, b.black_rooks, b.black_pieces, b.black_king, 64, m);
                }
            } else {
                lemma_da_moves_props(b, b.black_bishops, b.black_pieces, b.black_king, 64, m);
            }
        } else {
            lemma_knight_moves_props(b.black_knights, b.black_pieces, b.black_king, 64, m);
        }
    } else {
        lemma_castle_empty();
        let us = crate::move_service::spec_unsafe_b(b);
        let kingside = if b.black_castle_kingside && us & (1u64 << 60) == 0 && (us
            | !b.empty_squares) & (1u64 << 61) == 0 && (us | !b.empty_squares) & (1u64 << 62) == 0
            && b.black_rooks & (1u64 << 63) != 0 {
            seq![Move::Castle { from: 60u8, to: 62u8, rook: 63u8 }]
        } else {
            Seq::<Move>::empty()
        };
        let queenside = if b.black_castle_queenside && b.black_rooks & (1u64 << 56) != 0
            && !b.empty_squares & (1u64 << 57) == 0 && (us | !b.empty_squares) & (1u64 << 58) == 0
            && (us | !b.empty_squares) & (1u64 << 59) == 0 && us & (1u64 << 60) == 0 {
            seq![Move::Castle { from: 60u8, to: 58u8, rook: 56u8 }]
        } else {
            Seq::<Move>::empty()
        };
        assert(bc_moves_seq(b) == kingside + queenside);
        lemma_contains_split(kingside, queenside, m);
        if kingside.contains(m) {
            assert(m == Move::Castle { from: 60u8, to: 62u8, rook: 63u8 });
            assert(((!b.empty_squares) & (1u64 << 61)) == 0);
            assert(((!b.empty_squares) & (1u64 << 62)) == 0);
            assert(bit_set(b.empty_squares, 61) && bit_set(b.empty_squares, 62));
        } else {
            assert(m == Move::Castle { from: 60u8, to: 58u8, rook: 56u8 });
            assert(((!b.empty_squares) & (1u64 << 58)) == 0);
            assert(((!b.empty_squares) & (1u64 << 59)) == 0);
            assert(bit_set(b.empty_squares, 58) && bit_set(b.empty_squares, 59));
        }
    }
}

/// What membership in the black pawn move list gives.
proof fn lemma_bp_member(b: Board, m: Move)
    requires
        b.wf(),
        bp_moves_seq(b).contains(m),
    ensures
        m.wf(),
        !(m is Castle),
        m matches Move::Promotion { from, to, promotion: _ } ==> forall|p: Piece|
            bit_set(#[trigger] b.piece_mask(p), from) ==> !bit_set(b.piece_mask(p), to),
{
    let c1 = pawn_targets_rec(7, true, bp_se_captures(b), 64);
    let c2 = pawn_targets_rec(9, true, bp_sw_captures(b), 64);
    let c3 = pawn_targets_rec(8, true, bp_forward_one(b), 64);
    let c4 = pawn_targets_rec(16, true, bp_forward_two(b), 64);
    let c5 = promo_targets_rec(8, true, false, bp_promotions(b), 64);
    let c6 = promo_targets_rec(7, true, false, bp_promotion_se_captures(b), 64);
    let c7 = promo_targets_rec(9, true, false, bp_promotion_sw_captures(b), 64);
    let c8 = bp_ep_seq(b);
    lemma_bit_ops();
    lemma_single_bit();
    lemma_contains_split(c1 + c2 + c3 + c4 + c5 + c6 + c7, c8, m);
    if (c1 + c2 + c3 + c4 + c5 + c6 + c7).contains(m) {
        lemma_contains_split(c1 + c2 + c3 + c4 + c5 + c6, c7, m);
        if (c1 + c2 + c3 + c4 + c5 + c6).contains(m) {
            lemma_contains_split(c1 + c2 + c3 + c4 + c5, c6, m);
            if (c1 + c2 + c3 + c4 + c5).contains(m) {
                lemma_contains_split(c1 + c2 + c3 + c4, c5, m);
                if (c1 + c2 + c3 + c4).contains(m) {
                    lemma_contains_split(c1 + c2 + c3, c4, m);
                    if (c1 + c2 + c3).contains(m) {
                        lemma_contains_split(c1 + c2, c3, m);
                        if (c1 + c2).contains(m) {
                            lemma_contains_split(c1, c2, m);
                            if c1.contains(m) {
                                lemma_pawn_targets_props(7, true, bp_se_captures(b), 64, m);
                            } else {
                                lemma_pawn_targets_props(9, true, bp_sw_captures(b), 64, m);
                            }
                        } else {
                            lemma_pawn_targets_props(8, true, bp_forward_one(b), 64, m);
                        }
                    } else {
                        lemma_pawn_targets_props(16, true, bp_forward_two(b), 64, m);
                    }
                } else {
                    lemma_promo_targets_props(8, true, false, bp_promotions(b), 64, m);
                    let to = m.to_sq();
                    let from = m.from_sq();
                    assert(bit_set(b.empty_squares, to) && bit_set(b.black_pawns, from));
                    lemma_black_promo_premise(b, from, to);
                }
            } else {
                lemma_promo_targets_props(7, true, false, bp_promotion_se_captures(b), 64, m);
                let to = m.to_sq();
                let from = m.from_sq();
                assert(bit_set(b.white_pieces, to) && bit_set(b.black_pawns, from));
                lemma_black_promo_premise(b, from, to);
            }
        } else {
            lemma_promo_targets_props(9, true, false, bp_promotion_sw_captures(b), 64, m);
            let to = m.to_sq();
            let from = m.from_sq();
            assert(bit_set(b.white_pieces, to) && bit_set(b.black_pawns, from));
            lemma_black_promo_premise(b, from, to);
        }
    } else {
        match b.en_passant {
            None => {},
            Some(e) => {
                let sw = if ((b.black_pawns >> 9u64) & !FILE_H_L & !RANK_8 & (1u64 << (e as u64)))
                    != 0 && !b.white_turn {
                    seq![
                        Move::EnPassant { from: (e + 9) as u8, to: e, captured: (e + 8) as u8 },
                    ]
                } else {
                    Seq::<Move>::empty()
                };
                let se = if ((b.black_pawns >> 7u64) & !FILE_A_L & !RANK_8 & (1u64 << (e as u64)))
                    != 0 && !b.white_turn {
                    seq![
                        Move::EnPassant { from: (e + 7) as u8, to: e, captured: (e + 8) as u8 },
                    ]
                } else {
                    Seq::<Move>::empty()
                };
                lemma_contains_split(sw, se, m);
                if sw.contains(m) {
                    assert(bit_set((b.black_pawns >> 9u64) & !FILE_H_L & !RANK_8, e));
                } else {
                    assert(bit_set((b.black_pawns >> 7u64) & !FILE_A_L & !RANK_8, e));
                    assert(e < 56) by (bit_vector)
                        requires
                            bit_set(!RANK_8, e),
                            e < 64,
                    ;
                }
            },
        }
    }
}

/// Every move the generator yields for the side to move is a valid move
/// value, and committing it keeps the position well formed: the piece masks
/// stay pairwise disjoint and the aggregate masks and en-passant target match
/// their definitions. For an en-passant capture the position must keep its
/// target square empty, as every position arising from a two-square pawn
/// advance does; a parsed position may break that promise.
pub proof fn lemma_generated_move_keeps_wf(b: Board, m: Move)
    requires
        b.wf(),
        side_moves(b).contains(m),
        m matches Move::EnPassant { from: _, to, captured: _ } ==> bit_set(b.empty_squares, to),
    ensures
        m.wf(),
        b.spec_make(m) matches Ok(nb) ==> nb.wf(),
{
    if b.white_turn {
        lemma_white_member(b, m);
    } else {
        lemma_black_member(b, m);
    }
    b.lemma_make_move_keeps_wf(m);
}

} // verus!
