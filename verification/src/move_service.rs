//! The move generator: sliding-attack primitives, attack (unsafe-square)
//! masks, and the per-piece pseudo-legal move enumerators.

use vstd::prelude::*;

use crate::bits::{
    bit_set, lemma_bit_ops, rev64, spec_anti_diagonal_mask, spec_diagonal_mask, spec_file_mask,
    spec_rank_mask, anti_diagonal_mask, diagonal_mask, file_mask, rank_mask, FILE_A, FILE_B,
    FILE_G, FILE_H, KING_SPAN, KNIGHT_SPAN, NOT_RANK_1_2, NOT_RANK_1_8,
    NOT_RANK_7_8, RANK_1, RANK_2, RANK_7, RANK_8,
};
use crate::board::Board;
use crate::moves::Move;
use crate::pieces::Piece;

verus! {

/// The pseudo-legal move generator. All methods are static: a board is read,
/// never changed.
pub struct MoveService {}

/// The squares a horizontal/vertical slider on `position` can reach, sliding
/// until (and including) the first occupied square in each of the four
/// directions: the o^(o-2s) subtraction trick applied to the slider's rank and
/// file, with wrap-around subtraction.
pub open spec fn spec_hv(b: Board, position: u8) -> u64 {
    let slider = 1u64 << (position as u64);
    let occupied = !b.empty_squares;
    let file = occupied & spec_file_mask(position as int % 8);
    let horizontal = occupied.wrapping_sub(2u64.wrapping_mul(slider)) ^ rev64(
        rev64(occupied).wrapping_sub(2u64.wrapping_mul(rev64(slider))),
    );
    let vertical = file.wrapping_sub(2u64.wrapping_mul(slider)) ^ rev64(
        rev64(file).wrapping_sub(2u64.wrapping_mul(rev64(slider))),
    );
    (horizontal & spec_rank_mask(position as int / 8)) | (vertical & spec_file_mask(
        position as int % 8,
    ))
}

/// The squares a diagonal slider on `position` can reach, sliding until (and
/// including) the first occupied square: the o^(o-2s) trick applied to the
/// slider's diagonal and anti-diagonal.
pub open spec fn spec_da(b: Board, position: u8) -> u64 {
    let slider = 1u64 << (position as u64);
    let occupied = !b.empty_squares;
    let diag = occupied & spec_diagonal_mask(position as int / 8 + position as int % 8);
    let anti = occupied & spec_anti_diagonal_mask(position as int / 8 + 7 - position as int % 8);
    let diagonal = diag.wrapping_sub(2u64.wrapping_mul(slider)) ^ rev64(
        rev64(diag).wrapping_sub(2u64.wrapping_mul(rev64(slider))),
    );
    let anti_diagonal = anti.wrapping_sub(2u64.wrapping_mul(slider)) ^ rev64(
        rev64(anti).wrapping_sub(2u64.wrapping_mul(rev64(slider))),
    );
    (diagonal & spec_diagonal_mask(position as int / 8 + position as int % 8)) | (anti_diagonal
        & spec_anti_diagonal_mask(position as int / 8 + 7 - position as int % 8))
}

/// The attack pattern of a knight on square `i` before edge masking: the seed
/// pattern shifted from its center at square 18.
pub open spec fn knight_span_at(i: u8) -> u64 {
    if i > 18 {
        KNIGHT_SPAN << ((i - 18) as u64)
    } else {
        KNIGHT_SPAN >> ((18 - i) as u64)
    }
}

/// The attack pattern of a king on square `i` before edge masking: the seed
/// pattern shifted from its center at square 9.
pub open spec fn king_span_at(i: u8) -> u64 {
    if i > 9 {
        KING_SPAN << ((i - 9) as u64)
    } else {
        KING_SPAN >> ((9 - i) as u64)
    }
}

/// The file-wrap guard for a shifted attack seed: a piece on files a-d keeps
/// only targets off the g- and h-files, a piece on files e-h keeps only
/// targets off the a- and b-files.
pub open spec fn wrap_guard(i: u8) -> u64 {
    if i % 8 < 4 {
        !(FILE_G | FILE_H)
    } else {
        !(FILE_A | FILE_B)
    }
}

/// The squares attacked by a knight on `i`, excluding squares its own side
/// occupies.
pub open spec fn knight_targets(i: u8, own_pieces: u64, own_king: u64) -> u64 {
    knight_span_at(i) & (wrap_guard(i) & !own_pieces & !own_king)
}

/// `acc` joined with the attacks of every knight of `knights` on a square
/// below `n`.
pub open spec fn knight_att_acc(acc: u64, knights: u64, own_pieces: u64, own_king: u64, n: int) -> u64
    decreases n,
{
    if n <= 0 {
        acc
    } else if bit_set(knights, (n - 1) as u8) {
        knight_att_acc(acc, knights, own_pieces, own_king, n - 1) | knight_targets(
            (n - 1) as u8,
            own_pieces,
            own_king,
        )
    } else {
        knight_att_acc(acc, knights, own_pieces, own_king, n - 1)
    }
}

/// `acc` joined with the diagonal attack sets of every piece of `mask` on a
/// square below `n`.
pub open spec fn da_att_acc(acc: u64, b: Board, mask: u64, n: int) -> u64
    decreases n,
{
    if n <= 0 {
        acc
    } else if bit_set(mask, (n - 1) as u8) {
        da_att_acc(acc, b, mask, n - 1) | spec_da(b, (n - 1) as u8)
    } else {
        da_att_acc(acc, b, mask, n - 1)
    }
}

/// `acc` joined with the rank/file attack sets of every piece of `mask` on a
/// square below `n`.
pub open spec fn hv_att_acc(acc: u64, b: Board, mask: u64, n: int) -> u64
    decreases n,
{
    if n <= 0 {
        acc
    } else if bit_set(mask, (n - 1) as u8) {
        hv_att_acc(acc, b, mask, n - 1) | spec_hv(b, (n - 1) as u8)
    } else {
        hv_att_acc(acc, b, mask, n - 1)
    }
}

/// `acc` joined with the attacks of every king of `kings` on a square below
/// `n`.
pub open spec fn king_att_acc(acc: u64, kings: u64, n: int) -> u64
    decreases n,
{
    if n <= 0 {
        acc
    } else if bit_set(kings, (n - 1) as u8) {
        king_att_acc(acc, kings, n - 1) | (king_span_at((n - 1) as u8) & wrap_guard((n - 1) as u8))
    } else {
        king_att_acc(acc, kings, n - 1)
    }
}

/// The union of the squares black attacks: pawn captures toward the south,
/// then knight, diagonal-slider, rank/file-slider and king attacks.
pub open spec fn spec_unsafe_w(b: Board) -> u64 {
    let pawns = ((b.black_pawns >> 7u64) & !FILE_A) | ((b.black_pawns >> 9u64) & !FILE_H);
    let kn = knight_att_acc(pawns, b.black_knights, b.black_pieces, b.black_king, 64);
    let da = da_att_acc(kn, b, b.black_bishops | b.black_queens, 64);
    let hv = hv_att_acc(da, b, b.black_rooks | b.black_queens, 64);
    king_att_acc(hv, b.black_king, 64)
}

/// The union of the squares white attacks: pawn captures toward the north,
/// then knight, diagonal-slider, rank/file-slider and king attacks.
pub open spec fn spec_unsafe_b(b: Board) -> u64 {
    let pawns = ((b.white_pawns << 7u64) & !FILE_H) | ((b.white_pawns << 9u64) & !FILE_A);
    let kn = knight_att_acc(pawns, b.white_knights, b.white_pieces, b.white_king, 64);
    let da = da_att_acc(kn, b, b.white_bishops | b.white_queens, 64);
    let hv = hv_att_acc(da, b, b.white_rooks | b.white_queens, 64);
    king_att_acc(hv, b.white_king, 64)
}


/// The `Normal` moves from `from` onto every target square below `n`, in
/// ascending square order.
pub open spec fn normal_targets_rec(from: u8, targets: u64, n: int) -> Seq<Move>
    decreases n,
{
    if n <= 0 {
        Seq::empty()
    } else if bit_set(targets, (n - 1) as u8) {
        normal_targets_rec(from, targets, n - 1) + seq![Move::Normal { from, to: (n - 1) as u8 }]
    } else {
        normal_targets_rec(from, targets, n - 1)
    }
}

/// The pawn `Normal` moves onto every target square below `n`, in ascending
/// square order; the origin lies `delta` squares below the target (or above
/// it, for a side moving down the board).
pub open spec fn pawn_targets_rec(delta: u8, down: bool, targets: u64, n: int) -> Seq<Move>
    decreases n,
{
    if n <= 0 {
        Seq::empty()
    } else if bit_set(targets, (n - 1) as u8) {
        let to = (n - 1) as u8;
        let from = if down {
            (to + delta) as u8
        } else {
            (to - delta) as u8
        };
        pawn_targets_rec(delta, down, targets, n - 1) + seq![Move::Normal { from, to }]
    } else {
        pawn_targets_rec(delta, down, targets, n - 1)
    }
}

/// The four promotions (bishop, knight, rook, queen) of one pawn arriving on
/// `to`.
pub open spec fn promo_four(from: u8, to: u8, white: bool) -> Seq<Move> {
    if white {
        seq![
            Move::Promotion { from, to, promotion: Piece::WhiteBishop },
            Move::Promotion { from, to, promotion: Piece::WhiteKnight },
            Move::Promotion { from, to, promotion: Piece::WhiteRook },
            Move::Promotion { from, to, promotion: Piece::WhiteQueen },
        ]
    } else {
        seq![
            Move::Promotion { from, to, promotion: Piece::BlackBishop },
            Move::Promotion { from, to, promotion: Piece::BlackKnight },
            Move::Promotion { from, to, promotion: Piece::BlackRook },
            Move::Promotion { from, to, promotion: Piece::BlackQueen },
        ]
    }
}

/// The promotion moves onto every target square below `n`, four per square, in
/// ascending square order.
pub open spec fn promo_targets_rec(delta: u8, down: bool, white: bool, targets: u64, n: int) -> Seq<
    Move,
>
    decreases n,
{
    if n <= 0 {
        Seq::empty()
    } else if bit_set(targets, (n - 1) as u8) {
        let to = (n - 1) as u8;
        let from = if down {
            (to + delta) as u8
        } else {
            (to - delta) as u8
        };
        promo_targets_rec(delta, down, white, targets, n - 1) + promo_four(from, to, white)
    } else {
        promo_targets_rec(delta, down, white, targets, n - 1)
    }
}

/// The knight moves of every knight of `knights` on a square below `n`.
pub open spec fn knight_moves_rec(knights: u64, own_pieces: u64, own_king: u64, n: int) -> Seq<
    Move,
>
    decreases n,
{
    if n <= 0 {
        Seq::empty()
    } else if bit_set(knights, (n - 1) as u8) {
        knight_moves_rec(knights, own_pieces, own_king, n - 1) + normal_targets_rec(
            (n - 1) as u8,
            knight_targets((n - 1) as u8, own_pieces, own_king),
            64,
        )
    } else {
        knight_moves_rec(knights, own_pieces, own_king, n - 1)
    }
}

/// The moves of every diagonal slider of `mask` on a square below `n`.
pub open spec fn da_moves_rec(b: Board, mask: u64, own_pieces: u64, own_king: u64, n: int) -> Seq<
    Move,
>
    decreases n,
{
    if n <= 0 {
        Seq::empty()
    } else if bit_set(mask, (n - 1) as u8) {
        da_moves_rec(b, mask, own_pieces, own_king, n - 1) + normal_targets_rec(
            (n - 1) as u8,
            spec_da(b, (n - 1) as u8) & !own_pieces & !own_king,
            64,
        )
    } else {
        da_moves_rec(b, mask, own_pieces, own_king, n - 1)
    }
}

/// The moves of every rank/file slider of `mask` on a square below `n`.
pub open spec fn hv_moves_rec(b: Board, mask: u64, own_pieces: u64, own_king: u64, n: int) -> Seq<
    Move,
>
    decreases n,
{
    if n <= 0 {
        Seq::empty()
    } else if bit_set(mask, (n - 1) as u8) {
        hv_moves_rec(b, mask, own_pieces, own_king, n - 1) + normal_targets_rec(
            (n - 1) as u8,
            spec_hv(b, (n - 1) as u8) & !own_pieces & !own_king,
            64,
        )
    } else {
        hv_moves_rec(b, mask, own_pieces, own_king, n - 1)
    }
}

/// The moves of every queen of `mask` on a square below `n`: rank/file and
/// diagonal targets combined.
pub open spec fn queen_moves_rec(b: Board, mask: u64, own_pieces: u64, own_king: u64, n: int) -> Seq<
    Move,
>
    decreases n,
{
    if n <= 0 {
        Seq::empty()
    } else if bit_set(mask, (n - 1) as u8) {
        queen_moves_rec(b, mask, own_pieces, own_king, n - 1) + normal_targets_rec(
            (n - 1) as u8,
            (spec_hv(b, (n - 1) as u8) | spec_da(b, (n - 1) as u8)) & !own_pieces & !own_king,
            64,
        )
    } else {
        queen_moves_rec(b, mask, own_pieces, own_king, n - 1)
    }
}

/// The lowest set bit of `mask` below `n`, if any.
pub open spec fn first_sq_rec(mask: u64, n: int) -> Option<u8>
    decreases n,
{
    if n <= 0 {
        None
    } else if first_sq_rec(mask, n - 1) is Some {
        first_sq_rec(mask, n - 1)
    } else if bit_set(mask, (n - 1) as u8) {
        Some((n - 1) as u8)
    } else {
        None
    }
}

/// The white pawns' northeast capture targets.
pub open spec fn wp_ne_captures(b: Board) -> u64 {
    (b.white_pawns << 9u64) & !FILE_A & b.black_pieces & NOT_RANK_1_8
}

/// The white pawns' northwest capture targets.
pub open spec fn wp_nw_captures(b: Board) -> u64 {
    (b.white_pawns << 7u64) & !FILE_H & b.black_pieces & NOT_RANK_1_8
}

/// The white pawns' single-push targets.
pub open spec fn wp_forward_one(b: Board) -> u64 {
    (b.white_pawns << 8u64) & b.empty_squares & NOT_RANK_1_8
}

/// The white pawns' double-push targets: both traversed squares empty, pawn on
/// rank 2.
pub open spec fn wp_forward_two(b: Board) -> u64 {
    (wp_forward_one(b) << 8u64) & ((b.white_pawns & RANK_2) << 16u64 & b.empty_squares & NOT_RANK_1_2)
}

/// The white pawns' quiet promotion targets.
pub open spec fn wp_promotions(b: Board) -> u64 {
    (b.white_pawns << 8u64) & b.empty_squares & RANK_8
}

/// The white pawns' northeast capture-promotion targets.
pub open spec fn wp_promotion_ne_captures(b: Board) -> u64 {
    (b.white_pawns << 9u64) & !FILE_A & b.black_pieces & RANK_8
}

/// The white pawns' northwest capture-promotion targets.
pub open spec fn wp_promotion_nw_captures(b: Board) -> u64 {
    (b.white_pawns << 7u64) & !FILE_H & b.black_pieces & RANK_8
}

/// The white en-passant captures onto the board's target square: northeast
/// first, then northwest.
pub open spec fn wp_ep_seq(b: Board) -> Seq<Move> {
    match b.en_passant {
        None => Seq::empty(),
        Some(e) => {
            let ne = if ((b.white_pawns << 9u64) & !FILE_A & !RANK_1 & (1u64 << (e as u64))) != 0
                && b.white_turn {
                seq![
                    Move::EnPassant { from: (e - 9) as u8, to: e, captured: (e - 8) as u8 },
                ]
            } else {
                Seq::empty()
            };
            let nw = if ((b.white_pawns << 7u64) & !FILE_H & !RANK_1 & (1u64 << (e as u64))) != 0
                && b.white_turn {
                seq![
                    Move::EnPassant { from: (e - 7) as u8, to: e, captured: (e - 8) as u8 },
                ]
            } else {
                Seq::empty()
            };
            ne + nw
        },
    }
}

/// The white pawn moves: captures, pushes, promotions, en passant.
pub open spec fn wp_moves_seq(b: Board) -> Seq<Move> {
    pawn_targets_rec(9, false, wp_ne_captures(b), 64) + pawn_targets_rec(
        7,
        false,
        wp_nw_captures(b),
        64,
    ) + pawn_targets_rec(8, false, wp_forward_one(b), 64) + pawn_targets_rec(
        16,
        false,
        wp_forward_two(b),
        64,
    ) + promo_targets_rec(8, false, true, wp_promotions(b), 64) + promo_targets_rec(
        9,
        false,
        true,
        wp_promotion_ne_captures(b),
        64,
    ) + promo_targets_rec(7, false, true, wp_promotion_nw_captures(b), 64) + wp_ep_seq(b)
}

/// The black pawns' southeast capture targets.
pub open spec fn bp_se_captures(b: Board) -> u64 {
    (b.black_pawns >> 7u64) & !FILE_A & b.white_pieces & NOT_RANK_1_8
}

/// The black pawns' southwest capture targets.
pub open spec fn bp_sw_captures(b: Board) -> u64 {
    (b.black_pawns >> 9u64) & !FILE_H & b.white_pieces & NOT_RANK_1_8
}

/// The black pawns' single-push targets.
pub open spec fn bp_forward_one(b: Board) -> u64 {
    (b.black_pawns >> 8u64) & b.empty_squares & NOT_RANK_1_8
}

/// The black pawns' double-push targets: both traversed squares empty, pawn on
/// rank 7.
pub open spec fn bp_forward_two(b: Board) -> u64 {
    (bp_forward_one(b) >> 8u64) & ((b.black_pawns & RANK_7) >> 16u64 & b.empty_squares & NOT_RANK_7_8)
}

/// The black pawns' quiet promotion targets.
pub open spec fn bp_promotions(b: Board) -> u64 {
    (b.black_pawns >> 8u64) & b.empty_squares & RANK_1
}

/// The black pawns' southeast capture-promotion targets.
pub open spec fn bp_promotion_se_captures(b: Board) -> u64 {
    (b.black_pawns >> 7u64) & !FILE_A & b.white_pieces & RANK_1
}

/// The black pawns' southwest capture-promotion targets.
pub open spec fn bp_promotion_sw_captures(b: Board) -> u64 {
    (b.black_pawns >> 9u64) & !FILE_H & b.white_pieces & RANK_1
}

/// The black en-passant captures onto the board's target square: southwest
/// first, then southeast.
pub open spec fn bp_ep_seq(b: Board) -> Seq<Move> {
    match b.en_passant {
        None => Seq::empty(),
        Some(e) => {
            let sw = if ((b.black_pawns >> 9u64) & !FILE_H & !RANK_8 & (1u64 << (e as u64))) != 0
                && !b.white_turn {
                seq![
                    Move::EnPassant { from: (e + 9) as u8, to: e, captured: (e + 8) as u8 },
                ]
            } else {
                Seq::empty()
            };
            let se = if ((b.black_pawns >> 7u64) & !FILE_A & !RANK_8 & (1u64 << (e as u64))) != 0
                && !b.white_turn {
                seq![
                    Move::EnPassant { from: (e + 7) as u8, to: e, captured: (e + 8) as u8 },
                ]
            } else {
                Seq::empty()
            };
            sw + se
        },
    }
}

/// The black pawn moves: captures, pushes, promotions, en passant.
pub open spec fn bp_moves_seq(b: Board) -> Seq<Move> {
    pawn_targets_rec(7, true, bp_se_captures(b), 64) + pawn_targets_rec(
        9,
        true,
        bp_sw_captures(b),
        64,
    ) + pawn_targets_rec(8, true, bp_forward_one(b), 64) + pawn_targets_rec(
        16,
        true,
        bp_forward_two(b),
        64,
    ) + promo_targets_rec(8, true, false, bp_promotions(b), 64) + promo_targets_rec(
        7,
        true,
        false,
        bp_promotion_se_captures(b),
        64,
    ) + promo_targets_rec(9, true, false, bp_promotion_sw_captures(b), 64) + bp_ep_seq(b)
}

/// The white knight moves.
pub open spec fn wn_moves_seq(b: Board) -> Seq<Move> {
    knight_moves_rec(b.white_knights, b.white_pieces, b.white_king, 64)
}

/// The black knight moves.
pub open spec fn bn_moves_seq(b: Board) -> Seq<Move> {
    knight_moves_rec(b.black_knights, b.black_pieces, b.black_king, 64)
}

/// The white bishop moves.
pub open spec fn wb_moves_seq(b: Board) -> Seq<Move> {
    da_moves_rec(b, b.white_bishops, b.white_pieces, b.white_king, 64)
}

/// The black bishop moves.
pub open spec fn bb_moves_seq(b: Board) -> Seq<Move> {
    da_moves_rec(b, b.black_bishops, b.black_pieces, b.black_king, 64)
}

/// The white rook moves.
pub open spec fn wr_moves_seq(b: Board) -> Seq<Move> {
    hv_moves_rec(b, b.white_rooks, b.white_pieces, b.white_king, 64)
}

/// The black rook moves.
pub open spec fn br_moves_seq(b: Board) -> Seq<Move> {
    hv_moves_rec(b, b.black_rooks, b.black_pieces, b.black_king, 64)
}

/// The white queen moves.
pub open spec fn wq_moves_seq(b: Board) -> Seq<Move> {
    queen_moves_rec(b, b.white_queens, b.white_pieces, b.white_king, 64)
}

/// The black queen moves.
pub open spec fn bq_moves_seq(b: Board) -> Seq<Move> {
    queen_moves_rec(b, b.black_queens, b.black_pieces, b.black_king, 64)
}

/// The white king's moves: the first white king found, onto squares neither
/// held by white nor attacked by black.
pub open spec fn wk_moves_seq(b: Board) -> Seq<Move> {
    match first_sq_rec(b.white_king, 64) {
        None => Seq::empty(),
        Some(i) => normal_targets_rec(
            i,
            (king_span_at(i) & (wrap_guard(i) & !b.white_pieces)) & !spec_unsafe_w(b),
            64,
        ),
    }
}

/// The black king's moves: the first black king found, onto squares neither
/// held by black nor attacked by white.
pub open spec fn bk_moves_seq(b: Board) -> Seq<Move> {
    match first_sq_rec(b.black_king, 64) {
        None => Seq::empty(),
        Some(i) => normal_targets_rec(
            i,
            (king_span_at(i) & (wrap_guard(i) & !b.black_pieces)) & !spec_unsafe_b(b),
            64,
        ),
    }
}

/// The white castling moves: kingside when the right is held, the king is not
/// in check, f1 and g1 are empty and unattacked, and a rook stands on h1;
/// queenside when the right is held, a rook stands on a1, b1 is empty, c1 and
/// d1 are empty and unattacked, and the king is not in check.
pub open spec fn wc_moves_seq(b: Board) -> Seq<Move> {
    let us = spec_unsafe_w(b);
    let kingside = if b.white_castle_kingside && us & (1u64 << 4) == 0 && (us | !b.empty_squares)
        & (1u64 << 5) == 0 && (us | !b.empty_squares) & (1u64 << 6) == 0 && b.white_rooks & (1u64
        << 7) != 0 {
        seq![Move::Castle { from: 4, to: 6, rook: 7 }]
    } else {
        Seq::empty()
    };
    let queenside = if b.white_castle_queenside && b.white_rooks & (1u64 << 0) != 0
        && !b.empty_squares & (1u64 << 1) == 0 && (us | !b.empty_squares) & (1u64 << 2) == 0 && (us
        | !b.empty_squares) & (1u64 << 3) == 0 && us & (1u64 << 4) == 0 {
        seq![Move::Castle { from: 4, to: 2, rook: 0 }]
    } else {
        Seq::empty()
    };
    kingside + queenside
}

/// The black castling moves, mirroring the white conditions on rank 8.
pub open spec fn bc_moves_seq(b: Board) -> Seq<Move> {
    let us = spec_unsafe_b(b);
    let kingside = if b.black_castle_kingside && us & (1u64 << 60) == 0 && (us | !b.empty_squares)
        & (1u64 << 61) == 0 && (us | !b.empty_squares) & (1u64 << 62) == 0 && b.black_rooks & (1u64
        << 63) != 0 {
        seq![Move::Castle { from: 60, to: 62, rook: 63 }]
    } else {
        Seq::empty()
    };
    let queenside = if b.black_castle_queenside && b.black_rooks & (1u64 << 56) != 0
        && !b.empty_squares & (1u64 << 57) == 0 && (us | !b.empty_squares) & (1u64 << 58) == 0 && (
    us | !b.empty_squares) & (1u64 << 59) == 0 && us & (1u64 << 60) == 0 {
        seq![Move::Castle { from: 60, to: 58, rook: 56 }]
    } else {
        Seq::empty()
    };
    kingside + queenside
}

/// Every pseudo-legal white move: pawns, king, queens, rooks, bishops,
/// knights, castles.
pub open spec fn white_moves_seq(b: Board) -> Seq<Move> {
    wp_moves_seq(b) + wk_moves_seq(b) + wq_moves_seq(b) + wr_moves_seq(b) + wb_moves_seq(b)
        + wn_moves_seq(b) + wc_moves_seq(b)
}

/// Every pseudo-legal black move: pawns, king, queens, rooks, bishops,
/// knights, castles.
pub open spec fn black_moves_seq(b: Board) -> Seq<Move> {
    bp_moves_seq(b) + bk_moves_seq(b) + bq_moves_seq(b) + br_moves_seq(b) + bb_moves_seq(b)
        + bn_moves_seq(b) + bc_moves_seq(b)
}

/// All moves of `s` are valid move values.
pub open spec fn all_wf(s: Seq<Move>) -> bool {
    forall|k: int| 0 <= k < s.len() ==> (#[trigger] s[k]).wf()
}


/// `first_sq_rec` names a square below its bound.
pub proof fn lemma_first_sq_bound(mask: u64, n: int)
    ensures
        first_sq_rec(mask, n) matches Some(i) ==> 0 <= i < n,
    decreases n,
{
    if n > 0 {
        lemma_first_sq_bound(mask, n - 1);
    }
}

/// Appends one `Normal` move per set bit of `targets`, in ascending square
/// order, all from the square `from`.
fn push_normal_targets(moves: &mut Vec<Move>, from: u8, targets: u64)
    requires
        from < 64,
    ensures
        final(moves)@ == old(moves)@ + normal_targets_rec(from, targets, 64),
        forall|k: int|
            old(moves)@.len() <= k < final(moves)@.len() ==> (#[trigger] final(moves)@[k]).wf(),
{
    let mut j: u8 = 0;
    while j < 64
        invariant
            from < 64,
            j <= 64,
            moves@ == old(moves)@ + normal_targets_rec(from, targets, j as int),
            forall|k: int|
                old(moves)@.len() <= k < moves@.len() ==> (#[trigger] moves@[k]).wf(),
        decreases 64 - j,
    {
        if targets & (1u64 << j) != 0 {
            moves.push(Move::Normal { from, to: j });
            proof {
                assert(moves@ =~= old(moves)@ + normal_targets_rec(from, targets, j as int + 1));
            }
        }
        j = j + 1;
    }
}

/// Appends one pawn `Normal` move per set bit of `targets`, in ascending
/// square order; the origin lies `delta` squares from the target, below it
/// unless the side moves down the board.
fn push_pawn_targets(moves: &mut Vec<Move>, targets: u64, delta: u8, down: bool)
    requires
        forall|i: u8|
            i < 64 && #[trigger] bit_set(targets, i) ==> (if down {
                i + delta < 64
            } else {
                delta <= i
            }),
    ensures
        final(moves)@ == old(moves)@ + pawn_targets_rec(delta, down, targets, 64),
        forall|k: int|
            old(moves)@.len() <= k < final(moves)@.len() ==> (#[trigger] final(moves)@[k]).wf(),
{
    let mut j: u8 = 0;
    while j < 64
        invariant
            j <= 64,
            forall|i: u8|
                i < 64 && #[trigger] bit_set(targets, i) ==> (if down {
                    i + delta < 64
                } else {
                    delta <= i
                }),
            moves@ == old(moves)@ + pawn_targets_rec(delta, down, targets, j as int),
            forall|k: int|
                old(moves)@.len() <= k < moves@.len() ==> (#[trigger] moves@[k]).wf(),
        decreases 64 - j,
    {
        if targets & (1u64 << j) != 0 {
            proof {
                assert(bit_set(targets, j));
            }
            let from = if down {
                j + delta
            } else {
                j - delta
            };
            moves.push(Move::Normal { from, to: j });
            proof {
                assert(moves@ =~= old(moves)@ + pawn_targets_rec(
                    delta,
                    down,
                    targets,
                    j as int + 1,
                ));
            }
        }
        j = j + 1;
    }
}

/// Appends the four promotions (bishop, knight, rook, queen) per set bit of
/// `targets`, in ascending square order.
fn push_promo_targets(moves: &mut Vec<Move>, targets: u64, delta: u8, down: bool, white: bool)
    requires
        forall|i: u8|
            i < 64 && #[trigger] bit_set(targets, i) ==> (if down {
                i + delta < 64
            } else {
                delta <= i
            }),
    ensures
        final(moves)@ == old(moves)@ + promo_targets_rec(delta, down, white, targets, 64),
        forall|k: int|
            old(moves)@.len() <= k < final(moves)@.len() ==> (#[trigger] final(moves)@[k]).wf(),
{
    let mut j: u8 = 0;
    while j < 64
        invariant
            j <= 64,
            forall|i: u8|
                i < 64 && #[trigger] bit_set(targets, i) ==> (if down {
                    i + delta < 64
                } else {
                    delta <= i
                }),
            moves@ == old(moves)@ + promo_targets_rec(delta, down, white, targets, j as int),
            forall|k: int|
                old(moves)@.len() <= k < moves@.len() ==> (#[trigger] moves@[k]).wf(),
        decreases 64 - j,
    {
        if targets & (1u64 << j) != 0 {
            proof {
                assert(bit_set(targets, j));
            }
            let from = if down {
                j + delta
            } else {
                j - delta
            };
            if white {
                moves.push(Move::Promotion { from, to: j, promotion: Piece::WhiteBishop });
                moves.push(Move::Promotion { from, to: j, promotion: Piece::WhiteKnight });
                moves.push(Move::Promotion { from, to: j, promotion: Piece::WhiteRook });
                moves.push(Move::Promotion { from, to: j, promotion: Piece::WhiteQueen });
            } else {
                moves.push(Move::Promotion { from, to: j, promotion: Piece::BlackBishop });
                moves.push(Move::Promotion { from, to: j, promotion: Piece::BlackKnight });
                moves.push(Move::Promotion { from, to: j, promotion: Piece::BlackRook });
                moves.push(Move::Promotion { from, to: j, promotion: Piece::BlackQueen });
            }
            proof {
                assert(moves@ =~= old(moves)@ + promo_targets_rec(
                    delta,
                    down,
                    white,
                    targets,
                    j as int + 1,
                ));
            }
        }
        j = j + 1;
    }
}

impl MoveService {
    /// The squares reachable by a horizontal or vertical slider on `position`,
    /// up to and including the first occupied square in each direction.
    pub fn possible_hv(board: &Board, position: u8) -> (r: u64)
        requires
            position < 64,
        ensures
            r == spec_hv(*board, position),
    {
        let slider = 1u64 << position;
        let occupied = !board.empty_squares;
        let file = occupied & file_mask(position);

        let horizontal = (occupied.wrapping_sub(2u64.wrapping_mul(slider))) ^ (occupied
            .reverse_bits()
            .wrapping_sub(2u64.wrapping_mul(slider.reverse_bits()))).reverse_bits();
        let vertical = (file.wrapping_sub(2u64.wrapping_mul(slider))) ^ (file
            .reverse_bits()
            .wrapping_sub(2u64.wrapping_mul(slider.reverse_bits()))).reverse_bits();

        (horizontal & rank_mask(position)) | (vertical & file_mask(position))
    }

    /// The squares reachable by a diagonal or anti-diagonal slider on
    /// `position`, up to and including the first occupied square in each
    /// direction.
    pub fn possible_da(board: &Board, position: u8) -> (r: u64)
        requires
            position < 64,
        ensures
            r == spec_da(*board, position),
    {
        let slider = 1u64 << position;
        let occupied = !board.empty_squares;
        let diag = occupied & diagonal_mask(position);
        let anti = occupied & anti_diagonal_mask(position);

        let diagonal = diag.wrapping_sub(2u64.wrapping_mul(slider)) ^ diag
            .reverse_bits()
            .wrapping_sub(2u64.wrapping_mul(slider.reverse_bits()))
            .reverse_bits();
        let anti_diagonal = anti.wrapping_sub(2u64.wrapping_mul(slider)) ^ anti
            .reverse_bits()
            .wrapping_sub(2u64.wrapping_mul(slider.reverse_bits()))
            .reverse_bits();

        (diagonal & diagonal_mask(position)) | (anti_diagonal & anti_diagonal_mask(position))
    }

    /// The squares attacked by black: unsafe squares for the white king.
    pub fn unsafe_w(board: &Board) -> (r: u64)
        ensures
            r == spec_unsafe_w(*board),
    {
        let mut unsafe_squares: u64 = ((board.black_pawns >> 7) & !FILE_A) | ((board.black_pawns
            >> 9) & !FILE_H);
        let ghost pawns = unsafe_squares;

        let mut i: u8 = 0;
        while i < 64
            invariant
                i <= 64,
                unsafe_squares == knight_att_acc(
                    pawns,
                    board.black_knights,
                    board.black_pieces,
                    board.black_king,
                    i as int,
                ),
            decreases 64 - i,
        {
            if board.black_knights & (1u64 << i) != 0 {
                let mut possibility: u64 = if i > 18 {
                    KNIGHT_SPAN << (i - 18)
                } else {
                    KNIGHT_SPAN >> (18 - i)
                };
                if i % 8 < 4 {
                    possibility = possibility & (!(FILE_G | FILE_H) & !board.black_pieces & !board.black_king);
                } else {
                    possibility = possibility & (!(FILE_A | FILE_B) & !board.black_pieces & !board.black_king);
                }
                unsafe_squares = unsafe_squares | possibility;
            }
            i = i + 1;
        }
        let ghost kn = unsafe_squares;

        let bishop_queen = board.black_bishops | board.black_queens;
        let mut i: u8 = 0;
        while i < 64
            invariant
                i <= 64,
                bishop_queen == board.black_bishops | board.black_queens,
                unsafe_squares == da_att_acc(kn, *board, bishop_queen, i as int),
            decreases 64 - i,
        {
            if bishop_queen & (1u64 << i) != 0 {
                unsafe_squares = unsafe_squares | MoveService::possible_da(board, i);
            }
            i = i + 1;
        }
        let ghost da = unsafe_squares;

        let rook_queen = board.black_rooks | board.black_queens;
        let mut i: u8 = 0;
        while i < 64
            invariant
                i <= 64,
                rook_queen == board.black_rooks | board.black_queens,
                unsafe_squares == hv_att_acc(da, *board, rook_queen, i as int),
            decreases 64 - i,
        {
            if rook_queen & (1u64 << i) != 0 {
                unsafe_squares = unsafe_squares | MoveService::possible_hv(board, i);
            }
            i = i + 1;
        }
        let ghost hv = unsafe_squares;

        let mut i: u8 = 0;
        while i < 64
            invariant
                i <= 64,
                unsafe_squares == king_att_acc(hv, board.black_king, i as int),
            decreases 64 - i,
        {
            if board.black_king & (1u64 << i) != 0 {
                let mut possibility: u64 = if i > 9 {
                    KING_SPAN << (i - 9)
                } else {
                    KING_SPAN >> (9 - i)
                };
                if i % 8 < 4 {
                    possibility = possibility & !(FILE_G | FILE_H);
                } else {
                    possibility = possibility & !(FILE_A | FILE_B);
                }
                unsafe_squares = unsafe_squares | possibility;
            }
            i = i + 1;
        }

        unsafe_squares
    }

    /// The squares attacked by white: unsafe squares for the black king.
    pub fn unsafe_b(board: &Board) -> (r: u64)
        ensures
            r == spec_unsafe_b(*board),
    {
        let mut unsafe_squares: u64 = ((board.white_pawns << 7) & !FILE_H) | ((board.white_pawns
            << 9) & !FILE_A);
        let ghost pawns = unsafe_squares;

        let mut i: u8 = 0;
        while i < 64
            invariant
                i <= 64,
                unsafe_squares == knight_att_acc(
                    pawns,
                    board.white_knights,
                    board.white_pieces,
                    board.white_king,
                    i as int,
                ),
            decreases 64 - i,
        {
            if board.white_knights & (1u64 << i) != 0 {
                let mut possibility: u64 = if i > 18 {
                    KNIGHT_SPAN << (i - 18)
                } else {
                    KNIGHT_SPAN >> (18 - i)
                };
                if i % 8 < 4 {
                    possibility = possibility & (!(FILE_G | FILE_H) & !board.white_pieces & !board.white_king);
                } else {
                    possibility = possibility & (!(FILE_A | FILE_B) & !board.white_pieces & !board.white_king);
                }
                unsafe_squares = unsafe_squares | possibility;
            }
            i = i + 1;
        }
        let ghost kn = unsafe_squares;

        let bishop_queen = board.white_bishops | board.white_queens;
        let mut i: u8 = 0;
        while i < 64
            invariant
                i <= 64,
                bishop_queen == board.white_bishops | board.white_queens,
                unsafe_squares == da_att_acc(kn, *board, bishop_queen, i as int),
            decreases 64 - i,
        {
            if bishop_queen & (1u64 << i) != 0 {
                unsafe_squares = unsafe_squares | MoveService::possible_da(board, i);
            }
            i = i + 1;
        }
        let ghost da = unsafe_squares;

        let rook_queen = board.white_rooks | board.white_queens;
        let mut i: u8 = 0;
        while i < 64
            invariant
                i <= 64,
                rook_queen == board.white_rooks | board.white_queens,
                unsafe_squares == hv_att_acc(da, *board, rook_queen, i as int),
            decreases 64 - i,
        {
            if rook_queen & (1u64 << i) != 0 {
                unsafe_squares = unsafe_squares | MoveService::possible_hv(board, i);
            }
            i = i + 1;
        }
        let ghost hv = unsafe_squares;

        let mut i: u8 = 0;
        while i < 64
            invariant
                i <= 64,
                unsafe_squares == king_att_acc(hv, board.white_king, i as int),
            decreases 64 - i,
        {
            if board.white_king & (1u64 << i) != 0 {
                let mut possibility: u64 = if i > 9 {
                    KING_SPAN << (i - 9)
                } else {
                    KING_SPAN >> (9 - i)
                };
                if i % 8 < 4 {
                    possibility = possibility & !(FILE_G | FILE_H);
                } else {
                    possibility = possibility & !(FILE_A | FILE_B);
                }
                unsafe_squares = unsafe_squares | possibility;
            }
            i = i + 1;
        }

        unsafe_squares
    }

    /// The pseudo-legal white pawn moves: captures, single and double pushes,
    /// promotions, and en-passant captures.
    pub fn possible_wp(board: &Board) -> (r: Vec<Move>)
        requires
            board.ep_ok(),
        ensures
            r@ == wp_moves_seq(*board),
            all_wf(r@),
    {
        let mut moves: Vec<Move> = Vec::new();

        let pawn_ne_captures = (board.white_pawns << 9u64) & !FILE_A & board.black_pieces
            & NOT_RANK_1_8;
        let pawn_nw_captures = (board.white_pawns << 7u64) & !FILE_H & board.black_pieces
            & NOT_RANK_1_8;
        let pawn_forward_one = (board.white_pawns << 8u64) & board.empty_squares & NOT_RANK_1_8;
        let pawn_forward_two = (pawn_forward_one << 8u64) & ((board.white_pawns & RANK_2) << 16u64
            & board.empty_squares & NOT_RANK_1_2);
        let pawn_promotion = (board.white_pawns << 8u64) & board.empty_squares & RANK_8;
        let pawn_promotion_ne_captures = (board.white_pawns << 9u64) & !FILE_A & board.black_pieces
            & RANK_8;
        let pawn_promotion_nw_captures = (board.white_pawns << 7u64) & !FILE_H & board.black_pieces
            & RANK_8;

        proof {
            lemma_bit_ops();
        }
        push_pawn_targets(&mut moves, pawn_ne_captures, 9, false);
        push_pawn_targets(&mut moves, pawn_nw_captures, 7, false);
        push_pawn_targets(&mut moves, pawn_forward_one, 8, false);
        push_pawn_targets(&mut moves, pawn_forward_two, 16, false);
        push_promo_targets(&mut moves, pawn_promotion, 8, false, true);
        push_promo_targets(&mut moves, pawn_promotion_ne_captures, 9, false, true);
        push_promo_targets(&mut moves, pawn_promotion_nw_captures, 7, false, true);

        match board.en_passant {
            Some(en_passant) => {
                let mut pawn_moves = (board.white_pawns << 9u64) & !FILE_A & !RANK_1 & (1u64
                    << en_passant);
                if pawn_moves != 0 && board.white_turn {
                    proof {
                        assert(bit_set((board.white_pawns << 9u64) & !FILE_A & !RANK_1, en_passant));
                    }
                    moves.push(
                        Move::EnPassant {
                            from: en_passant - 9,
                            to: en_passant,
                            captured: en_passant - 8,
                        },
                    );
                }
                pawn_moves = (board.white_pawns << 7u64) & !FILE_H & !RANK_1 & (1u64 << en_passant);
                if pawn_moves != 0 && board.white_turn {
                    proof {
                        assert(bit_set((board.white_pawns << 7u64) & !FILE_H & !RANK_1, en_passant));
                        assert(en_passant >= 8) by (bit_vector)
                            requires
                                bit_set(!RANK_1, en_passant),
                                en_passant < 64,
                        ;
                    }
                    moves.push(
                        Move::EnPassant {
                            from: en_passant - 7,
                            to: en_passant,
                            captured: en_passant - 8,
                        },
                    );
                }
            },
            None => {},
        }

        proof {
            assert(moves@ =~= wp_moves_seq(*board));
        }
        moves
    }

    /// The pseudo-legal black pawn moves: captures, single and double pushes,
    /// promotions, and en-passant captures.
    pub fn possible_bp(board: &Board) -> (r: Vec<Move>)
        requires
            board.ep_ok(),
        ensures
            r@ == bp_moves_seq(*board),
            all_wf(r@),
    {
        let mut moves: Vec<Move> = Vec::new();

        let pawn_se_captures = (board.black_pawns >> 7u64) & !FILE_A & board.white_pieces
            & NOT_RANK_1_8;
        let pawn_sw_captures = (board.black_pawns >> 9u64) & !FILE_H & board.white_pieces
            & NOT_RANK_1_8;
        let pawn_forward_one = (board.black_pawns >> 8u64) & board.empty_squares & NOT_RANK_1_8;
        let pawn_forward_two = (pawn_forward_one >> 8u64) & ((board.black_pawns & RANK_7) >> 16u64
            & board.empty_squares & NOT_RANK_7_8);
        let pawn_promotion = (board.black_pawns >> 8u64) & board.empty_squares & RANK_1;
        let pawn_promotion_se_captures = (board.black_pawns >> 7u64) & !FILE_A & board.white_pieces
            & RANK_1;
        let pawn_promotion_sw_captures = (board.black_pawns >> 9u64) & !FILE_H & board.white_pieces
            & RANK_1;

        proof {
            lemma_bit_ops();
        }
        push_pawn_targets(&mut moves, pawn_se_captures, 7, true);
        push_pawn_targets(&mut moves, pawn_sw_captures, 9, true);
        push_pawn_targets(&mut moves, pawn_forward_one, 8, true);
        push_pawn_targets(&mut moves, pawn_forward_two, 16, true);
        push_promo_targets(&mut moves, pawn_promotion, 8, true, false);
        push_promo_targets(&mut moves, pawn_promotion_se_captures, 7, true, false);
        push_promo_targets(&mut moves, pawn_promotion_sw_captures, 9, true, false);

        match board.en_passant {
            Some(en_passant) => {
                let mut pawn_moves = (board.black_pawns >> 9u64) & !FILE_H & !RANK_8 & (1u64
                    << en_passant);
                if pawn_moves != 0 && !board.white_turn {
                    proof {
                        assert(bit_set((board.black_pawns >> 9u64) & !FILE_H & !RANK_8, en_passant));
                    }
                    moves.push(
                        Move::EnPassant {
                            from: en_passant + 9,
                            to: en_passant,
                            captured: en_passant + 8,
                        },
                    );
                }
                pawn_moves = (board.black_pawns >> 7u64) & !FILE_A & !RANK_8 & (1u64 << en_passant);
                if pawn_moves != 0 && !board.white_turn {
                    proof {
                        assert(bit_set((board.black_pawns >> 7u64) & !FILE_A & !RANK_8, en_passant));
                        assert(en_passant < 56) by (bit_vector)
                            requires
                                bit_set(!RANK_8, en_passant),
                                en_passant < 64,
                        ;
                    }
                    moves.push(
                        Move::EnPassant {
                            from: en_passant + 7,
                            to: en_passant,
                            captured: en_passant + 8,
                        },
                    );
                }
            },
            None => {},
        }

        proof {
            assert(moves@ =~= bp_moves_seq(*board));
        }
        moves
    }

    /// The pseudo-legal white knight moves.
    pub fn possible_wn(board: &Board) -> (r: Vec<Move>)
        ensures
            r@ == wn_moves_seq(*board),
            all_wf(r@),
    {
        let mut moves: Vec<Move> = Vec::new();
        let mut i: u8 = 0;
        while i < 64
            invariant
                i <= 64,
                moves@ == knight_moves_rec(
                    board.white_knights,
                    board.white_pieces,
                    board.white_king,
                    i as int,
                ),
                all_wf(moves@),
            decreases 64 - i,
        {
            if board.white_knights & (1u64 << i) != 0 {
                let mut possibility: u64 = if i > 18 {
                    KNIGHT_SPAN << (i - 18)
                } else {
                    KNIGHT_SPAN >> (18 - i)
                };
                if i % 8 < 4 {
                    possibility = possibility & (!(FILE_G | FILE_H) & !board.white_pieces
                        & !board.white_king);
                } else {
                    possibility = possibility & (!(FILE_A | FILE_B) & !board.white_pieces
                        & !board.white_king);
                }
                push_normal_targets(&mut moves, i, possibility);
            }
            i = i + 1;
        }
        moves
    }

    /// The pseudo-legal black knight moves.
    pub fn possible_bn(board: &Board) -> (r: Vec<Move>)
        ensures
            r@ == bn_moves_seq(*board),
            all_wf(r@),
    {
        let mut moves: Vec<Move> = Vec::new();
        let mut i: u8 = 0;
        while i < 64
            invariant
                i <= 64,
                moves@ == knight_moves_rec(
                    board.black_knights,
                    board.black_pieces,
                    board.black_king,
                    i as int,
                ),
                all_wf(moves@),
            decreases 64 - i,
        {
            if board.black_knights & (1u64 << i) != 0 {
                let mut possibility: u64 = if i > 18 {
                    KNIGHT_SPAN << (i - 18)
                } else {
                    KNIGHT_SPAN >> (18 - i)
                };
                if i % 8 < 4 {
                    possibility = possibility & (!(FILE_G | FILE_H) & !board.black_pieces
                        & !board.black_king);
                } else {
                    possibility = possibility & (!(FILE_A | FILE_B) & !board.black_pieces
                        & !board.black_king);
                }
                push_normal_targets(&mut moves, i, possibility);
            }
            i = i + 1;
        }
        moves
    }

    /// The pseudo-legal white bishop moves.
    pub fn possible_wb(board: &Board) -> (r: Vec<Move>)
        ensures
            r@ == wb_moves_seq(*board),
            all_wf(r@),
    {
        let mut moves: Vec<Move> = Vec::new();
        let mut i: u8 = 0;
        while i < 64
            invariant
                i <= 64,
                moves@ == da_moves_rec(
                    *board,
                    board.white_bishops,
                    board.white_pieces,
                    board.white_king,
                    i as int,
                ),
                all_wf(moves@),
            decreases 64 - i,
        {
            if board.white_bishops & (1u64 << i) != 0 {
                let bishop_moves = MoveService::possible_da(board, i) & !board.white_pieces
                    & !board.white_king;
                push_normal_targets(&mut moves, i, bishop_moves);
            }
            i = i + 1;
        }
        moves
    }

    /// The pseudo-legal black bishop moves.
    pub fn possible_bb(board: &Board) -> (r: Vec<Move>)
        ensures
            r@ == bb_moves_seq(*board),
            all_wf(r@),
    {
        let mut moves: Vec<Move> = Vec::new();
        let mut i: u8 = 0;
        while i < 64
            invariant
                i <= 64,
                moves@ == da_moves_rec(
                    *board,
                    board.black_bishops,
                    board.black_pieces,
                    board.black_king,
                    i as int,
                ),
                all_wf(moves@),
            decreases 64 - i,
        {
            if board.black_bishops & (1u64 << i) != 0 {
                let bishop_moves = MoveService::possible_da(board, i) & !board.black_pieces
                    & !board.black_king;
                push_normal_targets(&mut moves, i, bishop_moves);
            }
            i = i + 1;
        }
        moves
    }

    /// The pseudo-legal white rook moves.
    pub fn possible_wr(board: &Board) -> (r: Vec<Move>)
        ensures
            r@ == wr_moves_seq(*board),
            all_wf(r@),
    {
        let mut moves: Vec<Move> = Vec::new();
        let mut i: u8 = 0;
        while i < 64
            invariant
                i <= 64,
                moves@ == hv_moves_rec(
                    *board,
                    board.white_rooks,
                    board.white_pieces,
                    board.white_king,
                    i as int,
                ),
                all_wf(moves@),
            decreases 64 - i,
        {
            if board.white_rooks & (1u64 << i) != 0 {
                let rook_moves = MoveService::possible_hv(board, i) & !board.white_pieces
                    & !board.white_king;
                push_normal_targets(&mut moves, i, rook_moves);
            }
            i = i + 1;
        }
        moves
    }

    /// The pseudo-legal black rook moves.
    pub fn possible_br(board: &Board) -> (r: Vec<Move>)
        ensures
            r@ == br_moves_seq(*board),
            all_wf(r@),
    {
        let mut moves: Vec<Move> = Vec::new();
        let mut i: u8 = 0;
        while i < 64
            invariant
                i <= 64,
                moves@ == hv_moves_rec(
                    *board,
                    board.black_rooks,
                    board.black_pieces,
                    board.black_king,
                    i as int,
                ),
                all_wf(moves@),
            decreases 64 - i,
        {
            if board.black_rooks & (1u64 << i) != 0 {
                let rook_moves = MoveService::possible_hv(board, i) & !board.black_pieces
                    & !board.black_king;
                push_normal_targets(&mut moves, i, rook_moves);
            }
            i = i + 1;
        }
        moves
    }

    /// The pseudo-legal white queen moves.
    pub fn possible_wq(board: &Board) -> (r: Vec<Move>)
        ensures
            r@ == wq_moves_seq(*board),
            all_wf(r@),
    {
        let mut moves: Vec<Move> = Vec::new();
        let mut i: u8 = 0;
        while i < 64
            invariant
                i <= 64,
                moves@ == queen_moves_rec(
                    *board,
                    board.white_queens,
                    board.white_pieces,
                    board.white_king,
                    i as int,
                ),
                all_wf(moves@),
            decreases 64 - i,
        {
            if board.white_queens & (1u64 << i) != 0 {
                let queen_moves = (MoveService::possible_hv(board, i) | MoveService::possible_da(
                    board,
                    i,
                )) & !board.white_pieces & !board.white_king;
                push_normal_targets(&mut moves, i, queen_moves);
            }
            i = i + 1;
        }
        moves
    }

    /// The pseudo-legal black queen moves.
    pub fn possible_bq(board: &Board) -> (r: Vec<Move>)
        ensures
            r@ == bq_moves_seq(*board),
            all_wf(r@),
    {
        let mut moves: Vec<Move> = Vec::new();
        let mut i: u8 = 0;
        while i < 64
            invariant
                i <= 64,
                moves@ == queen_moves_rec(
                    *board,
                    board.black_queens,
                    board.black_pieces,
                    board.black_king,
                    i as int,
                ),
                all_wf(moves@),
            decreases 64 - i,
        {
            if board.black_queens & (1u64 << i) != 0 {
                let queen_moves = (MoveService::possible_hv(board, i) | MoveService::possible_da(
                    board,
                    i,
                )) & !board.black_pieces & !board.black_king;
                push_normal_targets(&mut moves, i, queen_moves);
            }
            i = i + 1;
        }
        moves
    }

    /// The pseudo-legal white king moves: the first white king found, onto
    /// squares neither held by white nor attacked by black.
    pub fn possible_wk(board: &Board) -> (r: Vec<Move>)
        ensures
            r@ == wk_moves_seq(*board),
            all_wf(r@),
    {
        let mut moves: Vec<Move> = Vec::new();
        let mut king_sq: Option<u8> = None;
        let mut i: u8 = 0;
        while i < 64
            invariant
                i <= 64,
                king_sq == first_sq_rec(board.white_king, i as int),
            decreases 64 - i,
        {
            if king_sq.is_none() && board.white_king & (1u64 << i) != 0 {
                king_sq = Some(i);
            }
            i = i + 1;
        }
        match king_sq {
            Some(sq) => {
                proof {
                    lemma_first_sq_bound(board.white_king, 64);
                }
                let mut possibility: u64 = if sq > 9 {
                    KING_SPAN << (sq - 9)
                } else {
                    KING_SPAN >> (9 - sq)
                };
                if sq % 8 < 4 {
                    possibility = possibility & (!(FILE_G | FILE_H) & !board.white_pieces);
                } else {
                    possibility = possibility & (!(FILE_A | FILE_B) & !board.white_pieces);
                }
                let safe_white = !MoveService::unsafe_w(board);
                push_normal_targets(&mut moves, sq, possibility & safe_white);
            },
            None => {},
        }
        moves
    }

    /// The pseudo-legal black king moves: the first black king found, onto
    /// squares neither held by black nor attacked by white.
    pub fn possible_bk(board: &Board) -> (r: Vec<Move>)
        ensures
            r@ == bk_moves_seq(*board),
            all_wf(r@),
    {
        let mut moves: Vec<Move> = Vec::new();
        let mut king_sq: Option<u8> = None;
        let mut i: u8 = 0;
        while i < 64
            invariant
                i <= 64,
                king_sq == first_sq_rec(board.black_king, i as int),
            decreases 64 - i,
        {
            if king_sq.is_none() && board.black_king & (1u64 << i) != 0 {
                king_sq = Some(i);
            }
            i = i + 1;
        }
        match king_sq {
            Some(sq) => {
                proof {
                    lemma_first_sq_bound(board.black_king, 64);
                }
                let mut possibility: u64 = if sq > 9 {
                    KING_SPAN << (sq - 9)
                } else {
                    KING_SPAN >> (9 - sq)
                };
                if sq % 8 < 4 {
                    possibility = possibility & (!(FILE_G | FILE_H) & !board.black_pieces);
                } else {
                    possibility = possibility & (!(FILE_A | FILE_B) & !board.black_pieces);
                }
                let safe_black = !MoveService::unsafe_b(board);
                push_normal_targets(&mut moves, sq, possibility & safe_black);
            },
            None => {},
        }
        moves
    }

    /// The white castling moves that are open in this position.
    pub fn possible_wc(board: &Board) -> (r: Vec<Move>)
        ensures
            r@ == wc_moves_seq(*board),
            all_wf(r@),
    {
        let mut moves: Vec<Move> = Vec::new();

        if board.white_castle_kingside {
            let unsafe_w = MoveService::unsafe_w(board);
            if unsafe_w & (1u64 << 4) == 0 && (unsafe_w | !board.empty_squares) & (1u64 << 5) == 0
                && (unsafe_w | !board.empty_squares) & (1u64 << 6) == 0 && board.white_rooks & (1u64
                << 7) != 0 {
                moves.push(Move::Castle { from: 4, to: 6, rook: 7 });
            }
        }
        if board.white_castle_queenside {
            let unsafe_w = MoveService::unsafe_w(board);
            if board.white_rooks & (1u64 << 0) != 0 && !board.empty_squares & (1u64 << 1) == 0
                && (unsafe_w | !board.empty_squares) & (1u64 << 2) == 0 && (unsafe_w
                | !board.empty_squares) & (1u64 << 3) == 0 && unsafe_w & (1u64 << 4) == 0 {
                moves.push(Move::Castle { from: 4, to: 2, rook: 0 });
            }
        }

        proof {
            assert(moves@ =~= wc_moves_seq(*board));
        }
        moves
    }

    /// The black castling moves that are open in this position.
    pub fn possible_bc(board: &Board) -> (r: Vec<Move>)
        ensures
            r@ == bc_moves_seq(*board),
            all_wf(r@),
    {
        let mut moves: Vec<Move> = Vec::new();

        if board.black_castle_kingside {
            let unsafe_b = MoveService::unsafe_b(board);
            if unsafe_b & (1u64 << 60) == 0 && (unsafe_b | !board.empty_squares) & (1u64 << 61)
                == 0 && (unsafe_b | !board.empty_squares) & (1u64 << 62) == 0 && board.black_rooks
                & (1u64 << 63) != 0 {
                moves.push(Move::Castle { from: 60, to: 62, rook: 63 });
            }
        }
        if board.black_castle_queenside {
            let unsafe_b = MoveService::unsafe_b(board);
            if board.black_rooks & (1u64 << 56) != 0 && !board.empty_squares & (1u64 << 57) == 0
                && (unsafe_b | !board.empty_squares) & (1u64 << 58) == 0 && (unsafe_b
                | !board.empty_squares) & (1u64 << 59) == 0 && unsafe_b & (1u64 << 60) == 0 {
                moves.push(Move::Castle { from: 60, to: 58, rook: 56 });
            }
        }

        proof {
            assert(moves@ =~= bc_moves_seq(*board));
        }
        moves
    }

    /// Every pseudo-legal white move: pawns, king, queens, rooks, bishops,
    /// knights, castles.
    pub fn possible_white(board: &Board) -> (r: Vec<Move>)
        requires
            board.ep_ok(),
        ensures
            r@ == white_moves_seq(*board),
            all_wf(r@),
    {
        let mut moves: Vec<Move> = MoveService::possible_wp(board);
        let mut more = MoveService::possible_wk(board);
        moves.append(&mut more);
        let mut more = MoveService::possible_wq(board);
        moves.append(&mut more);
        let mut more = MoveService::possible_wr(board);
        moves.append(&mut more);
        let mut more = MoveService::possible_wb(board);
        moves.append(&mut more);
        let mut more = MoveService::possible_wn(board);
        moves.append(&mut more);
        let mut more = MoveService::possible_wc(board);
        moves.append(&mut more);
        proof {
            assert(moves@ =~= white_moves_seq(*board));
        }
        moves
    }

    /// Every pseudo-legal black move: pawns, king, queens, rooks, bishops,
    /// knights, castles.
    pub fn possible_black(board: &Board) -> (r: Vec<Move>)
        requires
            board.ep_ok(),
        ensures
            r@ == black_moves_seq(*board),
            all_wf(r@),
    {
        let mut moves: Vec<Move> = MoveService::possible_bp(board);
        let mut more = MoveService::possible_bk(board);
        moves.append(&mut more);
        let mut more = MoveService::possible_bq(board);
        moves.append(&mut more);
        let mut more = MoveService::possible_br(board);
        moves.append(&mut more);
        let mut more = MoveService::possible_bb(board);
        moves.append(&mut more);
        let mut more = MoveService::possible_bn(board);
        moves.append(&mut more);
        let mut more = MoveService::possible_bc(board);
        moves.append(&mut more);
        proof {
            assert(moves@ =~= black_moves_seq(*board));
        }
        moves
    }

}

} // verus!
