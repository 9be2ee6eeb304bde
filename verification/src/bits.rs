//! Bitboard constants and square-level helpers.
//!
//! Squares are numbered 0..64: file = square mod 8 (0 is the a-file) and
//! rank = square div 8 (0 is rank 1). Bit `i` of a mask stands for square `i`.

use vstd::prelude::*;

verus! {

/// Mask of the a-file.
pub const FILE_A: u64 = 72340172838076673;
/// Mask of the b-file.
pub const FILE_B: u64 = 144680345676153346;
/// Mask of the c-file.
pub const FILE_C: u64 = 289360691352306692;
/// Mask of the d-file.
pub const FILE_D: u64 = 578721382704613384;
/// Mask of the e-file.
pub const FILE_E: u64 = 1157442765409226768;
/// Mask of the f-file.
pub const FILE_F: u64 = 2314885530818453536;
/// Mask of the g-file.
pub const FILE_G: u64 = 4629771061636907072;
/// Mask of the h-file.
pub const FILE_H: u64 = 9259542123273814144;
/// Mask of rank 1.
pub const RANK_1: u64 = 255;
/// Mask of rank 2.
pub const RANK_2: u64 = 65280;
/// Mask of rank 3.
pub const RANK_3: u64 = 16711680;
/// Mask of rank 4.
pub const RANK_4: u64 = 4278190080;
/// Mask of rank 5.
pub const RANK_5: u64 = 1095216660480;
/// Mask of rank 6.
pub const RANK_6: u64 = 280375465082880;
/// Mask of rank 7.
pub const RANK_7: u64 = 71776119061217280;
/// Mask of rank 8.
pub const RANK_8: u64 = 18374686479671623680;

/// Every square not on rank 1 or rank 8.
pub const NOT_RANK_1_8: u64 = !(RANK_1 | RANK_8);
/// Every square not on rank 1 or rank 2.
pub const NOT_RANK_1_2: u64 = !(RANK_1 | RANK_2);
/// Every square not on rank 7 or rank 8.
pub const NOT_RANK_7_8: u64 = !(RANK_7 | RANK_8);

/// Knight attack seed: the attack pattern of a knight on square 18, to be
/// shifted by `square - 18`.
pub const KNIGHT_SPAN: u64 = 43234889994;
/// King attack seed: the attack pattern of a king on square 9, to be shifted
/// by `square - 9`.
pub const KING_SPAN: u64 = 460039;

/// True when bit `i` of `m` is set, that is, when square `i` is in the mask.
pub open spec fn bit_set(m: u64, i: u8) -> bool {
    m & (1u64 << (i as u64)) != 0u64
}

/// The word with the 64 bits of `x` in reverse order, restricted to the low
/// `n` bits of `x`: bit `i` of `x` (for `i < n`) appears at bit `63 - i`.
pub open spec fn rev64_rec(x: u64, n: int) -> u64
    decreases n,
{
    if n <= 0 {
        0u64
    } else {
        rev64_rec(x, n - 1) | (if bit_set(x, (n - 1) as u8) {
            1u64 << ((63 - (n - 1)) as u64)
        } else {
            0u64
        })
    }
}

/// The word with the 64 bits of `x` in reverse order.
pub open spec fn rev64(x: u64) -> u64 {
    rev64_rec(x, 64)
}

/// Relies on `u64::reverse_bits`: the result holds the bits of the argument in
/// reverse order.
pub assume_specification[ u64::reverse_bits ](x: u64) -> (r: u64)
    ensures
        r == rev64(x),
;

/// Bit-level readings of the mask operators: membership of a square in a
/// conjunction, disjunction or complement of masks, and in a shifted mask.
pub proof fn lemma_bit_ops()
    by (bit_vector)
    ensures
        forall|a: u64, b: u64, i: u8|
            i < 64 ==> (#[trigger] bit_set(a & b, i) == (bit_set(a, i) && bit_set(b, i))),
        forall|a: u64, b: u64, i: u8|
            i < 64 ==> (#[trigger] bit_set(a | b, i) == (bit_set(a, i) || bit_set(b, i))),
        forall|a: u64, i: u8| i < 64 ==> (#[trigger] bit_set(!a, i) == !bit_set(a, i)),
        forall|x: u64, k: u64, i: u8|
            k < 64 && i < 64 ==> (#[trigger] bit_set(x << k, i) == (i >= k && bit_set(
                x,
                (i - k) as u8,
            ))),
        forall|x: u64, k: u64, i: u8|
            k < 64 && i < 64 ==> (#[trigger] bit_set(x >> k, i) == (i + k < 64 && bit_set(
                x,
                (i + k) as u8,
            ))),
        forall|x: u64, e: u8| e < 64 ==> ((#[trigger] (x & (1u64 << (e as u64)))) != 0 <==> bit_set(
            x,
            e,
        )),
{
}

/// The mask of rank `r` (0 is rank 1).
pub open spec fn spec_rank_mask(r: int) -> u64 {
    if r == 0 {
        RANK_1
    } else if r == 1 {
        RANK_2
    } else if r == 2 {
        RANK_3
    } else if r == 3 {
        RANK_4
    } else if r == 4 {
        RANK_5
    } else if r == 5 {
        RANK_6
    } else if r == 6 {
        RANK_7
    } else {
        RANK_8
    }
}

/// The mask of file `f` (0 is the a-file).
pub open spec fn spec_file_mask(f: int) -> u64 {
    if f == 0 {
        FILE_A
    } else if f == 1 {
        FILE_B
    } else if f == 2 {
        FILE_C
    } else if f == 3 {
        FILE_D
    } else if f == 4 {
        FILE_E
    } else if f == 5 {
        FILE_F
    } else if f == 6 {
        FILE_G
    } else {
        FILE_H
    }
}

/// The mask of the a1-h8 diagonal with index `d` = file + rank (0..15).
pub open spec fn spec_diagonal_mask(d: int) -> u64 {
    if d == 0 {
        0x1
    } else if d == 1 {
        0x102
    } else if d == 2 {
        0x10204
    } else if d == 3 {
        0x1020408
    } else if d == 4 {
        0x102040810
    } else if d == 5 {
        0x10204081020
    } else if d == 6 {
        0x1020408102040
    } else if d == 7 {
        0x102040810204080
    } else if d == 8 {
        0x204081020408000
    } else if d == 9 {
        0x408102040800000
    } else if d == 10 {
        0x810204080000000
    } else if d == 11 {
        0x1020408000000000
    } else if d == 12 {
        0x2040800000000000
    } else if d == 13 {
        0x4080000000000000
    } else {
        0x8000000000000000
    }
}

/// The mask of the a8-h1 anti-diagonal with index `d` = rank + 7 - file (0..15).
pub open spec fn spec_anti_diagonal_mask(d: int) -> u64 {
    if d == 0 {
        0x80
    } else if d == 1 {
        0x8040
    } else if d == 2 {
        0x804020
    } else if d == 3 {
        0x80402010
    } else if d == 4 {
        0x8040201008
    } else if d == 5 {
        0x804020100804
    } else if d == 6 {
        0x80402010080402
    } else if d == 7 {
        0x8040201008040201
    } else if d == 8 {
        0x4020100804020100
    } else if d == 9 {
        0x2010080402010000
    } else if d == 10 {
        0x1008040201000000
    } else if d == 11 {
        0x804020100000000
    } else if d == 12 {
        0x402010000000000
    } else if d == 13 {
        0x201000000000000
    } else {
        0x100000000000000
    }
}

/// The mask of the rank holding square `position`.
pub fn rank_mask(position: u8) -> (m: u64)
    requires
        position < 64,
    ensures
        m == spec_rank_mask(position as int / 8),
{
    match position / 8 {
        0 => RANK_1,
        1 => RANK_2,
        2 => RANK_3,
        3 => RANK_4,
        4 => RANK_5,
        5 => RANK_6,
        6 => RANK_7,
        _ => RANK_8,
    }
}

/// The mask of the file holding square `position`.
pub fn file_mask(position: u8) -> (m: u64)
    requires
        position < 64,
    ensures
        m == spec_file_mask(position as int % 8),
{
    match position % 8 {
        0 => FILE_A,
        1 => FILE_B,
        2 => FILE_C,
        3 => FILE_D,
        4 => FILE_E,
        5 => FILE_F,
        6 => FILE_G,
        _ => FILE_H,
    }
}

/// The mask of the a1-h8 diagonal holding square `position`.
pub fn diagonal_mask(position: u8) -> (m: u64)
    requires
        position < 64,
    ensures
        m == spec_diagonal_mask(position as int / 8 + position as int % 8),
{
    let d = position / 8 + position % 8;
    match d {
        0 => 0x1,
        1 => 0x102,
        2 => 0x10204,
        3 => 0x1020408,
        4 => 0x102040810,
        5 => 0x10204081020,
        6 => 0x1020408102040,
        7 => 0x102040810204080,
        8 => 0x204081020408000,
        9 => 0x408102040800000,
        10 => 0x810204080000000,
        11 => 0x1020408000000000,
        12 => 0x2040800000000000,
        13 => 0x4080000000000000,
        _ => 0x8000000000000000,
    }
}

/// The mask of the a8-h1 anti-diagonal holding square `position`.
pub fn anti_diagonal_mask(position: u8) -> (m: u64)
    requires
        position < 64,
    ensures
        m == spec_anti_diagonal_mask(position as int / 8 + 7 - position as int % 8),
{
    let d = position / 8 + 7 - position % 8;
    match d {
        0 => 0x80,
        1 => 0x8040,
        2 => 0x804020,
        3 => 0x80402010,
        4 => 0x8040201008,
        5 => 0x804020100804,
        6 => 0x80402010080402,
        7 => 0x8040201008040201,
        8 => 0x4020100804020100,
        9 => 0x2010080402010000,
        10 => 0x1008040201000000,
        11 => 0x804020100000000,
        12 => 0x402010000000000,
        13 => 0x201000000000000,
        _ => 0x100000000000000,
    }
}

/// Single-bit masks: membership of `j` in the mask of the one square `i`, and
/// the transfer of a shared square between masks that are disjoint.
pub proof fn lemma_single_bit()
    by (bit_vector)
    ensures
        forall|i: u8, j: u8|
            i < 64 && j < 64 ==> (#[trigger] bit_set(1u64 << (i as u64), j) <==> i == j),
        forall|a: u64, b: u64, i: u8|
            #![trigger bit_set(a, i), bit_set(b, i)]
            a & b == 0 && i < 64 && bit_set(a, i) ==> !bit_set(b, i),
        forall|i: u8| !bit_set(0u64, i),
        forall|x: u64| #[trigger] (0u64 & x) == 0u64,
{
}

} // verus!
