//! Primitive operations on 64-bit occupancy boards: single-bit boards,
//! directional shifts with wraparound masking, bit set/clear, bit scans and
//! population count.
use vstd::prelude::*;

verus! {

use crate::board::Squares;

/// All squares except file A (the board's western edge).
pub const NOT_A_FILE: u64 = !0x101010101010101;

/// All squares except file H (the board's eastern edge).
pub const NOT_H_FILE: u64 = !0x8080808080808080;

/// True when bit `i` of `b` is set; board squares are numbered 0 (a1) to 63 (h8).
pub open spec fn bit64(b: u64, i: u64) -> bool
    recommends
        i < 64,
{
    (b >> i) & 1 == 1
}

/// A board with exactly the bit `index` set.
pub open spec fn single_bit(index: u64) -> u64
    recommends
        index < 64,
{
    1u64 << index
}

pub open spec fn spec_shift_n(b: u64) -> u64 {
    b << 8
}

pub open spec fn spec_shift_s(b: u64) -> u64 {
    b >> 8
}

pub open spec fn spec_shift_e(b: u64) -> u64 {
    (b << 1) & NOT_A_FILE
}

pub open spec fn spec_shift_ne(b: u64) -> u64 {
    (b << 9) & NOT_A_FILE
}

pub open spec fn spec_shift_se(b: u64) -> u64 {
    (b >> 7) & NOT_A_FILE
}

pub open spec fn spec_shift_w(b: u64) -> u64 {
    (b >> 1) & NOT_H_FILE
}

pub open spec fn spec_shift_sw(b: u64) -> u64 {
    (b >> 9) & NOT_H_FILE
}

pub open spec fn spec_shift_nw(b: u64) -> u64 {
    (b << 7) & NOT_H_FILE
}

/// Generate a bitboard with a single 1 at the given square index.
pub fn generate_from_index(index: u8) -> (r: u64)
    requires
        index < 64,
    ensures
        r == single_bit(index as u64),
        forall|j: u64| j < 64 ==> (bit64(r, j) <==> j == index),
{
    proof {
        lemma_single_bit(index as u64);
    }
    1u64 << index
}

/// Shift every occupied square one rank north; rank 8 falls off the board.
pub fn shift_n(bit_board: u64) -> (r: u64)
    ensures
        r == spec_shift_n(bit_board),
{
    bit_board << 8
}

/// Shift every occupied square one rank south; rank 1 falls off the board.
pub fn shift_s(bit_board: u64) -> (r: u64)
    ensures
        r == spec_shift_s(bit_board),
{
    bit_board >> 8
}

/// Shift one file east; file H falls off, and nothing wraps onto file A.
pub fn shift_e(bit_board: u64) -> (r: u64)
    ensures
        r == spec_shift_e(bit_board),
{
    (bit_board << 1) & NOT_A_FILE
}

/// Shift one square north-east, with file-A wraparound masked off.
pub fn shift_ne(bit_board: u64) -> (r: u64)
    ensures
        r == spec_shift_ne(bit_board),
{
    (bit_board << 9) & NOT_A_FILE
}

/// Shift one square south-east, with file-A wraparound masked off.
pub fn shift_se(bit_board: u64) -> (r: u64)
    ensures
        r == spec_shift_se(bit_board),
{
    (bit_board >> 7) & NOT_A_FILE
}

/// Shift one file west; file A falls off, and nothing wraps onto file H.
pub fn shift_w(bit_board: u64) -> (r: u64)
    ensures
        r == spec_shift_w(bit_board),
{
    (bit_board >> 1) & NOT_H_FILE
}

/// Shift one square south-west, with file-H wraparound masked off.
pub fn shift_sw(bit_board: u64) -> (r: u64)
    ensures
        r == spec_shift_sw(bit_board),
{
    (bit_board >> 9) & NOT_H_FILE
}

/// Shift one square north-west, with file-H wraparound masked off.
pub fn shift_nw(bit_board: u64) -> (r: u64)
    ensures
        r == spec_shift_nw(bit_board),
{
    (bit_board << 7) & NOT_H_FILE
}

/// Clear the bit of the named square.
pub fn set_0_at_square(square: Squares, bit_board: &mut u64)
    ensures
        *final(bit_board) == *old(bit_board) & !single_bit(square as u64),
        forall|j: u64| j < 64 ==> (bit64(*final(bit_board), j) <==> (j != square as u64 && bit64(
            *old(bit_board),
            j,
        ))),
{
    set_0_at_index(square as u8, bit_board);
}

/// Set the bit of the named square.
pub fn set_1_at_square(square: Squares, bit_board: &mut u64)
    ensures
        *final(bit_board) == *old(bit_board) | single_bit(square as u64),
        forall|j: u64| j < 64 ==> (bit64(*final(bit_board), j) <==> (j == square as u64 || bit64(
            *old(bit_board),
            j,
        ))),
{
    set_1_at_index(square as u8, bit_board);
}

/// Clear the bit at the given square index.
pub fn set_0_at_index(index: u8, bit_board: &mut u64)
    requires
        index < 64,
    ensures
        *final(bit_board) == *old(bit_board) & !single_bit(index as u64),
        forall|j: u64| j < 64 ==> (bit64(*final(bit_board), j) <==> (j != index && bit64(
            *old(bit_board),
            j,
        ))),
{
    proof {
        lemma_clear_bit(*bit_board, index as u64);
    }
    *bit_board &= !generate_from_index(index)
}

/// Set the bit at the given square index.
pub fn set_1_at_index(index: u8, bit_board: &mut u64)
    requires
        index < 64,
    ensures
        *final(bit_board) == *old(bit_board) | single_bit(index as u64),
        forall|j: u64| j < 64 ==> (bit64(*final(bit_board), j) <==> (j == index || bit64(
            *old(bit_board),
            j,
        ))),
{
    proof {
        lemma_set_bit(*bit_board, index as u64);
    }
    *bit_board |= generate_from_index(index)
}

/// Index of the least-significant set bit. An empty board has no such bit and
/// is excluded by precondition: a zero board where a piece is expected means a
/// corrupted invariant, and this library's verified callers never reach it.
pub fn ls1b(bit_board: u64) -> (r: u8)
    requires
        bit_board != 0,
    ensures
        r < 64,
        r == vstd::std_specs::bits::u64_trailing_zeros(bit_board),
        bit64(bit_board, r as u64),
        forall|j: u64| j < r ==> !bit64(bit_board, j),
{
    proof {
        vstd::std_specs::bits::axiom_u64_trailing_zeros(bit_board);
    }
    bit_board.trailing_zeros() as u8
}

/// Return the index of the least-significant set bit and clear it in place.
pub fn pop_ls1b(bit_board: &mut u64) -> (r: u8)
    requires
        *old(bit_board) != 0,
    ensures
        r < 64,
        r == vstd::std_specs::bits::u64_trailing_zeros(*old(bit_board)),
        bit64(*old(bit_board), r as u64),
        forall|j: u64| j < r ==> !bit64(*old(bit_board), j),
        *final(bit_board) == *old(bit_board) & !single_bit(r as u64),
        forall|j: u64| j < 64 ==> (bit64(*final(bit_board), j) <==> (j != r && bit64(
            *old(bit_board),
            j,
        ))),
{
    proof {
        vstd::std_specs::bits::axiom_u64_trailing_zeros(*bit_board);
    }
    let cnt = bit_board.trailing_zeros() as u8;
    proof {
        assert(*bit_board << ((64 - cnt) as u64) == 0);
        lemma_pop_lowest(*bit_board, cnt as u64);
        lemma_clear_bit(*bit_board, cnt as u64);
    }
    *bit_board &= *bit_board - 1;
    cnt
}

/// The number of set bits among the lowest `n` bits of `b`.
pub open spec fn count_bits(b: u64, n: nat) -> nat
    decreases n,
{
    if n == 0 {
        0
    } else {
        count_bits(b, (n - 1) as nat) + if bit64(b, (n - 1) as u64) {
            1nat
        } else {
            0nat
        }
    }
}

/// Count the set bits of a board.
pub fn pop_count(bit_board: u64) -> (r: u8)
    ensures
        r == count_bits(bit_board, 64),
        r <= 64,
{
    proof {
        lemma_count_bits_bound(bit_board, 64);
    }
    let mut i: u8 = 0;
    let mut count: u8 = 0;
    while i < 64
        invariant
            i <= 64,
            count == count_bits(bit_board, i as nat),
            count <= i,
        decreases 64 - i,
    {
        proof {
            lemma_count_bits_bound(bit_board, i as nat);
        }
        if (bit_board >> i) & 1 == 1 {
            count += 1;
        }
        i += 1;
    }
    count
}

pub proof fn lemma_count_bits_bound(b: u64, n: nat)
    requires
        n <= 64,
    ensures
        count_bits(b, n) <= n,
    decreases n,
{
    if n > 0 {
        lemma_count_bits_bound(b, (n - 1) as nat);
    }
}

/// A single-bit board has its one bit exactly at its index.
pub proof fn lemma_single_bit(i: u64)
    requires
        i < 64,
    ensures
        forall|j: u64| j < 64 ==> (bit64(single_bit(i), j) <==> j == i),
{
    assert(forall|j: u64| j < 64 && i < 64 ==> (bit64(1u64 << i, j) <==> j == i))
        by (bit_vector);
}

/// Clearing one bit leaves every other bit unchanged.
pub proof fn lemma_clear_bit(b: u64, i: u64)
    by (bit_vector)
    requires
        i < 64,
    ensures
        forall|j: u64| j < 64 ==> (#[trigger] bit64(b & !single_bit(i), j) <==> (j != i && bit64(
            b,
            j,
        ))),
{
}

/// Setting one bit leaves every other bit unchanged.
pub proof fn lemma_set_bit(b: u64, i: u64)
    by (bit_vector)
    requires
        i < 64,
    ensures
        forall|j: u64| j < 64 ==> (#[trigger] bit64(b | single_bit(i), j) <==> (j == i || bit64(
            b,
            j,
        ))),
{
}

/// For a board whose lowest set bit is at `i` (all lower bits zero, stated as
/// a left shift that empties the board), masking with `b - 1` clears that bit.
proof fn lemma_pop_lowest(b: u64, i: u64)
    requires
        b != 0,
        i < 64,
        bit64(b, i),
        b << ((64 - i) as u64) == 0,
    ensures
        b & ((b - 1) as u64) == b & !single_bit(i),
{
    assert((b != 0 && i < 64 && bit64(b, i) && b << ((64 - i) as u64) == 0) ==> b & ((b
        - 1) as u64) == b & !single_bit(i)) by (bit_vector);
}

/// Low-bits agreement, stated over left shifts: if `a` and `b` agree on bits
/// below `n`, the boards shifted left by `64 - n` coincide.
proof fn lemma_ext_rec(a: u64, b: u64, n: u64)
    requires
        n <= 64,
        forall|j: u64| j < n ==> bit64(a, j) == bit64(b, j),
    ensures
        a << ((64 - n) as u64) == b << ((64 - n) as u64),
    decreases n,
{
    if n == 0 {
        assert(a << 64u64 == b << 64u64) by (bit_vector);
    } else {
        let m = (n - 1) as u64;
        lemma_ext_rec(a, b, m);
        assert(bit64(a, m) == bit64(b, m));
        assert((m < 64 && a << ((64 - m) as u64) == b << ((64 - m) as u64) && (bit64(a, m)
            == bit64(b, m))) ==> a << ((63 - m) as u64) == b << ((63 - m) as u64))
            by (bit_vector);
    }
}

/// Two boards with the same bits are the same board.
pub proof fn lemma_bit64_ext(a: u64, b: u64)
    requires
        forall|j: u64| j < 64 ==> bit64(a, j) == bit64(b, j),
    ensures
        a == b,
{
    lemma_ext_rec(a, b, 64);
    assert(a << 0u64 == a && b << 0u64 == b) by (bit_vector);
}

/// The bits of a bitwise OR.
pub broadcast proof fn lemma_bit64_or(a: u64, b: u64, j: u64)
    requires
        j < 64,
    ensures
        #[trigger] bit64(a | b, j) <==> bit64(a, j) || bit64(b, j),
{
    assert(j < 64 ==> ((((a | b) >> j) & 1 == 1) <==> (((a >> j) & 1 == 1) || ((b >> j) & 1
        == 1)))) by (bit_vector);
}

/// XOR or OR with an empty board changes nothing.
pub proof fn lemma_xor_zero(x: u64)
    by (bit_vector)
    ensures
        x ^ 0u64 == x,
        0u64 ^ x == x,
        x | 0u64 == x,
        0u64 | x == x,
{
}

/// A square's file is its three low bits and its rank its three high bits.
pub proof fn lemma_file_rank(s: u8)
    by (bit_vector)
    ensures
        s & 7 < 8,
        s < 64 ==> s >> 3 < 8,
{
}

/// Testing a single-bit mask against a board reads exactly that bit.
pub proof fn lemma_test_bit(b: u64, i: u64)
    by (bit_vector)
    requires
        i < 64,
    ensures
        b & single_bit(i) > 0 <==> bit64(b, i),
{
}

/// An empty board has no set bits.
pub proof fn lemma_bit64_zero()
    ensures
        forall|j: u64| j < 64 ==> !bit64(0u64, j),
{
    assert(forall|j: u64| j < 64 ==> !(((0u64 >> j) & 1) == 1)) by (bit_vector);
}

/// Wraparound safety: a lone piece on file A shifted westward (or any
/// west-going diagonal) leaves the board entirely, and likewise file H
/// eastward; north off rank 8 and south off rank 1 also empty the board.
pub proof fn lemma_shift_no_wraparound(sq: u64)
    requires
        sq < 64,
    ensures
        sq % 8 == 0 ==> spec_shift_w(single_bit(sq)) == 0,
        sq % 8 == 0 ==> spec_shift_nw(single_bit(sq)) == 0,
        sq % 8 == 0 ==> spec_shift_sw(single_bit(sq)) == 0,
        sq % 8 == 7 ==> spec_shift_e(single_bit(sq)) == 0,
        sq % 8 == 7 ==> spec_shift_ne(single_bit(sq)) == 0,
        sq % 8 == 7 ==> spec_shift_se(single_bit(sq)) == 0,
        sq >= 56 ==> spec_shift_n(single_bit(sq)) == 0,
        sq < 8 ==> spec_shift_s(single_bit(sq)) == 0,
{
    assert(sq < 64 ==> {
        &&& sq % 8 == 0 ==> ((1u64 << sq) >> 1) & NOT_H_FILE == 0
        &&& sq % 8 == 0 ==> ((1u64 << sq) << 7) & NOT_H_FILE == 0
        &&& sq % 8 == 0 ==> ((1u64 << sq) >> 9) & NOT_H_FILE == 0
        &&& sq % 8 == 7 ==> ((1u64 << sq) << 1) & NOT_A_FILE == 0
        &&& sq % 8 == 7 ==> ((1u64 << sq) << 9) & NOT_A_FILE == 0
        &&& sq % 8 == 7 ==> ((1u64 << sq) >> 7) & NOT_A_FILE == 0
        &&& sq >= 56 ==> (1u64 << sq) << 8 == 0
        &&& sq < 8 ==> (1u64 << sq) >> 8 == 0
    }) by (bit_vector);
}

} // verus!
