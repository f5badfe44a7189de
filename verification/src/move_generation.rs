//! Attack generation: precomputed leaper tables (king, knight, pawn push and
//! capture) built from directional shifts, and magic-bitboard sliding tables
//! for rooks and bishops. The sliding tables are built once by enumerating
//! every occupancy subset of each square's blocker mask, ray-casting the true
//! attack set, and storing it at the magic index; the builder checks every
//! magic collision, so a table it returns answers every query with the exact
//! ray-cast result.
use vstd::prelude::*;

verus! {

use crate::bit_operations::{
    bit64, single_bit, count_bits, generate_from_index, pop_ls1b, pop_count, shift_n,
    shift_s, shift_e, shift_w, shift_ne, shift_nw, shift_se, shift_sw, spec_shift_n, spec_shift_s,
    spec_shift_e, spec_shift_w, spec_shift_ne, spec_shift_nw, spec_shift_se, spec_shift_sw,
};

/// The boards' outer rim: ranks 1 and 8 and files A and H.
pub const EDGES: u64 = 0xff818181818181ff;

/// One step of a compass direction, numbered north, south, east, west,
/// north-east, north-west, south-east, south-west.
pub open spec fn dir_shift(d: int, b: u64) -> u64 {
    if d == 0 {
        spec_shift_n(b)
    } else if d == 1 {
        spec_shift_s(b)
    } else if d == 2 {
        spec_shift_e(b)
    } else if d == 3 {
        spec_shift_w(b)
    } else if d == 4 {
        spec_shift_ne(b)
    } else if d == 5 {
        spec_shift_nw(b)
    } else if d == 6 {
        spec_shift_se(b)
    } else {
        spec_shift_sw(b)
    }
}

/// Every square a ray reaches: step from `b`, include the square, and go on
/// while the reached square is on the board and free of `!not_blocker`; the
/// first blocker met is included (it can be captured) and stops the ray. Seven
/// steps cross the whole board, so fuel 8 is as good as unbounded.
pub open spec fn ray_spec(b: u64, not_blocker: u64, d: int, fuel: nat) -> u64
    decreases fuel,
{
    if fuel == 0 {
        0
    } else {
        let nb = dir_shift(d, b);
        if nb & not_blocker == 0 {
            nb
        } else {
            nb | ray_spec(nb, not_blocker, d, (fuel - 1) as nat)
        }
    }
}

/// The attack board of a sliding piece on `square` with the given blockers:
/// orthogonal rays for a rook (`orientation` true), diagonal for a bishop.
pub open spec fn moveboard_spec(blocker_board: u64, square: u8, orientation: bool) -> u64 {
    let b = single_bit(square as u64);
    let nb = !blocker_board;
    if orientation {
        ray_spec(b, nb, 2, 8) | ray_spec(b, nb, 0, 8) | ray_spec(b, nb, 1, 8) | ray_spec(
            b,
            nb,
            3,
            8,
        )
    } else {
        ray_spec(b, nb, 4, 8) | ray_spec(b, nb, 5, 8) | ray_spec(b, nb, 6, 8) | ray_spec(
            b,
            nb,
            7,
            8,
        )
    }
}

/// The four endpoints of a rook's cross: both ends of its file and its rank.
pub open spec fn rook_endpoints_spec(idx: u8) -> u64 {
    single_bit((idx & 7) as u64) | single_bit(((idx & 7) + 56) as u64) | single_bit(
        (((idx >> 3) * 8)) as u64,
    ) | single_bit((((idx >> 3) * 8) + 7) as u64)
}

/// The squares whose occupancy can affect a slider's attacks from `square`:
/// its lines of travel without the board edges, which nothing stands behind.
pub open spec fn spec_blockermask(square: u8, orientation: bool) -> u64 {
    if orientation {
        ((0xffu64 << ((8 * (square >> 3)) as u64)) ^ (0x101010101010101u64 << ((square
            & 7) as u64))) & !rook_endpoints_spec(square)
    } else {
        moveboard_spec(0, square, false) & !EDGES
    }
}

/// One ray of a slider's attack set, by repeated shifting until the ray
/// leaves the board or passes the first blocker.
fn ray_exec(b: u64, not_blocker: u64, d: u8, fuel: u8) -> (r: u64)
    requires
        d < 8,
    ensures
        r == ray_spec(b, not_blocker, d as int, fuel as nat),
    decreases fuel,
{
    if fuel == 0 {
        0
    } else {
        let nb = if d == 0 {
            shift_n(b)
        } else if d == 1 {
            shift_s(b)
        } else if d == 2 {
            shift_e(b)
        } else if d == 3 {
            shift_w(b)
        } else if d == 4 {
            shift_ne(b)
        } else if d == 5 {
            shift_nw(b)
        } else if d == 6 {
            shift_se(b)
        } else {
            shift_sw(b)
        };
        if nb & not_blocker == 0 {
            nb
        } else {
            nb | ray_exec(nb, not_blocker, d, fuel - 1)
        }
    }
}

/// Given a blocker board, generate the move board a slider on `square` sees:
/// orthogonal rays when `orientation` holds, diagonal rays otherwise.
pub fn to_moveboard(blocker_board: u64, square: u8, orientation: bool) -> (r: u64)
    requires
        square < 64,
    ensures
        r == moveboard_spec(blocker_board, square, orientation),
{
    let board = generate_from_index(square);
    let not_blocker = !blocker_board;
    if orientation {
        ray_exec(board, not_blocker, 2, 8) | ray_exec(board, not_blocker, 0, 8) | ray_exec(
            board,
            not_blocker,
            1,
            8,
        ) | ray_exec(board, not_blocker, 3, 8)
    } else {
        ray_exec(board, not_blocker, 4, 8) | ray_exec(board, not_blocker, 5, 8) | ray_exec(
            board,
            not_blocker,
            6,
            8,
        ) | ray_exec(board, not_blocker, 7, 8)
    }
}

/// The four endpoint squares of the rook cross through `idx`.
pub fn rook_endpoints(idx: u8) -> (r: u64)
    requires
        idx < 64,
    ensures
        r == rook_endpoints_spec(idx),
{
    let x_val = idx & 7;
    let y_val = idx >> 3;
    proof {
        crate::bit_operations::lemma_file_rank(idx);
    }
    generate_from_index(x_val) | generate_from_index(x_val + 56) | generate_from_index(y_val * 8)
        | generate_from_index((y_val + 1) * 8 - 1)
}

/// The blocker mask of a rook (`orientation` true) or bishop on `square`.
pub fn generate_blockermask(square: u8, orientation: bool) -> (r: u64)
    requires
        square < 64,
    ensures
        r == spec_blockermask(square, orientation),
{
    if orientation {
        let file = square & 7;
        let rank = square >> 3;
        proof {
            crate::bit_operations::lemma_file_rank(square);
        }
        ((0xffu64 << (8 * rank)) ^ (0x101010101010101u64 << file)) & !rook_endpoints(square)
    } else {
        to_moveboard(0, square, false) & !EDGES
    }
}

/// The destination board of a king on the given square.
pub open spec fn king_moves_spec(index: u8) -> u64 {
    let b = single_bit(index as u64);
    spec_shift_n(b) | spec_shift_ne(b) | spec_shift_e(b) | spec_shift_se(b) | spec_shift_s(b)
        | spec_shift_sw(b) | spec_shift_w(b) | spec_shift_nw(b)
}

/// The destination board of a knight on the given square.
pub open spec fn knight_moves_spec(index: u8) -> u64 {
    let b = single_bit(index as u64);
    spec_shift_w(spec_shift_nw(b)) | spec_shift_w(spec_shift_sw(b)) | spec_shift_e(
        spec_shift_ne(b),
    ) | spec_shift_e(spec_shift_se(b)) | spec_shift_n(spec_shift_ne(b)) | spec_shift_n(
        spec_shift_nw(b),
    ) | spec_shift_s(spec_shift_se(b)) | spec_shift_s(spec_shift_sw(b))
}

/// The single-push destination of a pawn of the given color (true is white);
/// pushes onto the back rank are left to promotion handling.
pub open spec fn pawn_moves_spec(index: u8, color: bool) -> u64 {
    let b = single_bit(index as u64);
    if color {
        spec_shift_n(b) & !0xff00000000000000u64
    } else {
        spec_shift_s(b) & !0xffu64
    }
}

/// The capture destinations of a pawn of the given color (true is white).
pub open spec fn pawn_captures_spec(index: u8, color: bool) -> u64 {
    let b = single_bit(index as u64);
    if color {
        (spec_shift_nw(b) | spec_shift_ne(b)) & !0xff00000000000000u64
    } else {
        (spec_shift_sw(b) | spec_shift_se(b)) & !0xffu64
    }
}

/// The king destination board for one square.
pub fn king_moves_for_square(index: u8) -> (r: u64)
    requires
        index < 64,
    ensures
        r == king_moves_spec(index),
{
    let king_board = generate_from_index(index);
    shift_n(king_board) | shift_ne(king_board) | shift_e(king_board) | shift_se(king_board)
        | shift_s(king_board) | shift_sw(king_board) | shift_w(king_board) | shift_nw(king_board)
}

/// The knight destination board for one square.
pub fn knight_moves_for_square(index: u8) -> (r: u64)
    requires
        index < 64,
    ensures
        r == knight_moves_spec(index),
{
    let knight_board = generate_from_index(index);
    shift_w(shift_nw(knight_board)) | shift_w(shift_sw(knight_board)) | shift_e(
        shift_ne(knight_board),
    ) | shift_e(shift_se(knight_board)) | shift_n(shift_ne(knight_board)) | shift_n(
        shift_nw(knight_board),
    ) | shift_s(shift_se(knight_board)) | shift_s(shift_sw(knight_board))
}

/// The single-push destination board for one pawn square and color.
pub fn pawn_moves_for_square(index: u8, color: bool) -> (r: u64)
    requires
        index < 64,
    ensures
        r == pawn_moves_spec(index, color),
{
    let pawn_board = generate_from_index(index);
    if color {
        shift_n(pawn_board) & !0xff00000000000000
    } else {
        shift_s(pawn_board) & !0xff
    }
}

/// The capture destination board for one pawn square and color.
pub fn pawn_captures_for_square(index: u8, color: bool) -> (r: u64)
    requires
        index < 64,
    ensures
        r == pawn_captures_spec(index, color),
{
    let pawn_board = generate_from_index(index);
    if color {
        (shift_nw(pawn_board) | shift_ne(pawn_board)) & !0xff00000000000000
    } else {
        (shift_sw(pawn_board) | shift_se(pawn_board)) & !0xff
    }
}

/// The 64-entry king attack table.
pub fn generate_king_moves() -> (r: [u64; 64])
    ensures
        forall|i: int| 0 <= i < 64 ==> r[i] == king_moves_spec(i as u8),
{
    let mut store_val: [u64; 64] = [0; 64];
    let mut i: usize = 0;
    while i < 64
        invariant
            i <= 64,
            forall|k: int| 0 <= k < i ==> store_val[k] == king_moves_spec(k as u8),
        decreases 64 - i,
    {
        store_val[i] = king_moves_for_square(i as u8);
        i += 1;
    }
    store_val
}

/// The 64-entry knight attack table.
pub fn generate_knight_moves() -> (r: [u64; 64])
    ensures
        forall|i: int| 0 <= i < 64 ==> r[i] == knight_moves_spec(i as u8),
{
    let mut store_val: [u64; 64] = [0; 64];
    let mut i: usize = 0;
    while i < 64
        invariant
            i <= 64,
            forall|k: int| 0 <= k < i ==> store_val[k] == knight_moves_spec(k as u8),
        decreases 64 - i,
    {
        store_val[i] = knight_moves_for_square(i as u8);
        i += 1;
    }
    store_val
}

/// The pawn single-push tables, white then black.
pub fn generate_pawnpushes() -> (r: [[u64; 64]; 2])
    ensures
        forall|i: int| 0 <= i < 64 ==> r[0][i] == pawn_moves_spec(i as u8, true),
        forall|i: int| 0 <= i < 64 ==> r[1][i] == pawn_moves_spec(i as u8, false),
{
    let mut white: [u64; 64] = [0; 64];
    let mut black: [u64; 64] = [0; 64];
    let mut i: usize = 0;
    while i < 64
        invariant
            i <= 64,
            forall|k: int| 0 <= k < i ==> white[k] == pawn_moves_spec(k as u8, true),
            forall|k: int| 0 <= k < i ==> black[k] == pawn_moves_spec(k as u8, false),
        decreases 64 - i,
    {
        white[i] = pawn_moves_for_square(i as u8, true);
        black[i] = pawn_moves_for_square(i as u8, false);
        i += 1;
    }
    [white, black]
}

/// The pawn capture tables, white then black.
pub fn generate_pawncaptures() -> (r: [[u64; 64]; 2])
    ensures
        forall|i: int| 0 <= i < 64 ==> r[0][i] == pawn_captures_spec(i as u8, true),
        forall|i: int| 0 <= i < 64 ==> r[1][i] == pawn_captures_spec(i as u8, false),
{
    let mut white: [u64; 64] = [0; 64];
    let mut black: [u64; 64] = [0; 64];
    let mut i: usize = 0;
    while i < 64
        invariant
            i <= 64,
            forall|k: int| 0 <= k < i ==> white[k] == pawn_captures_spec(k as u8, true),
            forall|k: int| 0 <= k < i ==> black[k] == pawn_captures_spec(k as u8, false),
        decreases 64 - i,
    {
        white[i] = pawn_captures_for_square(i as u8, true);
        black[i] = pawn_captures_for_square(i as u8, false);
        i += 1;
    }
    [white, black]
}

/// The 64 rook blocker masks.
pub fn generate_rooktables() -> (r: [u64; 64])
    ensures
        forall|i: int|
            0 <= i < 64 ==> r[i] == spec_blockermask(i as u8, true) & !rook_endpoints_spec(i as u8),
{
    let mut arr: [u64; 64] = [0; 64];
    let mut i: usize = 0;
    while i < 64
        invariant
            i <= 64,
            forall|k: int|
                0 <= k < i ==> arr[k] == spec_blockermask(k as u8, true) & !rook_endpoints_spec(
                    k as u8,
                ),
        decreases 64 - i,
    {
        arr[i] = generate_blockermask(i as u8, true) & !rook_endpoints(i as u8);
        i += 1;
    }
    arr
}

/// Two to the power `n`.
pub open spec fn two_to(n: nat) -> nat
    decreases n,
{
    if n == 0 {
        1
    } else {
        2 * two_to((n - 1) as nat)
    }
}

/// The number of occupancy subsets of a mask.
pub open spec fn perm_count(mask: u64) -> nat {
    two_to(count_bits(mask, 64))
}

/// A left shift of one computes the power of two, for the small exponents a
/// blocker mask can have.
proof fn lemma_shl_two_to(b: u64)
    requires
        b <= 16,
    ensures
        (1u64 << b) == two_to(b as nat),
    decreases b,
{
    if b == 0 {
        assert(1u64 << 0u64 == 1) by (bit_vector);
    } else {
        lemma_shl_two_to((b - 1) as u64);
        assert(b <= 16 && b >= 1 ==> 1u64 << b == 2 * (1u64 << ((b - 1) as u64)))
            by (bit_vector);
    }
}

/// An empty board has no bits to count.
proof fn lemma_count_zero(n: nat)
    requires
        n <= 64,
    ensures
        count_bits(0u64, n) == 0,
    decreases n,
{
    crate::bit_operations::lemma_bit64_zero();
    if n > 0 {
        lemma_count_zero((n - 1) as nat);
    }
}

/// Clearing a set bit lowers the population count by exactly one.
proof fn lemma_count_clear(b: u64, i: u64, n: nat)
    requires
        i < 64,
        n <= 64,
        bit64(b, i),
    ensures
        count_bits(b, n) == count_bits(b & !single_bit(i), n) + (if (i as nat) < n {
            1nat
        } else {
            0nat
        }),
    decreases n,
{
    crate::bit_operations::lemma_clear_bit(b, i);
    if n > 0 {
        lemma_count_clear(b, i, (n - 1) as nat);
        assert(bit64(b & !single_bit(i), (n - 1) as u64) == ((n - 1) != i && bit64(
            b,
            (n - 1) as u64,
        )));
    }
}

/// The occupancy subset of `mask` selected by the bits of `it`: bit `k` of
/// `it` keeps or drops the `k`-th lowest set bit of the mask. Indices up to
/// `perm_count(mask)` enumerate exactly the subsets of the mask.
pub open spec fn perm_spec(mask: u64, it: nat) -> u64
    decreases it,
{
    if it == 0 {
        0
    } else {
        let t = vstd::std_specs::bits::u64_trailing_zeros(mask) as u64;
        let rest = perm_spec(mask & !single_bit(t), it / 2);
        if it % 2 == 1 {
            single_bit(t) | rest
        } else {
            rest
        }
    }
}

/// Build the occupancy subset of `mask` that the index selects, by walking
/// the mask's set bits from the lowest up.
pub fn generate_permutation(mask: u64, permutation: u16) -> (r: u64)
    requires
        (permutation as nat) < perm_count(mask),
    ensures
        r == perm_spec(mask, permutation as nat),
{
    let mut mask = mask;
    let mut blockers: u64 = 0;
    let mut iteration = permutation;
    let ghost full_mask = mask;
    let ghost full_it = permutation as nat;
    proof {
        crate::bit_operations::lemma_xor_zero(perm_spec(mask, permutation as nat));
    }
    while iteration != 0
        invariant
            (iteration as nat) < perm_count(mask),
            perm_spec(full_mask, full_it) == blockers | perm_spec(mask, iteration as nat),
        decreases iteration,
    {
        proof {
            if mask == 0 {
                lemma_count_zero(64);
                assert(perm_count(0u64) == 1);
            }
        }
        let ghost pre_mask = mask;
        let ghost pre_it: u16 = iteration;
        let ghost pre_blockers = blockers;
        let bit_set = iteration & 1 == 1;
        let idx = pop_ls1b(&mut mask);
        if bit_set {
            blockers |= generate_from_index(idx);
        }
        iteration >>= 1;
        proof {
            assert(pre_it >> 1u16 == pre_it / 2 && ((pre_it & 1 == 1) <==> (pre_it % 2 == 1)) && (
            pre_it != 0 ==> pre_it >> 1u16 < pre_it)) by (bit_vector);
            lemma_count_clear(pre_mask, idx as u64, 64);
            assert(count_bits(pre_mask, 64) == count_bits(mask, 64) + 1);
            assert(two_to(count_bits(mask, 64) + 1) == 2 * two_to(count_bits(mask, 64)));
            assert(perm_spec(pre_mask, pre_it as nat) == (if pre_it % 2 == 1 {
                single_bit(idx as u64) | perm_spec(mask, (pre_it / 2) as nat)
            } else {
                perm_spec(mask, (pre_it / 2) as nat)
            }));
            if bit_set {
                let a = pre_blockers;
                let s = single_bit(idx as u64);
                let r = perm_spec(mask, iteration as nat);
                assert(a | (s | r) == (a | s) | r) by (bit_vector);
            }
        }
    }
    proof {
        crate::bit_operations::lemma_xor_zero(blockers);
    }
    blockers
}

/// The magic index of an occupancy subset: multiply by the magic constant,
/// wrapping, and keep the top `bits` bits.
pub open spec fn transform_spec(occupancy: u64, magic: u64, bits: u32) -> u32 {
    (vstd::wrapping::u64_specs::wrapping_mul(occupancy, magic) >> ((64 - bits) as u64)) as u32
}

/// Compute the magic index.
pub fn transform(occupancy: u64, magic: u64, bits: u32) -> (r: u32)
    requires
        1 <= bits <= 64,
    ensures
        r == transform_spec(occupancy, magic, bits),
        bits <= 16 ==> (r as nat) < two_to(bits as nat),
{
    let m = occupancy.wrapping_mul(magic);
    let shifted = m >> ((64 - bits) as u64);
    proof {
        if bits <= 16 {
            assert((1 <= bits <= 16) ==> (m >> ((64 - bits) as u64)) < (1u64 << (
            bits as u64))) by (bit_vector);
            lemma_shl_two_to(bits as u64);
        }
    }
    #[verifier::truncate] (shifted as u32)
}

/// The magic index always lies below two to the index width.
proof fn lemma_transform_bound(occupancy: u64, magic: u64, bits: u32)
    requires
        1 <= bits <= 16,
    ensures
        (transform_spec(occupancy, magic, bits) as nat) < two_to(bits as nat),
{
    let m = vstd::wrapping::u64_specs::wrapping_mul(occupancy, magic);
    assert((1 <= bits <= 16) ==> ((m >> ((64 - bits) as u64)) < (1u64 << (bits as u64)) && ((m
        >> ((64 - bits) as u64)) as u32) == (m >> ((64 - bits) as u64)))) by (bit_vector);
    lemma_shl_two_to(bits as u64);
}

/// Which subset index reproduces a given subset `b` of `mask`: bit by bit
/// from the mask's lowest set bit up.
pub open spec fn perm_index_of(mask: u64, b: u64) -> nat
    decreases mask,
    via perm_index_of_decreases
{
    if mask == 0 {
        0
    } else {
        let t = vstd::std_specs::bits::u64_trailing_zeros(mask) as u64;
        (if bit64(b, t) {
            1nat
        } else {
            0nat
        }) + 2 * perm_index_of(mask & !single_bit(t), b & !single_bit(t))
    }
}

#[via_fn]
proof fn perm_index_of_decreases(mask: u64, b: u64) {
    if mask != 0 {
        vstd::std_specs::bits::axiom_u64_trailing_zeros(mask);
        let t = vstd::std_specs::bits::u64_trailing_zeros(mask) as u64;
        assert((mask != 0 && t < 64 && (mask >> t) & 1 == 1) ==> mask & !(single_bit(t)) < mask)
            by (bit_vector);
    }
}

/// Subset enumeration is surjective: every subset of the mask is produced by
/// some index below the subset count, namely its own.
pub proof fn lemma_perm_surjective(mask: u64, b: u64)
    requires
        b & !mask == 0,
    ensures
        perm_index_of(mask, b) < perm_count(mask),
        perm_spec(mask, perm_index_of(mask, b)) == b,
    decreases mask,
{
    if mask == 0 {
        assert(b & !0u64 == b) by (bit_vector);
        lemma_count_zero(64);
    } else {
        vstd::std_specs::bits::axiom_u64_trailing_zeros(mask);
        let t = vstd::std_specs::bits::u64_trailing_zeros(mask) as u64;
        let m2 = mask & !single_bit(t);
        let b2 = b & !single_bit(t);
        assert((mask != 0 && t < 64 && (mask >> t) & 1 == 1) ==> (mask & !single_bit(t))
            < mask) by (bit_vector);
        assert((b & !mask == 0 && t < 64) ==> ((b & !single_bit(t)) & !(mask & !single_bit(t)))
            == 0) by (bit_vector);
        lemma_perm_surjective(m2, b2);
        lemma_count_clear(mask, t, 64);
        let x: nat = if bit64(b, t) {
            1nat
        } else {
            0nat
        };
        let idx2 = perm_index_of(m2, b2);
        let idx = perm_index_of(mask, b);
        assert(idx == x + 2 * idx2);
        assert(perm_count(mask) == 2 * perm_count(m2));
        if idx == 0 {
            assert(!bit64(b, t));
            assert((t < 64 && !((b >> t) & 1 == 1)) ==> b & !single_bit(t) == b) by (bit_vector);
        } else {
            assert(idx % 2 == x && idx / 2 == idx2);
            if x == 1 {
                assert((t < 64 && (b >> t) & 1 == 1) ==> single_bit(t) | (b & !single_bit(t))
                    == b) by (bit_vector);
            } else {
                assert((t < 64 && !((b >> t) & 1 == 1)) ==> b & !single_bit(t) == b)
                    by (bit_vector);
            }
        }
    }
}

/// A finished sliding-piece table for one square: at the magic index of every
/// occupancy subset of the blocker mask stands exactly the ray-cast attack
/// set of that subset.
pub open spec fn slider_table_ok(table: Seq<u64>, square: u8, orientation: bool, magic: u64) -> bool {
    let mask = spec_blockermask(square, orientation);
    &&& 1 <= count_bits(mask, 64) <= 12
    &&& table.len() == (if orientation {
        4096int
    } else {
        512int
    })
    &&& perm_count(mask) <= table.len()
    &&& forall|j: nat|
        j < perm_count(mask) ==> table[transform_spec(
            #[trigger] perm_spec(mask, j),
            magic,
            count_bits(mask, 64) as u32,
        ) as int] == moveboard_spec(perm_spec(mask, j), square, orientation)
}

/// What construction success takes: the blocker mask's bit count in the range
/// the table sizes accommodate, and a magic constant whose index transform
/// only ever maps two occupancy subsets together when their attack sets agree
/// (the harmless "constructive" collisions of the magic-bitboard technique).
pub open spec fn magic_is_sound(square: u8, orientation: bool, magic: u64) -> bool {
    let mask = spec_blockermask(square, orientation);
    let bits = count_bits(mask, 64);
    &&& 1 <= bits <= 12
    &&& perm_count(mask) <= (if orientation {
        4096int
    } else {
        512int
    })
    &&& forall|j1: nat, j2: nat|
        #![trigger perm_spec(mask, j1), perm_spec(mask, j2)]
        j1 < perm_count(mask) && j2 < perm_count(mask) && transform_spec(
            perm_spec(mask, j1),
            magic,
            bits as u32,
        ) == transform_spec(perm_spec(mask, j2), magic, bits as u32) ==> moveboard_spec(
            perm_spec(mask, j1),
            square,
            orientation,
        ) == moveboard_spec(perm_spec(mask, j2), square, orientation)
}

/// Build one square's sliding-attack table: enumerate every occupancy subset
/// of the blocker mask, ray-cast its true attack set, and store it at the
/// magic index. Every collision is checked, so the table is built exactly
/// when the magic constant is sound, and a returned table is correct whatever
/// the constant was.
fn build_slider_table(square: u8, orientation: bool, magic: u64) -> (r: Option<Vec<u64>>)
    requires
        square < 64,
    ensures
        r matches Option::Some(t) ==> slider_table_ok(t@, square, orientation, magic),
        r is Some <==> magic_is_sound(square, orientation, magic),
{
    let size: usize = if orientation {
        4096
    } else {
        512
    };
    let mask = generate_blockermask(square, orientation);
    let bits = pop_count(mask);
    if bits < 1 || bits > 12 {
        proof {
            assert(!magic_is_sound(square, orientation, magic));
        }
        return Option::None;
    }
    let permutations: u64 = 1u64 << (bits as u64);
    proof {
        lemma_shl_two_to(bits as u64);
        assert(permutations as nat == perm_count(mask));
        assert(permutations <= 4096) by {
            assert(forall|b: u64| b <= 12 ==> (1u64 << b) <= 4096) by (bit_vector);
        }
    }
    if permutations > size as u64 {
        proof {
            assert(!magic_is_sound(square, orientation, magic));
        }
        return Option::None;
    }
    let mut table: Vec<u64> = Vec::new();
    let mut written: Vec<bool> = Vec::new();
    let mut fill: usize = 0;
    while fill < size
        invariant
            table@.len() == fill,
            written@.len() == fill,
            fill <= size,
            forall|i: int| 0 <= i < fill ==> written@[i] == false,
        decreases size - fill,
    {
        table.push(0);
        written.push(false);
        fill += 1;
    }

    let mut j: u64 = 0;
    while j < permutations
        invariant
            square < 64,
            1 <= bits <= 12,
            mask == spec_blockermask(square, orientation),
            bits == count_bits(mask, 64),
            permutations as nat == perm_count(mask),
            permutations <= size,
            size == (if orientation {
                4096int
            } else {
                512int
            }),
            table@.len() == size,
            written@.len() == size,
            forall|k: nat|
                k < j ==> {
                    &&& written@[transform_spec(
                        #[trigger] perm_spec(mask, k),
                        magic,
                        bits as u32,
                    ) as int]
                    &&& table@[transform_spec(perm_spec(mask, k), magic, bits as u32) as int]
                        == moveboard_spec(perm_spec(mask, k), square, orientation)
                },
            forall|idx: int|
                #![trigger written@[idx]]
                0 <= idx < size && written@[idx] ==> (exists|k: nat|
                    #![trigger perm_spec(mask, k)]
                    k < j && transform_spec(perm_spec(mask, k), magic, bits as u32) as int == idx
                        && table@[idx] == moveboard_spec(perm_spec(mask, k), square, orientation)),
        decreases permutations - j,
    {
        let blockerboard = generate_permutation(mask, j as u16);
        let key = transform(blockerboard, magic, bits as u32);
        let att = to_moveboard(blockerboard, square, orientation);
        proof {
            assert(j < 4096 && (j as u16) as nat == j as nat);
            assert(blockerboard == perm_spec(mask, j as nat));
            assert(key == transform_spec(perm_spec(mask, j as nat), magic, bits as u32));
        }
        let ghost pre_table = table@;
        let ghost pre_written = written@;
        if written[key as usize] {
            if table[key as usize] != att {
                proof {
                    // the slot's earlier occupant proves the harmful collision
                    let k = choose|k: nat|
                        k < j && transform_spec(perm_spec(mask, k), magic, bits as u32) as int
                            == key as int && table@[key as int] == moveboard_spec(
                            perm_spec(mask, k),
                            square,
                            orientation,
                        );
                    assert(transform_spec(perm_spec(mask, k), magic, bits as u32)
                        == transform_spec(perm_spec(mask, j as nat), magic, bits as u32));
                    assert(moveboard_spec(perm_spec(mask, k), square, orientation)
                        != moveboard_spec(perm_spec(mask, j as nat), square, orientation));
                    assert(!magic_is_sound(square, orientation, magic));
                }
                return Option::None;
            }
        } else {
            table[key as usize] = att;
            written[key as usize] = true;
        }
        proof {
            assert forall|k: nat| k < j + 1 implies {
                &&& written@[transform_spec(
                    #[trigger] perm_spec(mask, k),
                    magic,
                    bits as u32,
                ) as int]
                &&& table@[transform_spec(perm_spec(mask, k), magic, bits as u32) as int]
                    == moveboard_spec(perm_spec(mask, k), square, orientation)
            } by {
                lemma_transform_bound(perm_spec(mask, k), magic, bits as u32);
                let idx = transform_spec(perm_spec(mask, k), magic, bits as u32) as int;
                assert(0 <= idx < size as int);
                if k < j {
                    assert(pre_written[idx] && pre_table[idx] == moveboard_spec(
                        perm_spec(mask, k),
                        square,
                        orientation,
                    ));
                    if !pre_written[key as int] {
                        assert(idx != key as int);
                    }
                } else {
                    assert(k == j);
                    assert(written@[key as int] && table@[key as int] == att);
                }
            }
            assert forall|idx: int|
                0 <= idx < size && written@[idx] implies (exists|k: nat|
                #![trigger perm_spec(mask, k)]
                k < j + 1 && transform_spec(perm_spec(mask, k), magic, bits as u32) as int == idx
                    && table@[idx] == moveboard_spec(perm_spec(mask, k), square, orientation)) by {
                if pre_written[idx] {
                    let k = choose|k: nat|
                        k < j && transform_spec(perm_spec(mask, k), magic, bits as u32) as int
                            == idx && pre_table[idx] == moveboard_spec(
                            perm_spec(mask, k),
                            square,
                            orientation,
                        );
                    assert(table@[idx] == pre_table[idx]);
                    assert(k < j + 1 && transform_spec(perm_spec(mask, k), magic, bits as u32) as int
                        == idx && table@[idx] == moveboard_spec(
                        perm_spec(mask, k),
                        square,
                        orientation,
                    ));
                } else {
                    assert(idx == key as int);
                    assert((j as nat) < j + 1 && transform_spec(
                        perm_spec(mask, j as nat),
                        magic,
                        bits as u32,
                    ) as int == idx && table@[idx] == moveboard_spec(
                        perm_spec(mask, j as nat),
                        square,
                        orientation,
                    ));
                }
            }
        }
        j += 1;
    }
    proof {
        assert forall|j1: nat, j2: nat|
            #![trigger perm_spec(mask, j1), perm_spec(mask, j2)]
            j1 < perm_count(mask) && j2 < perm_count(mask) && transform_spec(
                perm_spec(mask, j1),
                magic,
                count_bits(mask, 64) as u32,
            ) == transform_spec(
                perm_spec(mask, j2),
                magic,
                count_bits(mask, 64) as u32,
            ) implies moveboard_spec(perm_spec(mask, j1), square, orientation) == moveboard_spec(
            perm_spec(mask, j2),
            square,
            orientation,
        ) by {
            assert(table@[transform_spec(perm_spec(mask, j1), magic, bits as u32) as int]
                == moveboard_spec(perm_spec(mask, j1), square, orientation));
            assert(table@[transform_spec(perm_spec(mask, j2), magic, bits as u32) as int]
                == moveboard_spec(perm_spec(mask, j2), square, orientation));
        }
        assert(magic_is_sound(square, orientation, magic));
    }
    Option::Some(table)
}

/// The rook magic multipliers; any values work, since the table builder
/// verifies every collision they produce, but these are known-good plain
/// magic constants for which construction succeeds.
pub const RMAGICS: [u64; 64] = [
        0x0080001020400080,
        0x0040001000200040,
        0x0080081000200080,
        0x0080040800100080,
        0x0080020400080080,
        0x0080010200040080,
        0x0080008001000200,
        0x0080002040800100,
        0x0000800020400080,
        0x0000400020005000,
        0x0000801000200080,
        0x0000800800100080,
        0x0000800400080080,
        0x0000800200040080,
        0x0000800100020080,
        0x0000800040800100,
        0x0000208000400080,
        0x0000404000201000,
        0x0000808010002000,
        0x0000808008001000,
        0x0000808004000800,
        0x0000808002000400,
        0x0000010100020004,
        0x0000020000408104,
        0x0000208080004000,
        0x0000200040005000,
        0x0000100080200080,
        0x0000080080100080,
        0x0000040080080080,
        0x0000020080040080,
        0x0000010080800200,
        0x0000800080004100,
        0x0000204000800080,
        0x0000200040401000,
        0x0000100080802000,
        0x0000080080801000,
        0x0000040080800800,
        0x0000020080800400,
        0x0000020001010004,
        0x0000800040800100,
        0x0000204000808000,
        0x0000200040008080,
        0x0000100020008080,
        0x0000080010008080,
        0x0000040008008080,
        0x0000020004008080,
        0x0000010002008080,
        0x0000004081020004,
        0x0000204000800080,
        0x0000200040008080,
        0x0000100020008080,
        0x0000080010008080,
        0x0000040008008080,
        0x0000020004008080,
        0x0000800100020080,
        0x0000800041000080,
        0x00FFFCDDFCED714A,
        0x007FFCDDFCED714A,
        0x003FFFCDFFD88096,
        0x0000040810002101,
        0x0001000204080011,
        0x0001000204000801,
        0x0001000082000401,
        0x0001FFFAABFAD1A2,
];

/// The bishop magic multipliers; as with the rook set, correctness never
/// rests on them, only construction success does.
pub const BMAGICS: [u64; 64] = [
        0x0002020202020200,
        0x0002020202020000,
        0x0004010202000000,
        0x0004040080000000,
        0x0001104000000000,
        0x0000821040000000,
        0x0000410410400000,
        0x0000104104104000,
        0x0000040404040400,
        0x0000020202020200,
        0x0000040102020000,
        0x0000040400800000,
        0x0000011040000000,
        0x0000008210400000,
        0x0000004104104000,
        0x0000002082082000,
        0x0004000808080800,
        0x0002000404040400,
        0x0001000202020200,
        0x0000800802004000,
        0x0000800400A00000,
        0x0000200100884000,
        0x0000400082082000,
        0x0000200041041000,
        0x0002080010101000,
        0x0001040008080800,
        0x0000208004010400,
        0x0000404004010200,
        0x0000840000802000,
        0x0000404002011000,
        0x0000808001041000,
        0x0000404000820800,
        0x0001041000202000,
        0x0000820800101000,
        0x0000104400080800,
        0x0000020080080080,
        0x0000404040040100,
        0x0000808100020100,
        0x0001010100020800,
        0x0000808080010400,
        0x0000820820004000,
        0x0000410410002000,
        0x0000082088001000,
        0x0000002011000800,
        0x0000080100400400,
        0x0001010101000200,
        0x0002020202000400,
        0x0001010101000200,
        0x0000410410400000,
        0x0000208208200000,
        0x0000002084100000,
        0x0000000020880000,
        0x0000001002020000,
        0x0000040408020000,
        0x0004040404040000,
        0x0002020202020000,
        0x0000104104104000,
        0x0000002082082000,
        0x0000000020841000,
        0x0000000000208800,
        0x0000000010020200,
        0x0000000404080200,
        0x0000040404040400,
        0x0002020202020200,
];

/// Sixty-four finished sliding tables, one per square.
pub open spec fn all_slider_tables_ok(
    tables: Seq<Vec<u64>>,
    magics: [u64; 64],
    orientation: bool,
) -> bool {
    &&& tables.len() == 64
    &&& forall|sq: int|
        0 <= sq < 64 ==> slider_table_ok(#[trigger] tables[sq]@, sq as u8, orientation, magics[sq])
}

/// Every square's magic constant is sound for its blocker mask.
pub open spec fn all_magics_sound(magics: [u64; 64], orientation: bool) -> bool {
    forall|sq: int| 0 <= sq < 64 ==> #[trigger] magic_is_sound(sq as u8, orientation, magics[sq])
}

/// Build the rook lookup tables for all 64 squares; they are built exactly
/// when no magic constant produces a harmful collision.
pub fn generate_all_rlookups(magics: &[u64; 64]) -> (r: Option<Vec<Vec<u64>>>)
    ensures
        r matches Option::Some(t) ==> all_slider_tables_ok(t@, *magics, true),
        r is Some <==> all_magics_sound(*magics, true),
{
    let mut vals: Vec<Vec<u64>> = Vec::new();
    let mut i: usize = 0;
    while i < 64
        invariant
            i <= 64,
            vals@.len() == i,
            forall|sq: int|
                0 <= sq < i ==> slider_table_ok(#[trigger] vals@[sq]@, sq as u8, true, magics[sq]),
            forall|sq: int| 0 <= sq < i ==> #[trigger] magic_is_sound(sq as u8, true, magics[sq]),
        decreases 64 - i,
    {
        match build_slider_table(i as u8, true, magics[i]) {
            Option::Some(t) => {
                vals.push(t);
            },
            Option::None => {
                return Option::None;
            },
        }
        i += 1;
    }
    Option::Some(vals)
}

/// Build the bishop lookup tables for all 64 squares; they are built exactly
/// when no magic constant produces a harmful collision.
pub fn generate_all_blookups(magics: &[u64; 64]) -> (r: Option<Vec<Vec<u64>>>)
    ensures
        r matches Option::Some(t) ==> all_slider_tables_ok(t@, *magics, false),
        r is Some <==> all_magics_sound(*magics, false),
{
    let mut vals: Vec<Vec<u64>> = Vec::new();
    let mut i: usize = 0;
    while i < 64
        invariant
            i <= 64,
            vals@.len() == i,
            forall|sq: int|
                0 <= sq < i ==> slider_table_ok(#[trigger] vals@[sq]@, sq as u8, false, magics[sq]),
            forall|sq: int| 0 <= sq < i ==> #[trigger] magic_is_sound(sq as u8, false, magics[sq]),
        decreases 64 - i,
    {
        match build_slider_table(i as u8, false, magics[i]) {
            Option::Some(t) => {
                vals.push(t);
            },
            Option::None => {
                return Option::None;
            },
        }
        i += 1;
    }
    Option::Some(vals)
}

/// All occupancy subsets of one rook blocker mask, by index.
pub fn generate_all_rperms(square: u8) -> (r: Vec<u64>)
    requires
        square < 64,
    ensures
        r@.len() == 4096,
        forall|j: nat|
            j < perm_count(spec_blockermask(square, true) & !rook_endpoints_spec(square)) && j
                < 4096 ==> r@[j as int] == perm_spec(
                spec_blockermask(square, true) & !rook_endpoints_spec(square),
                j,
            ),
{
    let mask = generate_blockermask(square, true) & !rook_endpoints(square);
    generate_perm_list(mask, 4096)
}

/// All occupancy subsets of one bishop blocker mask, by index.
pub fn generate_all_bperms(square: u8) -> (r: Vec<u64>)
    requires
        square < 64,
    ensures
        r@.len() == 512,
        forall|j: nat|
            j < perm_count(spec_blockermask(square, false) & !EDGES) && j < 512 ==> r@[j as int]
                == perm_spec(spec_blockermask(square, false) & !EDGES, j),
{
    let mask = generate_blockermask(square, false) & !EDGES;
    generate_perm_list(mask, 512)
}

/// Small powers of two, by unfolding.
proof fn lemma_two_to_values()
    ensures
        two_to(9) == 512,
        two_to(12) == 4096,
        two_to(13) == 8192,
{
    assert(two_to(0) == 1);
    assert(two_to(1) == 2);
    assert(two_to(2) == 4);
    assert(two_to(3) == 8);
    assert(two_to(4) == 16);
    assert(two_to(5) == 32);
    assert(two_to(6) == 64);
    assert(two_to(7) == 128);
    assert(two_to(8) == 256);
    assert(two_to(9) == 512);
    assert(two_to(10) == 1024);
    assert(two_to(11) == 2048);
    assert(two_to(12) == 4096);
    assert(two_to(13) == 8192);
}

/// Powers of two grow with the exponent.
proof fn lemma_two_to_monotone(a: nat, b: nat)
    requires
        a <= b,
    ensures
        two_to(a) <= two_to(b),
    decreases b,
{
    if a < b {
        lemma_two_to_monotone(a, (b - 1) as nat);
    }
}

/// The first `size` occupancy subsets of a mask, in index order; entries past
/// the mask's subset count stay empty.
fn generate_perm_list(mask: u64, size: usize) -> (r: Vec<u64>)
    requires
        size <= 4096,
    ensures
        r@.len() == size,
        forall|j: nat|
            j < perm_count(mask) && j < size ==> r@[j as int] == perm_spec(mask, j),
{
    let bits = pop_count(mask);
    let mut arr: Vec<u64> = Vec::new();
    let mut fill: usize = 0;
    while fill < size
        invariant
            arr@.len() == fill,
            fill <= size,
        decreases size - fill,
    {
        arr.push(0);
        fill += 1;
    }
    let limit: u64 = if bits > 12 {
        proof {
            lemma_two_to_values();
            lemma_two_to_monotone(13, bits as nat);
        }
        size as u64
    } else {
        proof {
            lemma_shl_two_to(bits as u64);
        }
        let p = 1u64 << (bits as u64);
        if p > size as u64 {
            size as u64
        } else {
            p
        }
    };
    let mut i: u64 = 0;
    while i < limit
        invariant
            size <= 4096,
            limit <= size,
            limit as nat <= perm_count(mask),
            limit == size || limit as nat == perm_count(mask),
            arr@.len() == size,
            forall|j: nat| j < i ==> arr@[j as int] == perm_spec(mask, j),
        decreases limit - i,
    {
        proof {
            assert(i < 4096);
            assert(i < 65536 ==> (i as u16) == i) by (bit_vector);
        }
        let p = generate_permutation(mask, i as u16);
        arr[i as usize] = p;
        i += 1;
    }
    arr
}

/// The sliding-attack context: the magic multipliers and the finished lookup
/// tables they index, built once and shared read-only by every query.
pub struct AttackTables {
    pub rook_magics: [u64; 64],
    pub bishop_magics: [u64; 64],
    pub rook_tables: Vec<Vec<u64>>,
    pub bishop_tables: Vec<Vec<u64>>,
}

/// Every per-square table answers with the exact ray-cast attack set.
pub open spec fn attack_tables_ok(t: AttackTables) -> bool {
    &&& all_slider_tables_ok(t.rook_tables@, t.rook_magics, true)
    &&& all_slider_tables_ok(t.bishop_tables@, t.bishop_magics, false)
}

/// Build the full sliding-attack context from the fixed magic constants; the
/// collision checks make success of this construction, not the constants
/// themselves, the ground of every attack query's correctness, and it
/// succeeds exactly when every constant of both sets is sound — which the
/// fixed sets are, so this construction is owed to succeed.
pub fn generate_attack_tables() -> (r: Option<AttackTables>)
    ensures
        r matches Option::Some(t) ==> attack_tables_ok(t) && t.rook_magics == RMAGICS
            && t.bishop_magics == BMAGICS,
        r is Some <==> all_magics_sound(RMAGICS, true) && all_magics_sound(BMAGICS, false),
{
    let rook_tables = match generate_all_rlookups(&RMAGICS) {
        Option::Some(t) => t,
        Option::None => {
            return Option::None;
        },
    };
    let bishop_tables = match generate_all_blookups(&BMAGICS) {
        Option::Some(t) => t,
        Option::None => {
            return Option::None;
        },
    };
    Option::Some(
        AttackTables { rook_magics: RMAGICS, bishop_magics: BMAGICS, rook_tables, bishop_tables },
    )
}

/// The squares a rook on `square` attacks under the given occupancy, by magic
/// lookup: exactly the direct ray-cast over the occupancy within the
/// blocker mask.
pub fn rook_attacks(occupancy: u64, square: u8, tables: &AttackTables) -> (r: u64)
    requires
        square < 64,
        attack_tables_ok(*tables),
    ensures
        r == moveboard_spec(occupancy & spec_blockermask(square, true), square, true),
{
    let mask = generate_blockermask(square, true);
    let bits = pop_count(mask);
    proof {
        assert(slider_table_ok(tables.rook_tables@[square as int]@, square, true,
            tables.rook_magics[square as int]));
        assert((mask & occupancy) & !mask == 0 && mask & occupancy == occupancy & mask)
            by (bit_vector);
        lemma_perm_surjective(mask, mask & occupancy);
        lemma_transform_bound(mask & occupancy, tables.rook_magics[square as int], bits as u32);
        lemma_two_to_values();
        lemma_two_to_monotone(count_bits(mask, 64), 12);
    }
    let idx = transform(mask & occupancy, tables.rook_magics[square as usize], bits as u32);
    tables.rook_tables[square as usize][idx as usize]
}

/// The squares a bishop on `square` attacks under the given occupancy, by
/// magic lookup: exactly the direct ray-cast over the occupancy within the
/// blocker mask.
pub fn bishop_attacks(occupancy: u64, square: u8, tables: &AttackTables) -> (r: u64)
    requires
        square < 64,
        attack_tables_ok(*tables),
    ensures
        r == moveboard_spec(occupancy & spec_blockermask(square, false), square, false),
{
    let mask = generate_blockermask(square, false);
    let bits = pop_count(mask);
    proof {
        assert(slider_table_ok(tables.bishop_tables@[square as int]@, square, false,
            tables.bishop_magics[square as int]));
        assert((mask & occupancy) & !mask == 0 && mask & occupancy == occupancy & mask)
            by (bit_vector);
        lemma_perm_surjective(mask, mask & occupancy);
        lemma_transform_bound(mask & occupancy, tables.bishop_magics[square as int], bits as u32);
        lemma_two_to_values();
        lemma_two_to_monotone(count_bits(mask, 64), 12);
    }
    let idx = transform(mask & occupancy, tables.bishop_magics[square as usize], bits as u32);
    tables.bishop_tables[square as usize][idx as usize]
}

/// The squares a queen attacks: the union of the rook and bishop attacks.
pub fn queen_attacks(occupancy: u64, square: u8, tables: &AttackTables) -> (r: u64)
    requires
        square < 64,
        attack_tables_ok(*tables),
    ensures
        r == moveboard_spec(occupancy & spec_blockermask(square, false), square, false)
            | moveboard_spec(occupancy & spec_blockermask(square, true), square, true),
{
    bishop_attacks(occupancy, square, tables) | rook_attacks(occupancy, square, tables)
}

/// The 64 bishop blocker masks.
pub fn generate_bishoptables() -> (r: [u64; 64])
    ensures
        forall|i: int| 0 <= i < 64 ==> r[i] == spec_blockermask(i as u8, false) & !EDGES,
{
    let mut arr: [u64; 64] = [0; 64];
    let mut i: usize = 0;
    while i < 64
        invariant
            i <= 64,
            forall|k: int| 0 <= k < i ==> arr[k] == spec_blockermask(k as u8, false) & !EDGES,
        decreases 64 - i,
    {
        arr[i] = generate_blockermask(i as u8, false) & !EDGES;
        i += 1;
    }
    arr
}

} // verus!
