//! The Zobrist table: pseudorandom 64-bit constants keyed by square and piece,
//! en-passant file, castling-rights mask, and side to move. Built once from a
//! fixed seed by a deterministic xorshift generator and immutable afterwards;
//! callers pass it by shared reference into every operation that hashes.
use vstd::prelude::*;

verus! {

/// The fixed seed the table generator starts from.
pub const ZOBRIST_SEED: u32 = 1804289383;

/// Process-wide hashing constants, indexed `piecesquares[square][piece]`.
pub struct Zobrist {
    pub piecesquares: [[u64; 12]; 64],
    pub passant_square: [u64; 8],
    pub castling_rights: [u64; 16],
    pub to_move: u64,
}

/// One step of the 32-bit xorshift generator.
pub open spec fn spec_xorshift(s: u32) -> u32 {
    let a = s ^ (s << 13);
    let b = a ^ (a >> 17);
    b ^ (b << 5)
}

/// The generator state after `n` steps from the fixed seed.
pub open spec fn seed_after(n: nat) -> u32
    decreases n,
{
    if n == 0 {
        ZOBRIST_SEED
    } else {
        spec_xorshift(seed_after((n - 1) as nat))
    }
}

/// The `k`-th 64-bit draw: four 16-bit slices of consecutive generator states.
pub open spec fn draw(k: nat) -> u64 {
    let a = (seed_after(4 * k + 1) & 0xFFFF) as u64;
    let b = (seed_after(4 * k + 2) & 0xFFFF) as u64;
    let c = (seed_after(4 * k + 3) & 0xFFFF) as u64;
    let d = (seed_after(4 * k + 4) & 0xFFFF) as u64;
    a | (b << 16) | (c << 32) | (d << 48)
}

/// The table the generator produces: the piece-square entries come first, then
/// the eight en-passant files, the sixteen castling masks, then side to move.
pub open spec fn is_generated_table(z: Zobrist) -> bool {
    &&& forall|i: int, j: int|
        0 <= i < 64 && 0 <= j < 12 ==> #[trigger] z.piecesquares[i][j] == draw((i * 12 + j) as nat)
    &&& forall|i: int| 0 <= i < 8 ==> #[trigger] z.passant_square[i] == draw((768 + i) as nat)
    &&& forall|i: int| 0 <= i < 16 ==> #[trigger] z.castling_rights[i] == draw((776 + i) as nat)
    &&& z.to_move == draw(792)
}

/// Advance the generator one step.
fn xorshift_u32(seed: &mut u32) -> (r: u32)
    ensures
        r == spec_xorshift(*old(seed)),
        *final(seed) == r,
{
    let mut num = *seed;
    num ^= num << 13;
    num ^= num >> 17;
    num ^= num << 5;
    *seed = num;
    num
}

/// Draw the `k`-th 64-bit value from four consecutive 16-bit generator slices.
fn random_u64(seed: &mut u32, Ghost(k): Ghost<nat>) -> (r: u64)
    requires
        *old(seed) == seed_after(4 * k),
    ensures
        r == draw(k),
        *final(seed) == seed_after(4 * (k + 1)),
{
    let a = (xorshift_u32(seed) & 0xFFFF) as u64;
    let b = (xorshift_u32(seed) & 0xFFFF) as u64;
    let c = (xorshift_u32(seed) & 0xFFFF) as u64;
    let d = (xorshift_u32(seed) & 0xFFFF) as u64;
    proof {
        assert(seed_after(4 * k + 1) == spec_xorshift(seed_after(4 * k)));
        assert(seed_after(4 * k + 2) == spec_xorshift(seed_after(4 * k + 1)));
        assert(seed_after(4 * k + 3) == spec_xorshift(seed_after(4 * k + 2)));
        assert(seed_after(4 * k + 4) == spec_xorshift(seed_after(4 * k + 3)));
        assert(4 * (k + 1) == 4 * k + 4);
    }
    a | (b << 16) | (c << 32) | (d << 48)
}

/// Build the whole table from the fixed seed; the result is the one
/// deterministic table that `is_generated_table` describes.
pub fn generate_zobrist() -> (z: Zobrist)
    ensures
        is_generated_table(z),
{
    let mut seed: u32 = ZOBRIST_SEED;
    let mut piecesquares: [[u64; 12]; 64] = [[0u64; 12]; 64];
    let mut passant_square: [u64; 8] = [0u64; 8];
    let mut castling_rights: [u64; 16] = [0u64; 16];

    let mut i: usize = 0;
    while i < 64
        invariant
            i <= 64,
            seed == seed_after((4 * (i * 12)) as nat),
            forall|a: int, b: int|
                0 <= a < i && 0 <= b < 12 ==> #[trigger] piecesquares[a][b] == draw(
                    (a * 12 + b) as nat,
                ),
        decreases 64 - i,
    {
        let mut row: [u64; 12] = [0u64; 12];
        let mut j: usize = 0;
        while j < 12
            invariant
                i < 64,
                j <= 12,
                seed == seed_after((4 * (i * 12 + j)) as nat),
                forall|b: int| 0 <= b < j ==> #[trigger] row[b] == draw((i * 12 + b) as nat),
        decreases 12 - j,
        {
            let v = random_u64(&mut seed, Ghost((i * 12 + j) as nat));
            row[j] = v;
            j += 1;
        }
        piecesquares[i] = row;
        assert(forall|a: int, b: int|
            0 <= a < i + 1 && 0 <= b < 12 ==> #[trigger] piecesquares[a][b] == draw(
                (a * 12 + b) as nat,
            ));
        i += 1;
    }

    let mut i: usize = 0;
    while i < 8
        invariant
            i <= 8,
            seed == seed_after((4 * (768 + i)) as nat),
            forall|a: int| 0 <= a < i ==> #[trigger] passant_square[a] == draw((768 + a) as nat),
        decreases 8 - i,
    {
        let v = random_u64(&mut seed, Ghost((768 + i) as nat));
        passant_square[i] = v;
        i += 1;
    }

    let mut i: usize = 0;
    while i < 16
        invariant
            i <= 16,
            seed == seed_after((4 * (776 + i)) as nat),
            forall|a: int| 0 <= a < i ==> #[trigger] castling_rights[a] == draw((776 + a) as nat),
        decreases 16 - i,
    {
        let v = random_u64(&mut seed, Ghost((776 + i) as nat));
        castling_rights[i] = v;
        i += 1;
    }

    let to_move = random_u64(&mut seed, Ghost(792nat));

    Zobrist { piecesquares, passant_square, castling_rights, to_move }
}

} // verus!
