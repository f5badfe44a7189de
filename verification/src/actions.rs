//! Construction of the 16-bit move encoding: bits 0-5 hold the source square,
//! bits 6-11 the destination square, bits 12-13 the move kind, and bits 14-15
//! the promotion piece (read only when the kind is a promotion).
use vstd::prelude::*;

verus! {

use crate::action::{Action, spec_move_from, spec_move_to, spec_move_type, spec_promote_to};

/// Move kind: an ordinary move, capturing or not.
pub const NORMAL: u16 = 0;

/// Move kind: castling, king-side or queen-side by destination square.
pub const CASTLE: u16 = 1;

/// Move kind: pawn promotion.
pub const PROMOTION: u16 = 0b10;

/// Move kind: en-passant capture.
pub const PASSANT: u16 = 0b11;

/// Promotion piece: queen.
pub const PR_QUEEN: u16 = 0;

/// Promotion piece: knight.
pub const PR_KNIGHT: u16 = 0b01;

/// Promotion piece: bishop.
pub const PR_BISHOP: u16 = 0b10;

/// Promotion piece: rook.
pub const PR_ROOK: u16 = 0b11;

/// Pack the four fields of a move; the encoding round-trips exactly for every
/// field combination within its bit width.
pub fn new(move_from: u8, move_to: u8, move_type: u16, promote_to: u16) -> (r: Action)
    requires
        move_from < 64,
        move_to < 64,
        move_type < 4,
        promote_to < 4,
    ensures
        spec_move_from(r) == move_from,
        spec_move_to(r) == move_to,
        spec_move_type(r) == move_type,
        spec_promote_to(r) == promote_to,
{
    let r = (move_from as u16) | ((move_to as u16) << 6) | (move_type << 12) | (promote_to << 14);
    proof {
        let f = move_from;
        let t = move_to;
        let k = move_type;
        let p = promote_to;
        assert(f < 64 && t < 64 && k < 4 && p < 4 ==> {
            let e = (f as u16) | ((t as u16) << 6) | (k << 12) | (p << 14);
            &&& (e & 0b111111) as u8 == f
            &&& ((e >> 6) & 0b111111) as u8 == t
            &&& (e >> 12) & 0b11 == k
            &&& (e >> 14) & 0b11 == p
        }) by (bit_vector);
    }
    r
}

} // verus!
