//! Piece kinds as indices into the board's array of bitboards: twelve piece
//! boards (six per color), two aggregate occupancy boards, and a sentinel for
//! an empty square.
use vstd::prelude::*;

verus! {

/// Sentinel for an empty mailbox square; never a valid bitboard index.
pub const NOPIECE: u8 = 14;

pub const WKING: u8 = 0;

pub const WQUEEN: u8 = 1;

pub const WBISHOP: u8 = 2;

pub const WKNIGHT: u8 = 3;

pub const WROOK: u8 = 4;

pub const WPAWN: u8 = 5;

pub const BKING: u8 = 6;

pub const BQUEEN: u8 = 7;

pub const BBISHOP: u8 = 8;

pub const BKNIGHT: u8 = 9;

pub const BROOK: u8 = 10;

pub const BPAWN: u8 = 11;

/// Aggregate occupancy board of all white pieces.
pub const ALLWHITE: u8 = 12;

/// Aggregate occupancy board of all black pieces.
pub const ALLBLACK: u8 = 13;

/// True for the twelve real piece kinds.
pub open spec fn is_piece(p: u8) -> bool {
    p < 12
}

/// True for the six white piece kinds.
pub open spec fn is_white(p: u8) -> bool {
    p < 6
}

/// The aggregate occupancy slot that a piece of kind `p` belongs to.
pub open spec fn color_slot(p: u8) -> u8
    recommends
        is_piece(p),
{
    if p < 6 {
        ALLWHITE
    } else {
        ALLBLACK
    }
}

} // verus!
