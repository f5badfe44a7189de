//! The canonical position representation: piece bitboards, the redundant
//! square-indexed mailbox, game-state flags and the incremental Zobrist key.
use vstd::prelude::*;

verus! {

use crate::action::StateData;
use crate::bit_operations::{bit64, single_bit, generate_from_index, lemma_test_bit};
use crate::pieces::{NOPIECE, is_piece};
use crate::zobrist::Zobrist;

/// White king-side castling right.
pub const WK: u8 = 0b1000;

/// White queen-side castling right.
pub const WQ: u8 = 0b0100;

/// Black king-side castling right.
pub const BK: u8 = 0b0010;

/// Black queen-side castling right.
pub const BQ: u8 = 0b0001;

/// Board squares by name; the discriminant is the square index, file first:
/// a1 is 0, h1 is 7, a8 is 56, h8 is 63.
#[allow(non_camel_case_types)]
#[derive(Debug, Copy, Clone)]
pub enum Squares {
    a1,
    b1,
    c1,
    d1,
    e1,
    f1,
    g1,
    h1,
    a2,
    b2,
    c2,
    d2,
    e2,
    f2,
    g2,
    h2,
    a3,
    b3,
    c3,
    d3,
    e3,
    f3,
    g3,
    h3,
    a4,
    b4,
    c4,
    d4,
    e4,
    f4,
    g4,
    h4,
    a5,
    b5,
    c5,
    d5,
    e5,
    f5,
    g5,
    h5,
    a6,
    b6,
    c6,
    d6,
    e6,
    f6,
    g6,
    h6,
    a7,
    b7,
    c7,
    d7,
    e7,
    f7,
    g7,
    h7,
    a8,
    b8,
    c8,
    d8,
    e8,
    f8,
    g8,
    h8,
}

/// The position: fourteen bitboards (twelve piece boards and the two
/// aggregate occupancy boards), the redundant mailbox, whose turn it is,
/// the transient en-passant square, the castling-rights mask, the fifty-move
/// half-move counter, the stack of saved states for undo, and the
/// incrementally maintained Zobrist key.
#[derive(Debug, Clone, PartialEq)]
pub struct BoardData {
    pub to_move: bool,
    pub bitboards: [u64; 14],
    pub mailbox: [u8; 64],
    pub passant_square: Option<u8>,
    pub castle_rights_mask: u8,
    pub half_move_counter: u8,
    pub prev_states: Vec<StateData>,
    pub zobrist_key: u64,
}

/// The mathematical value of a position: the same fields with the arrays and
/// the history stack abstracted to sequences.
#[verifier::ext_equal]
pub ghost struct BoardView {
    pub to_move: bool,
    pub bitboards: Seq<u64>,
    pub mailbox: Seq<u8>,
    pub passant_square: Option<u8>,
    pub castle_rights_mask: u8,
    pub half_move_counter: u8,
    pub prev_states: Seq<StateData>,
    pub zobrist_key: u64,
}

impl View for BoardData {
    type V = BoardView;

    open spec fn view(&self) -> BoardView {
        BoardView {
            to_move: self.to_move,
            bitboards: self.bitboards@,
            mailbox: self.mailbox@,
            passant_square: self.passant_square,
            castle_rights_mask: self.castle_rights_mask,
            half_move_counter: self.half_move_counter,
            prev_states: self.prev_states@,
            zobrist_key: self.zobrist_key,
        }
    }
}

/// Every mailbox entry is a piece or the empty-square sentinel.
pub open spec fn mailbox_in_range(v: BoardView) -> bool {
    forall|s: int| 0 <= s < 64 ==> (is_piece(#[trigger] v.mailbox[s]) || v.mailbox[s] == NOPIECE)
}

/// The mailbox and the twelve piece bitboards agree: bit `s` is set in piece
/// board `p` exactly when the mailbox holds `p` at square `s`. In particular
/// at most one piece board has any square's bit set.
pub open spec fn boards_consistent(v: BoardView) -> bool {
    forall|s: int, p: int|
        #![trigger bit64(v.bitboards[p], s as u64)]
        #![trigger v.mailbox[s], v.bitboards[p]]
        0 <= s < 64 && 0 <= p < 12 ==> (bit64(v.bitboards[p], s as u64) <==> v.mailbox[s] == p)
}

/// The union of the six white piece boards.
pub open spec fn white_mass(bbs: Seq<u64>) -> u64 {
    bbs[0] | bbs[1] | bbs[2] | bbs[3] | bbs[4] | bbs[5]
}

/// The union of the six black piece boards.
pub open spec fn black_mass(bbs: Seq<u64>) -> u64 {
    bbs[6] | bbs[7] | bbs[8] | bbs[9] | bbs[10] | bbs[11]
}

/// The two aggregate boards are the bitwise OR of their color's piece boards.
pub open spec fn aggregates_ok(v: BoardView) -> bool {
    &&& v.bitboards[12] == white_mass(v.bitboards)
    &&& v.bitboards[13] == black_mass(v.bitboards)
}

/// The castling mask uses only its four bits, and the en-passant square, when
/// present, is a board square.
pub open spec fn flags_ok(v: BoardView) -> bool {
    &&& v.castle_rights_mask < 16
    &&& match v.passant_square {
        Option::Some(s) => s < 64,
        Option::None => true,
    }
}

/// A well-formed position.
pub open spec fn wf_board(v: BoardView) -> bool {
    &&& v.bitboards.len() == 14
    &&& v.mailbox.len() == 64
    &&& mailbox_in_range(v)
    &&& boards_consistent(v)
    &&& aggregates_ok(v)
    &&& flags_ok(v)
}

/// The Zobrist contribution of one square of the mailbox.
pub open spec fn square_contrib(mb: Seq<u8>, zob: Zobrist, s: int) -> u64 {
    if is_piece(mb[s]) {
        zob.piecesquares[s][mb[s] as int]
    } else {
        0
    }
}

/// XOR of the piece-square contributions of the first `n` squares.
pub open spec fn piece_square_fold(mb: Seq<u8>, zob: Zobrist, n: int) -> u64
    decreases n,
{
    if n <= 0 {
        0
    } else {
        piece_square_fold(mb, zob, n - 1) ^ square_contrib(mb, zob, n - 1)
    }
}

/// The Zobrist contribution of the en-passant state: the file's constant when
/// an en-passant square is set, nothing otherwise.
pub open spec fn ep_contrib(zob: Zobrist, ep: Option<u8>) -> u64 {
    match ep {
        Option::Some(s) => zob.passant_square[(s & 7) as int],
        Option::None => 0,
    }
}

/// The Zobrist contribution of the side to move.
pub open spec fn to_move_contrib(zob: Zobrist, to_move: bool) -> u64 {
    if to_move {
        zob.to_move
    } else {
        0
    }
}

/// The hash a from-scratch recomputation over the position yields: every
/// occupied square's piece-square constant, the en-passant file if set, the
/// castling-mask constant, and the side-to-move constant, all XORed.
pub open spec fn zob_of(v: BoardView, zob: Zobrist) -> u64 {
    piece_square_fold(v.mailbox, zob, 64) ^ ep_contrib(zob, v.passant_square)
        ^ zob.castling_rights[v.castle_rights_mask as int] ^ to_move_contrib(zob, v.to_move)
}

/// The incrementally maintained key equals the from-scratch recomputation.
pub open spec fn hash_ok(v: BoardView, zob: Zobrist) -> bool {
    v.zobrist_key == zob_of(v, zob)
}

/// The first of the twelve piece boards, from `p` on, whose bit `s` is set;
/// the empty-square sentinel when none is.
pub open spec fn first_piece_at(bbs: Seq<u64>, s: int, p: int) -> u8
    decreases 12 - p,
{
    if p < 0 || p >= 12 {
        NOPIECE
    } else if bit64(bbs[p], s as u64) {
        p as u8
    } else {
        first_piece_at(bbs, s, p + 1)
    }
}

/// The piece the bitboards say occupies square `s`.
pub open spec fn spec_which_piece(bbs: Seq<u64>, s: int) -> u8 {
    first_piece_at(bbs, s, 0)
}

/// Skipping piece boards whose bit is clear does not change the answer.
proof fn lemma_first_piece_skip(bbs: Seq<u64>, s: int, p: int)
    requires
        0 <= p <= 12,
        forall|q: int| 0 <= q < p ==> !bit64(#[trigger] bbs[q], s as u64),
    ensures
        spec_which_piece(bbs, s) == first_piece_at(bbs, s, p),
    decreases p,
{
    if p > 0 {
        lemma_first_piece_skip(bbs, s, p - 1);
    }
}

impl BoardData {
    /// Recompute the Zobrist key from scratch over the current mailbox and
    /// flags and store it; the canonical definition the incremental updates
    /// are held to. A position consumer calls this once after construction.
    pub fn generate_zobristkey(&mut self, zob: &Zobrist)
        requires
            mailbox_in_range(old(self)@),
            flags_ok(old(self)@),
        ensures
            final(self)@ == (BoardView { zobrist_key: zob_of(old(self)@, *zob), ..old(self)@ }),
    {
        let mut key: u64 = 0;
        let mut square: usize = 0;
        while square < 64
            invariant
                square <= 64,
                key == piece_square_fold(self@.mailbox, *zob, square as int),
                mailbox_in_range(self@),
                flags_ok(self@),
                *self == *old(self),
            decreases 64 - square,
        {
            let piece = self.mailbox[square];
            if piece != NOPIECE {
                key ^= zob.piecesquares[square][piece as usize];
            } else {
                proof {
                    crate::bit_operations::lemma_xor_zero(key);
                }
            }
            square += 1;
        }
        proof {
            let f = piece_square_fold(self@.mailbox, *zob, 64);
            if self@.passant_square is None {
                crate::bit_operations::lemma_xor_zero(f);
            }
        }

        match self.passant_square {
            Option::None => (),
            Option::Some(sqr) => {
                proof {
                    crate::bit_operations::lemma_file_rank(sqr);
                }
                key ^= zob.passant_square[(sqr & 7) as usize];
            },
        }
        assert(key == piece_square_fold(self@.mailbox, *zob, 64) ^ ep_contrib(
            *zob,
            self@.passant_square,
        ));

        key ^= zob.castling_rights[self.castle_rights_mask as usize];

        if self.to_move {
            key ^= zob.to_move;
        } else {
            proof {
                crate::bit_operations::lemma_xor_zero(key);
            }
        }
        assert(key == zob_of(self@, *zob));

        self.zobrist_key = key;
        proof {
            assert(final(self)@ =~= (BoardView {
                zobrist_key: zob_of(old(self)@, *zob),
                ..old(self)@
            }));
        }
    }

    /// Resynchronize the mailbox from the bitboards: each square gets the
    /// lowest-numbered piece board whose bit is set there, or the sentinel.
    pub fn set_mailbox(&mut self)
        ensures
            final(self)@.mailbox.len() == 64,
            forall|s: int|
                0 <= s < 64 ==> final(self)@.mailbox[s] == spec_which_piece(
                    old(self)@.bitboards,
                    s,
                ),
            final(self)@ == (BoardView { mailbox: final(self)@.mailbox, ..old(self)@ }),
    {
        let mut counter: usize = 0;
        let mut vals: [u8; 64] = [0b1111; 64];
        while counter < 64
            invariant
                counter <= 64,
                *self == *old(self),
                forall|s: int|
                    0 <= s < counter ==> vals[s] == spec_which_piece(self@.bitboards, s),
            decreases 64 - counter,
        {
            vals[counter] = self.which_piece(counter);
            counter += 1;
        }
        self.mailbox = vals;
    }

    /// The piece occupying a square according to the bitboards alone.
    fn which_piece(&self, index: usize) -> (r: u8)
        requires
            index < 64,
        ensures
            r == spec_which_piece(self@.bitboards, index as int),
    {
        let bb_val = generate_from_index(index as u8);
        let mut i: usize = 0;
        while i < 12
            invariant
                i <= 12,
                index < 64,
                bb_val == single_bit(index as u64),
                forall|q: int| 0 <= q < i ==> !bit64(#[trigger] self@.bitboards[q], index as u64),
            decreases 12 - i,
        {
            proof {
                lemma_test_bit(self@.bitboards[i as int], index as u64);
            }
            if self.bitboards[i] & bb_val > 0 {
                proof {
                    lemma_first_piece_skip(self@.bitboards, index as int, i as int);
                }
                return i as u8;
            }
            i += 1;
        }
        proof {
            lemma_first_piece_skip(self@.bitboards, index as int, 12);
        }
        NOPIECE
    }
}

} // verus!
