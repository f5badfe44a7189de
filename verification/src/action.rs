//! Move application: the 16-bit `Action` encoding and its field accessors,
//! the saved-state stack entries, and the make/undo engine that mutates
//! `BoardData` while maintaining every invariant (bitboards, mailbox, hash,
//! castling rights, en-passant square, half-move counter) bit-for-bit
//! reversibly.
use vstd::prelude::*;

verus! {

use crate::actions::{NORMAL, CASTLE, PROMOTION, PASSANT, PR_QUEEN, PR_KNIGHT, PR_BISHOP};
use crate::bit_operations::{bit64, single_bit, set_0_at_index, set_1_at_index};
use crate::board::{BoardData, BoardView, wf_board, ep_contrib};
use crate::pieces::{
    NOPIECE, WKING, WQUEEN, WBISHOP, WKNIGHT, WROOK, WPAWN, BKING, BROOK, BPAWN, is_piece,
    is_white, color_slot,
};
use crate::zobrist::Zobrist;

/// A four-bit mask masked further stays four-bit.
proof fn lemma_mask_stays_small(pre: u8, post: u8)
    by (bit_vector)
    requires
        pre < 16,
        post == pre || post == (pre & 0b0011) || post == (pre & 0b1100) || post == (pre & 0b1011)
            || post == (pre & 0b0111) || post == (pre & 0b1101) || post == (pre & 0b1110),
    ensures
        post < 16,
{
}

/// A move, packed into 16 bits: source square, destination square, move kind,
/// and promotion piece.
pub type Action = u16;

/// The source square of an encoded move (bits 0-5).
pub open spec fn spec_move_from(a: Action) -> u8 {
    (a & 0b111111) as u8
}

/// The destination square of an encoded move (bits 6-11).
pub open spec fn spec_move_to(a: Action) -> u8 {
    ((a >> 6) & 0b111111) as u8
}

/// The move kind of an encoded move (bits 12-13).
pub open spec fn spec_move_type(a: Action) -> u16 {
    (a >> 12) & 0b11
}

/// The promotion piece of an encoded move (bits 14-15); meaningful only when
/// the kind is a promotion.
pub open spec fn spec_promote_to(a: Action) -> u16 {
    (a >> 14) & 0b11
}

/// The decoded fields always lie within their widths: squares below 64,
/// two-bit kinds below 4.
pub proof fn lemma_action_fields(a: Action)
    by (bit_vector)
    ensures
        spec_move_from(a) < 64,
        spec_move_to(a) < 64,
        spec_move_type(a) < 4,
        spec_promote_to(a) < 4,
{
}

/// Read access to the fields of an encoded move.
pub trait Move {
    /// The source square as the spec sees it.
    spec fn spec_from(&self) -> u8;

    /// The destination square as the spec sees it.
    spec fn spec_to(&self) -> u8;

    /// The move kind as the spec sees it.
    spec fn spec_kind(&self) -> u16;

    /// The promotion piece as the spec sees it.
    spec fn spec_promotion(&self) -> u16;

    fn move_from(&self) -> (r: u8)
        ensures
            r == self.spec_from(),
    ;

    fn move_to(&self) -> (r: u8)
        ensures
            r == self.spec_to(),
    ;

    fn move_type(&self) -> (r: u16)
        ensures
            r == self.spec_kind(),
    ;

    fn promote_to(&self) -> (r: u16)
        ensures
            r == self.spec_promotion(),
    ;
}

impl Move for Action {
    open spec fn spec_from(&self) -> u8 {
        spec_move_from(*self)
    }

    open spec fn spec_to(&self) -> u8 {
        spec_move_to(*self)
    }

    open spec fn spec_kind(&self) -> u16 {
        spec_move_type(*self)
    }

    open spec fn spec_promotion(&self) -> u16 {
        spec_promote_to(*self)
    }

    fn move_from(&self) -> u8 {
        (*self & 0b111111) as u8
    }

    fn move_to(&self) -> u8 {
        ((*self >> 6) & 0b111111) as u8
    }

    fn move_type(&self) -> u16 {
        (*self >> 12) & 0b11
    }

    fn promote_to(&self) -> u16 {
        (*self >> 14) & 0b11
    }
}

/// One entry of the undo stack: everything a move application destroys that
/// cannot be recomputed from the action alone.
#[derive(Debug, Clone, Copy, PartialEq, Eq)]
pub struct StateData {
    pub captured_piece: u8,
    pub passant_square: Option<u8>,
    pub castlemask: u8,
    pub halfmove_ctr: u8,
    pub zobrist_key: u64,
}

impl StateData {
    /// Snapshot the volatile parts of a position, with no capture recorded yet.
    fn new(board: &BoardData) -> (r: StateData)
        ensures
            r == (StateData {
                captured_piece: NOPIECE,
                passant_square: board@.passant_square,
                castlemask: board@.castle_rights_mask,
                halfmove_ctr: board@.half_move_counter,
                zobrist_key: board@.zobrist_key,
            }),
    {
        StateData {
            captured_piece: NOPIECE,
            passant_square: board.passant_square,
            castlemask: board.castle_rights_mask,
            halfmove_ctr: board.half_move_counter,
            zobrist_key: board.zobrist_key,
        }
    }

    /// Record the piece a move captured.
    fn set_captured(&mut self, captured: u8)
        ensures
            *final(self) == (StateData { captured_piece: captured, ..*old(self) }),
    {
        self.captured_piece = captured;
    }

    /// Restore the saved scalars into a position, exactly as captured.
    fn set_self(&self, board: &mut BoardData)
        ensures
            final(board)@ == (BoardView {
                castle_rights_mask: self.castlemask,
                passant_square: self.passant_square,
                half_move_counter: self.halfmove_ctr,
                zobrist_key: self.zobrist_key,
                ..old(board)@
            }),
    {
        board.castle_rights_mask = self.castlemask;
        board.passant_square = self.passant_square;
        board.half_move_counter = self.halfmove_ctr;
        board.zobrist_key = self.zobrist_key;
        proof {
            assert(final(board)@ =~= (BoardView {
                castle_rights_mask: self.castlemask,
                passant_square: self.passant_square,
                half_move_counter: self.halfmove_ctr,
                zobrist_key: self.zobrist_key,
                ..old(board)@
            }));
        }
    }
}

/// Clear square `sq` in piece board `p` and in `p`'s aggregate board.
pub open spec fn clear_square_bits(bbs: Seq<u64>, p: u8, sq: int) -> Seq<u64> {
    let s1 = bbs.update(p as int, bbs[p as int] & !single_bit(sq as u64));
    s1.update(color_slot(p) as int, s1[color_slot(p) as int] & !single_bit(sq as u64))
}

/// Set square `sq` in piece board `p` and in `p`'s aggregate board.
pub open spec fn set_square_bits(bbs: Seq<u64>, p: u8, sq: int) -> Seq<u64> {
    let s1 = bbs.update(p as int, bbs[p as int] | single_bit(sq as u64));
    s1.update(color_slot(p) as int, s1[color_slot(p) as int] | single_bit(sq as u64))
}

/// Taking the piece off square `sq`: its bit leaves its piece board and its
/// color's aggregate board, the mailbox empties, and the piece-square
/// constant leaves the hash.
pub open spec fn removepiece_spec(v: BoardView, zob: Zobrist, sq: int) -> BoardView {
    let p = v.mailbox[sq];
    BoardView {
        bitboards: clear_square_bits(v.bitboards, p, sq),
        mailbox: v.mailbox.update(sq, NOPIECE),
        zobrist_key: v.zobrist_key ^ zob.piecesquares[sq][p as int],
        ..v
    }
}

/// Placing piece `piece` on the empty square `sq`: the reverse of removal.
pub open spec fn set_piece_spec(v: BoardView, zob: Zobrist, sq: int, piece: u8) -> BoardView {
    BoardView {
        bitboards: set_square_bits(v.bitboards, piece, sq),
        mailbox: v.mailbox.update(sq, piece),
        zobrist_key: v.zobrist_key ^ zob.piecesquares[sq][piece as int],
        ..v
    }
}

/// Moving the piece on `from` to the empty square `to`: removal then placement.
pub open spec fn move_piece_spec(v: BoardView, zob: Zobrist, from: int, to: int) -> BoardView {
    set_piece_spec(removepiece_spec(v, zob, from), zob, to, v.mailbox[from])
}

/// The home square of the rook a castle with king destination `to` moves.
pub open spec fn castle_rook_from(to: int) -> int {
    if to == 6 {
        7
    } else if to == 2 {
        0
    } else if to == 62 {
        63
    } else {
        56
    }
}

/// The square that rook lands on.
pub open spec fn castle_rook_to(to: int) -> int {
    if to == 6 {
        5
    } else if to == 2 {
        3
    } else if to == 62 {
        61
    } else {
        59
    }
}

/// The square of the pawn an en-passant capture removes: directly behind the
/// destination, one rank toward the mover's own side.
pub open spec fn passant_victim_square(v: BoardView, a: Action) -> int {
    if v.to_move {
        spec_move_to(a) - 8
    } else {
        spec_move_to(a) + 8
    }
}

/// The piece a move captures, or the empty-square sentinel when none.
pub open spec fn captured_of(v: BoardView, a: Action) -> u8 {
    let tag = spec_move_type(a);
    if tag == NORMAL || tag == PROMOTION {
        v.mailbox[spec_move_to(a) as int]
    } else if tag == PASSANT {
        v.mailbox[passant_victim_square(v, a)]
    } else {
        NOPIECE
    }
}

/// The piece a promotion places: the two-bit field, colored by side to move.
pub open spec fn promoted_piece(v: BoardView, a: Action) -> u8 {
    let base = if spec_promote_to(a) == PR_QUEEN {
        WQUEEN
    } else if spec_promote_to(a) == PR_KNIGHT {
        WKNIGHT
    } else if spec_promote_to(a) == PR_BISHOP {
        WBISHOP
    } else {
        WROOK
    };
    if v.to_move {
        base
    } else {
        (base + 6) as u8
    }
}

/// The en-passant square after a move: set only by a two-square pawn push,
/// cleared otherwise.
pub open spec fn new_ep_of(v: BoardView, a: Action) -> Option<u8> {
    let from = spec_move_from(a) as int;
    let to = spec_move_to(a) as int;
    if spec_move_type(a) == NORMAL && v.mailbox[from] == WPAWN && to - from == 16 {
        Option::Some((to - 8) as u8)
    } else if spec_move_type(a) == NORMAL && v.mailbox[from] == BPAWN && from - to == 16 {
        Option::Some((to + 8) as u8)
    } else {
        Option::None
    }
}

/// The castling mask after a move: moving a king clears both of that side's
/// rights, moving a rook off its home square clears that flank's right, and a
/// castle clears both of the mover's rights; bits are only ever cleared.
pub open spec fn new_castle_mask(v: BoardView, a: Action) -> u8 {
    let tag = spec_move_type(a);
    let from = spec_move_from(a) as int;
    let m = v.castle_rights_mask;
    if tag == CASTLE {
        if v.to_move {
            m & 0b0011
        } else {
            m & 0b1100
        }
    } else if tag == NORMAL {
        let mover = v.mailbox[from];
        if mover == WKING {
            m & 0b0011
        } else if mover == BKING {
            m & 0b1100
        } else if mover == WROOK && from == 0 {
            m & 0b1011
        } else if mover == WROOK && from == 7 {
            m & 0b0111
        } else if mover == BROOK && from == 63 {
            m & 0b1101
        } else if mover == BROOK && from == 56 {
            m & 0b1110
        } else {
            m
        }
    } else {
        m
    }
}

/// Whether a move resets the fifty-move half-move counter: every pawn move
/// (promotions and en-passant captures included) and every capture.
pub open spec fn resets_hmc(v: BoardView, a: Action) -> bool {
    let tag = spec_move_type(a);
    let from = spec_move_from(a) as int;
    let to = spec_move_to(a) as int;
    ||| tag == PASSANT
    ||| tag == PROMOTION
    ||| (tag == NORMAL && (v.mailbox[to] != NOPIECE || v.mailbox[from] == WPAWN
        || v.mailbox[from] == BPAWN))
}

/// What the engine relies on of an action before applying it: the moved piece
/// belongs to the side to move, destinations are empty or hold an enemy piece,
/// and the kind-specific geometry holds. This is the well-formedness a move
/// generator owes the engine; full chess legality (king safety) is not checked
/// here, exactly as the engine itself does not check it.
pub open spec fn legal_action(v: BoardView, a: Action) -> bool {
    let from = spec_move_from(a) as int;
    let to = spec_move_to(a) as int;
    let tag = spec_move_type(a);
    let mover = v.mailbox[from];
    &&& is_piece(mover)
    &&& is_white(mover) == v.to_move
    &&& from != to
    &&& (tag == NORMAL ==> {
        &&& (v.mailbox[to] == NOPIECE || (is_piece(v.mailbox[to]) && is_white(v.mailbox[to])
            != v.to_move))
        &&& (mover == WPAWN ==> to > from)
        &&& (mover == BPAWN ==> from > to)
    })
    &&& (tag == PROMOTION ==> {
        &&& mover == (if v.to_move {
            WPAWN
        } else {
            BPAWN
        })
        &&& (v.mailbox[to] == NOPIECE || (is_piece(v.mailbox[to]) && is_white(v.mailbox[to])
            != v.to_move))
    })
    &&& (tag == CASTLE ==> {
        &&& (to == 6 || to == 2 || to == 62 || to == 58)
        &&& (to < 8 ==> v.to_move && from == 4 && mover == WKING)
        &&& (to >= 8 ==> !v.to_move && from == 60 && mover == BKING)
        &&& v.mailbox[to] == NOPIECE
        &&& v.mailbox[castle_rook_from(to)] == (if v.to_move {
            WROOK
        } else {
            BROOK
        })
        &&& v.mailbox[castle_rook_to(to)] == NOPIECE
    })
    &&& (tag == PASSANT ==> {
        &&& v.passant_square == Option::Some(spec_move_to(a))
        &&& v.mailbox[to] == NOPIECE
        &&& (v.to_move ==> to >= 8 && mover == WPAWN && v.mailbox[to - 8] == BPAWN)
        &&& (!v.to_move ==> to < 56 && mover == BPAWN && v.mailbox[to + 8] == WPAWN)
    })
}

/// The state one move application yields: captured piece removed, mover (or
/// promoted piece, or king and rook) re-placed, flags and counters advanced,
/// the saved state pushed, the hash updated contribution by contribution, and
/// the side to move flipped.
pub open spec fn make_spec(pre: BoardView, a: Action, zob: Zobrist) -> BoardView {
    let from = spec_move_from(a) as int;
    let to = spec_move_to(a) as int;
    let tag = spec_move_type(a);
    let cap = captured_of(pre, a);
    let saved = StateData {
        captured_piece: cap,
        passant_square: pre.passant_square,
        castlemask: pre.castle_rights_mask,
        halfmove_ctr: pre.half_move_counter,
        zobrist_key: pre.zobrist_key,
    };
    let v1 = if (tag == NORMAL || tag == PROMOTION) && cap != NOPIECE {
        removepiece_spec(pre, zob, to)
    } else if tag == PASSANT {
        removepiece_spec(pre, zob, passant_victim_square(pre, a))
    } else {
        pre
    };
    let v2 = if tag == PROMOTION {
        set_piece_spec(removepiece_spec(v1, zob, from), zob, to, promoted_piece(pre, a))
    } else if tag == CASTLE {
        move_piece_spec(move_piece_spec(v1, zob, from, to), zob, castle_rook_from(to),
            castle_rook_to(to))
    } else {
        move_piece_spec(v1, zob, from, to)
    };
    let new_ep = new_ep_of(pre, a);
    let new_mask = new_castle_mask(pre, a);
    BoardView {
        to_move: !pre.to_move,
        bitboards: v2.bitboards,
        mailbox: v2.mailbox,
        passant_square: new_ep,
        castle_rights_mask: new_mask,
        half_move_counter: if resets_hmc(pre, a) {
            0u8
        } else {
            (pre.half_move_counter + 1) as u8
        },
        prev_states: pre.prev_states.push(saved),
        zobrist_key: v2.zobrist_key ^ ep_contrib(zob, pre.passant_square) ^ ep_contrib(zob, new_ep)
            ^ zob.castling_rights[pre.castle_rights_mask as int]
            ^ zob.castling_rights[new_mask as int] ^ zob.to_move,
    }
}

/// The pawn an en-passant undo restores and where, read from the saved
/// en-passant square.
pub open spec fn undo_victim_square(v: BoardView, saved: StateData) -> int {
    match saved.passant_square {
        Option::Some(sqr) => if !v.to_move {
            sqr - 8
        } else {
            sqr + 8
        },
        Option::None => 0,
    }
}

/// What undoing relies on of the position and the action: the stack holds a
/// snapshot, the moved piece stands on the destination, the source square is
/// free again, and the saved fields fit what the move kind will restore.
pub open spec fn undoable(v: BoardView, a: Action) -> bool {
    let from = spec_move_from(a) as int;
    let to = spec_move_to(a) as int;
    let tag = spec_move_type(a);
    let saved = v.prev_states.last();
    &&& v.prev_states.len() > 0
    &&& from != to
    &&& is_piece(v.mailbox[to])
    &&& v.mailbox[from] == NOPIECE
    &&& (saved.captured_piece != NOPIECE ==> is_piece(saved.captured_piece))
    &&& (tag == PASSANT ==> {
        &&& is_piece(saved.captured_piece)
        &&& (saved.passant_square matches Option::Some(sqr) && sqr < 64 && (if !v.to_move {
            sqr >= 8
        } else {
            sqr < 56
        }))
    })
    &&& (tag == CASTLE ==> (to == 6 || to == 2 || to == 62 || to == 58) && is_piece(
        v.mailbox[castle_rook_to(to)],
    ) && saved.captured_piece == NOPIECE)
}

/// The state undoing a move yields: the mover walks back (a promotion turns
/// back into a pawn), any captured piece reappears where it stood, a castle's
/// rook walks back, and the saved scalars are restored verbatim.
pub open spec fn undo_spec(v: BoardView, a: Action, zob: Zobrist) -> BoardView {
    let from = spec_move_from(a) as int;
    let to = spec_move_to(a) as int;
    let tag = spec_move_type(a);
    let saved = v.prev_states.last();
    let u1 = if tag == PROMOTION {
        set_piece_spec(removepiece_spec(v, zob, to), zob, from, if !v.to_move {
            WPAWN
        } else {
            BPAWN
        })
    } else {
        move_piece_spec(v, zob, to, from)
    };
    let u2 = if saved.captured_piece != NOPIECE && tag != PASSANT {
        set_piece_spec(u1, zob, to, saved.captured_piece)
    } else if tag == PASSANT {
        set_piece_spec(u1, zob, undo_victim_square(v, saved), saved.captured_piece)
    } else if tag == CASTLE {
        move_piece_spec(u1, zob, castle_rook_to(to), castle_rook_from(to))
    } else {
        u1
    };
    BoardView {
        to_move: !v.to_move,
        bitboards: u2.bitboards,
        mailbox: u2.mailbox,
        passant_square: saved.passant_square,
        castle_rights_mask: saved.castlemask,
        half_move_counter: saved.halfmove_ctr,
        prev_states: v.prev_states.drop_last(),
        zobrist_key: saved.zobrist_key,
    }
}

impl BoardData {
    /// Apply an action to the position: remove any captured piece, move or
    /// replace the movers, advance the flags and counters, push the snapshot
    /// that undoing needs, update the hash incrementally, and flip the side
    /// to move. The caller owes a well-formed position and an action legal in
    /// it; a malformed action is a programming error, kept out by contract.
    pub fn make_move(&mut self, action: Action, zob: &Zobrist)
        requires
            wf_board(old(self)@),
            legal_action(old(self)@, action),
            old(self)@.half_move_counter < 255,
        ensures
            final(self)@ == make_spec(old(self)@, action, *zob),
            wf_board(final(self)@),
            final(self)@.castle_rights_mask & !old(self)@.castle_rights_mask == 0,
            crate::board::hash_ok(old(self)@, *zob) ==> crate::board::hash_ok(
                final(self)@,
                *zob,
            ),
            final(self)@.prev_states.len() == old(self)@.prev_states.len() + 1,
    {
        proof {
            lemma_action_fields(action);
            crate::laws::lemma_make_preserves_wf(old(self)@, action, *zob);
            crate::laws::lemma_castle_rights_monotonic(old(self)@, action, *zob);
            if crate::board::hash_ok(old(self)@, *zob) {
                crate::laws::lemma_make_preserves_hash(old(self)@, action, *zob);
            }
        }
        let movefrom = action.move_from();
        let moveto = action.move_to();
        let tag = action.move_type();
        let mut savestate = StateData::new(self);

        // default actions; branches reset the counter on pawn moves and captures
        self.half_move_counter = self.half_move_counter + 1;

        if tag == NORMAL {
            let movingpiece = self.mailbox[movefrom as usize];
            let maybe_piececapture = self.mailbox[moveto as usize];

            if maybe_piececapture != NOPIECE {
                savestate.set_captured(maybe_piececapture);
                self.removepiece(moveto, zob);
                self.half_move_counter = 0;  // a capture resets the fifty-move counter
            }
            self.move_piece(movefrom, moveto, zob);
            self.passant_square = Option::None;

            // castle rights and the en-passant square, by the moving piece
            if movingpiece == WPAWN {
                if moveto - movefrom == 16 {
                    // a double push opens the square behind the pawn to en passant
                    self.passant_square = Option::Some(moveto - 8);
                }
                self.half_move_counter = 0;  // a pawn move resets the counter
            } else if movingpiece == BPAWN {
                if movefrom - moveto == 16 {
                    self.passant_square = Option::Some(moveto + 8);
                }
                self.half_move_counter = 0;
            } else if movingpiece == WKING {
                self.castle_rights_mask = self.castle_rights_mask & 0b0011;
            } else if movingpiece == BKING {
                self.castle_rights_mask = self.castle_rights_mask & 0b1100;
            } else if movingpiece == WROOK {
                if movefrom == 0 {
                    self.castle_rights_mask = self.castle_rights_mask & 0b1011;
                } else if movefrom == 7 {
                    self.castle_rights_mask = self.castle_rights_mask & 0b0111;
                }
            } else if movingpiece == BROOK {
                if movefrom == 63 {
                    self.castle_rights_mask = self.castle_rights_mask & 0b1101;
                } else if movefrom == 56 {
                    self.castle_rights_mask = self.castle_rights_mask & 0b1110;
                }
            }
        } else if tag == PROMOTION {
            let maybe_piececapture = self.mailbox[moveto as usize];
            if maybe_piececapture != NOPIECE {
                savestate.set_captured(maybe_piececapture);
                self.removepiece(moveto, zob);
            }
            self.removepiece(movefrom, zob);
            let tomovetag: u8 = if self.to_move {
                0
            } else {
                6
            };
            let pr = action.promote_to();
            let promote_to: u8 = if pr == PR_QUEEN {
                WQUEEN + tomovetag
            } else if pr == PR_KNIGHT {
                WKNIGHT + tomovetag
            } else if pr == PR_BISHOP {
                WBISHOP + tomovetag
            } else {
                WROOK + tomovetag
            };
            self.set_piece(moveto, promote_to, zob);
            self.passant_square = Option::None;
            self.half_move_counter = 0;  // a promotion is a pawn move
        } else if tag == CASTLE {
            let rookfrom: u8;
            let rookto: u8;
            if moveto == 6 {
                rookfrom = 7;
                rookto = 5;
            } else if moveto == 2 {
                rookfrom = 0;
                rookto = 3;
            } else if moveto == 62 {
                rookfrom = 63;
                rookto = 61;
            } else {
                rookfrom = 56;
                rookto = 59;
            }
            self.move_piece(movefrom, moveto, zob);
            self.move_piece(rookfrom, rookto, zob);
            self.passant_square = Option::None;
            let removemask: u8 = if self.to_move {
                0b0011
            } else {
                0b1100
            };
            self.castle_rights_mask = self.castle_rights_mask & removemask;
        } else {
            // en passant: the captured pawn stands behind the destination
            let passantsq: u8 = if self.to_move {
                moveto - 8
            } else {
                moveto + 8
            };
            savestate.set_captured(self.mailbox[passantsq as usize]);
            self.removepiece(passantsq, zob);
            self.move_piece(movefrom, moveto, zob);
            self.passant_square = Option::None;
            self.half_move_counter = 0;  // an en-passant capture is a pawn move
        }

        // hash: en-passant contribution out then in, castling mask out then
        // in, and the side-to-move flip, each XORed exactly once
        match savestate.passant_square {
            Option::None => {
                proof {
                    crate::bit_operations::lemma_xor_zero(self@.zobrist_key);
                }
            },
            Option::Some(s) => {
                proof {
                    crate::bit_operations::lemma_file_rank(s);
                }
                self.zobrist_key = self.zobrist_key ^ zob.passant_square[(s & 7) as usize];
            },
        }
        match self.passant_square {
            Option::None => {
                proof {
                    crate::bit_operations::lemma_xor_zero(self@.zobrist_key);
                }
            },
            Option::Some(s) => {
                proof {
                    crate::bit_operations::lemma_file_rank(s);
                }
                self.zobrist_key = self.zobrist_key ^ zob.passant_square[(s & 7) as usize];
            },
        }
        proof {
            lemma_mask_stays_small(old(self)@.castle_rights_mask, self@.castle_rights_mask);
        }
        self.zobrist_key = self.zobrist_key ^ zob.castling_rights[savestate.castlemask as usize];
        self.zobrist_key = self.zobrist_key ^ zob.castling_rights[self.castle_rights_mask as usize];
        self.zobrist_key = self.zobrist_key ^ zob.to_move;

        self.prev_states.push(savestate);
        self.to_move = !self.to_move;
        proof {
            assert(final(self)@ =~= make_spec(old(self)@, action, *zob));
        }
    }

    /// Reverse the most recent move using its action and the popped snapshot;
    /// with an empty history this is a silent no-op.
    pub fn undo_move(&mut self, action: Action, zob: &Zobrist)
        requires
            old(self)@.prev_states.len() > 0 ==> undoable(old(self)@, action),
        ensures
            old(self)@.prev_states.len() == 0 ==> final(self)@ == old(self)@,
            old(self)@.prev_states.len() > 0 ==> final(self)@ == undo_spec(
                old(self)@,
                action,
                *zob,
            ),
    {
        let undo = match self.prev_states.pop() {
            Option::Some(state) => state,
            Option::None => {
                proof {
                    assert(final(self)@ =~= old(self)@);
                }
                return ;
            },
        };

        proof {
            lemma_action_fields(action);
        }
        let movefrom = action.move_from();
        let moveto = action.move_to();
        let tag = action.move_type();

        if tag != PROMOTION {
            self.move_piece(moveto, movefrom, zob);
        } else {
            self.removepiece(moveto, zob);
            // the side to move has not been flipped back yet, so the promoted
            // pawn belongs to the side that is not to move here
            let pawn: u8 = if !self.to_move {
                WPAWN
            } else {
                BPAWN
            };
            self.set_piece(movefrom, pawn, zob);
        }

        if undo.captured_piece != NOPIECE && tag != PASSANT {
            self.set_piece(moveto, undo.captured_piece, zob);
        } else if tag == PASSANT {
            let sqr: u8 = match undo.passant_square {
                Option::Some(s) => s,
                Option::None => 0,
            };
            let passantsq: u8 = if !self.to_move {
                sqr - 8
            } else {
                sqr + 8
            };
            self.set_piece(passantsq, undo.captured_piece, zob);
        } else if tag == CASTLE {
            let rookfrom: u8;
            let rookto: u8;
            if moveto == 6 {
                rookfrom = 7;
                rookto = 5;
            } else if moveto == 2 {
                rookfrom = 0;
                rookto = 3;
            } else if moveto == 62 {
                rookfrom = 63;
                rookto = 61;
            } else {
                rookfrom = 56;
                rookto = 59;
            }
            self.move_piece(rookto, rookfrom, zob);
        }

        undo.set_self(self);
        self.to_move = !self.to_move;
        proof {
            assert(final(self)@ =~= undo_spec(old(self)@, action, *zob));
        }
    }

    /// Move the piece on `start_square` to `end_square` in its piece board,
    /// its aggregate board, the mailbox, and the hash.
    #[inline]
    fn move_piece(&mut self, start_square: u8, end_square: u8, zob: &Zobrist)
        requires
            start_square < 64,
            end_square < 64,
            start_square != end_square,
            is_piece(old(self)@.mailbox[start_square as int]),
        ensures
            final(self)@ == move_piece_spec(
                old(self)@,
                *zob,
                start_square as int,
                end_square as int,
            ),
    {
        let moving_piece = self.mailbox[start_square as usize];
        set_0_at_index(start_square, &mut self.bitboards[moving_piece as usize]);
        set_1_at_index(end_square, &mut self.bitboards[moving_piece as usize]);
        let slot: usize = if moving_piece < 6 {
            12
        } else {
            13
        };
        set_0_at_index(start_square, &mut self.bitboards[slot]);
        set_1_at_index(end_square, &mut self.bitboards[slot]);
        self.mailbox[start_square as usize] = NOPIECE;
        self.mailbox[end_square as usize] = moving_piece;

        self.zobrist_key ^= zob.piecesquares[start_square as usize][moving_piece as usize];
        self.zobrist_key ^= zob.piecesquares[end_square as usize][moving_piece as usize];
        proof {
            assert(final(self)@.bitboards =~= move_piece_spec(
                old(self)@,
                *zob,
                start_square as int,
                end_square as int,
            ).bitboards);
            assert(final(self)@.mailbox =~= move_piece_spec(
                old(self)@,
                *zob,
                start_square as int,
                end_square as int,
            ).mailbox);
            assert(final(self)@ =~= move_piece_spec(
                old(self)@,
                *zob,
                start_square as int,
                end_square as int,
            ));
        }
    }

    /// Place a piece on an empty square, updating boards, mailbox and hash.
    #[inline]
    fn set_piece(&mut self, square: u8, piece: u8, zob: &Zobrist)
        requires
            square < 64,
            is_piece(piece),
        ensures
            final(self)@ == set_piece_spec(old(self)@, *zob, square as int, piece),
    {
        self.mailbox[square as usize] = piece;
        set_1_at_index(square, &mut self.bitboards[piece as usize]);
        let slot: usize = if piece < 6 {
            12
        } else {
            13
        };
        set_1_at_index(square, &mut self.bitboards[slot]);
        self.zobrist_key ^= zob.piecesquares[square as usize][piece as usize];
        proof {
            assert(final(self)@.bitboards =~= set_piece_spec(
                old(self)@,
                *zob,
                square as int,
                piece,
            ).bitboards);
            assert(final(self)@ =~= set_piece_spec(old(self)@, *zob, square as int, piece));
        }
    }

    /// Take the piece off a square, updating boards, mailbox and hash.
    #[inline]
    fn removepiece(&mut self, square: u8, zob: &Zobrist)
        requires
            square < 64,
            is_piece(old(self)@.mailbox[square as int]),
        ensures
            final(self)@ == removepiece_spec(old(self)@, *zob, square as int),
    {
        let piece = self.mailbox[square as usize];
        set_0_at_index(square, &mut self.bitboards[piece as usize]);
        let slot: usize = if piece < 6 {
            12
        } else {
            13
        };
        set_0_at_index(square, &mut self.bitboards[slot]);
        self.mailbox[square as usize] = NOPIECE;
        self.zobrist_key ^= zob.piecesquares[square as usize][piece as usize];
        proof {
            assert(final(self)@.bitboards =~= removepiece_spec(
                old(self)@,
                *zob,
                square as int,
            ).bitboards);
            assert(final(self)@ =~= removepiece_spec(old(self)@, *zob, square as int));
        }
    }
}

} // verus!
