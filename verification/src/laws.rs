//! The engine's global guarantees, proved over the spec-level transitions:
//! move application preserves the board invariants, castling rights only ever
//! shrink, applying then undoing a move restores the position bit for bit,
//! and the incrementally maintained hash always equals the from-scratch
//! recomputation.
use vstd::prelude::*;

verus! {

use crate::action::{
    Action, StateData, spec_move_from, spec_move_to, spec_move_type, legal_action, make_spec,
    undo_spec, undoable, removepiece_spec, set_piece_spec, move_piece_spec, captured_of,
    promoted_piece, new_ep_of, new_castle_mask, castle_rook_from, castle_rook_to,
    passant_victim_square, lemma_action_fields,
};
use crate::actions::{NORMAL, CASTLE, PROMOTION, PASSANT};
use crate::bit_operations::{
    bit64, single_bit, lemma_bit64_or, lemma_clear_bit, lemma_set_bit, lemma_bit64_ext,
};
use crate::board::{
    BoardView, wf_board, boards_consistent, aggregates_ok, flags_ok, white_mass, black_mass,
    piece_square_fold, square_contrib, ep_contrib, hash_ok, first_piece_at, spec_which_piece,
};
use crate::pieces::{NOPIECE, is_piece, is_white, color_slot};
use crate::zobrist::Zobrist;

broadcast use lemma_bit64_or;

/// Removing the piece from an occupied square keeps the position well-formed.
proof fn lemma_remove_wf(v: BoardView, zob: Zobrist, sq: int)
    requires
        wf_board(v),
        0 <= sq < 64,
        is_piece(v.mailbox[sq]),
    ensures
        wf_board(removepiece_spec(v, zob, sq)),
{
    let p = v.mailbox[sq];
    let slot = color_slot(p);
    let v2 = removepiece_spec(v, zob, sq);
    lemma_clear_bit(v.bitboards[p as int], sq as u64);
    lemma_clear_bit(v.bitboards[slot as int], sq as u64);

    assert forall|s2: int, p2: int|
        0 <= s2 < 64 && 0 <= p2 < 12 implies (bit64(v2.bitboards[p2], s2 as u64)
        <==> v2.mailbox[s2] == p2) by {
        if p2 == p {
            assert(v2.bitboards[p2] == v.bitboards[p as int] & !single_bit(sq as u64));
        } else {
            assert(v2.bitboards[p2] == v.bitboards[p2]);
        }
    }
    assert(boards_consistent(v2));

    assert forall|j: u64| j < 64 implies bit64(white_mass(v2.bitboards), j) == bit64(
        white_mass(v.bitboards) & !single_bit(sq as u64),
        j,
    ) by {
        lemma_clear_bit(white_mass(v.bitboards), sq as u64);
        if j == sq {
            assert(forall|q: int|
                0 <= q < 12 && q != p ==> !bit64(#[trigger] v.bitboards[q], sq as u64));
        }
    }
    lemma_bit64_ext(white_mass(v2.bitboards), white_mass(v.bitboards) & !single_bit(sq as u64));

    assert forall|j: u64| j < 64 implies bit64(black_mass(v2.bitboards), j) == bit64(
        black_mass(v.bitboards) & !single_bit(sq as u64),
        j,
    ) by {
        lemma_clear_bit(black_mass(v.bitboards), sq as u64);
        if j == sq {
            assert(forall|q: int|
                0 <= q < 12 && q != p ==> !bit64(#[trigger] v.bitboards[q], sq as u64));
        }
    }
    lemma_bit64_ext(black_mass(v2.bitboards), black_mass(v.bitboards) & !single_bit(sq as u64));

    if p < 6 {
        assert(v2.bitboards[12] == v.bitboards[12] & !single_bit(sq as u64));
        assert(v2.bitboards[13] == v.bitboards[13]);
        assert(black_mass(v2.bitboards) == black_mass(v.bitboards));
        assert(!bit64(v.bitboards[13], sq as u64)) by {
            assert(forall|q: int|
                6 <= q < 12 ==> !bit64(#[trigger] v.bitboards[q], sq as u64));
            assert(!bit64(black_mass(v.bitboards), sq as u64));
        }
        lemma_clear_bit(v.bitboards[13], sq as u64);
        assert(bit64(v.bitboards[13] & !single_bit(sq as u64), sq as u64) == false);
        assert forall|j: u64| j < 64 implies bit64(v.bitboards[13], j) == bit64(
            v.bitboards[13] & !single_bit(sq as u64),
            j,
        ) by {}
        lemma_bit64_ext(v.bitboards[13], v.bitboards[13] & !single_bit(sq as u64));
        assert(black_mass(v2.bitboards) == v2.bitboards[13]);
    } else {
        assert(v2.bitboards[13] == v.bitboards[13] & !single_bit(sq as u64));
        assert(v2.bitboards[12] == v.bitboards[12]);
        assert(white_mass(v2.bitboards) == white_mass(v.bitboards));
        assert(!bit64(v.bitboards[12], sq as u64)) by {
            assert(forall|q: int|
                0 <= q < 6 ==> !bit64(#[trigger] v.bitboards[q], sq as u64));
            assert(!bit64(white_mass(v.bitboards), sq as u64));
        }
        lemma_clear_bit(v.bitboards[12], sq as u64);
        assert forall|j: u64| j < 64 implies bit64(v.bitboards[12], j) == bit64(
            v.bitboards[12] & !single_bit(sq as u64),
            j,
        ) by {}
        lemma_bit64_ext(v.bitboards[12], v.bitboards[12] & !single_bit(sq as u64));
        assert(white_mass(v2.bitboards) == v2.bitboards[12]);
    }
    assert(aggregates_ok(v2));
}

/// Placing a piece on a square empty in mailbox and boards keeps the position
/// well-formed.
proof fn lemma_place_wf(v: BoardView, zob: Zobrist, sq: int, piece: u8)
    requires
        wf_board(v),
        0 <= sq < 64,
        is_piece(piece),
        v.mailbox[sq] == NOPIECE,
    ensures
        wf_board(set_piece_spec(v, zob, sq, piece)),
{
    let slot = color_slot(piece);
    let v2 = set_piece_spec(v, zob, sq, piece);
    lemma_set_bit(v.bitboards[piece as int], sq as u64);
    lemma_set_bit(v.bitboards[slot as int], sq as u64);

    assert forall|s2: int, p2: int|
        0 <= s2 < 64 && 0 <= p2 < 12 implies (bit64(v2.bitboards[p2], s2 as u64)
        <==> v2.mailbox[s2] == p2) by {
        if p2 == piece {
            assert(v2.bitboards[p2] == v.bitboards[piece as int] | single_bit(sq as u64));
        } else {
            assert(v2.bitboards[p2] == v.bitboards[p2]);
        }
    }
    assert(boards_consistent(v2));

    assert forall|j: u64| j < 64 implies bit64(white_mass(v2.bitboards), j) == bit64(
        white_mass(v.bitboards) | (if piece < 6 {
            single_bit(sq as u64)
        } else {
            0u64
        }),
        j,
    ) by {
        lemma_set_bit(white_mass(v.bitboards), sq as u64);
        crate::bit_operations::lemma_xor_zero(0);
        crate::bit_operations::lemma_bit64_zero();
    }
    assert forall|j: u64| j < 64 implies bit64(black_mass(v2.bitboards), j) == bit64(
        black_mass(v.bitboards) | (if piece < 6 {
            0u64
        } else {
            single_bit(sq as u64)
        }),
        j,
    ) by {
        lemma_set_bit(black_mass(v.bitboards), sq as u64);
        crate::bit_operations::lemma_bit64_zero();
    }
    if piece < 6 {
        lemma_bit64_ext(
            white_mass(v2.bitboards),
            white_mass(v.bitboards) | single_bit(sq as u64),
        );
        lemma_bit64_ext(black_mass(v2.bitboards), black_mass(v.bitboards) | 0u64);
        assert forall|j: u64| j < 64 implies bit64(black_mass(v.bitboards) | 0u64, j) == bit64(
            black_mass(v.bitboards),
            j,
        ) by {
            crate::bit_operations::lemma_bit64_zero();
        }
        lemma_bit64_ext(black_mass(v.bitboards) | 0u64, black_mass(v.bitboards));
    } else {
        lemma_bit64_ext(
            black_mass(v2.bitboards),
            black_mass(v.bitboards) | single_bit(sq as u64),
        );
        assert forall|j: u64| j < 64 implies bit64(white_mass(v.bitboards) | 0u64, j) == bit64(
            white_mass(v.bitboards),
            j,
        ) by {
            crate::bit_operations::lemma_bit64_zero();
        }
        lemma_bit64_ext(white_mass(v2.bitboards), white_mass(v.bitboards) | 0u64);
        lemma_bit64_ext(white_mass(v.bitboards) | 0u64, white_mass(v.bitboards));
    }
    assert(aggregates_ok(v2));
}

/// Moving a piece to an empty square keeps the position well-formed.
proof fn lemma_move_wf(v: BoardView, zob: Zobrist, from: int, to: int)
    requires
        wf_board(v),
        0 <= from < 64,
        0 <= to < 64,
        from != to,
        is_piece(v.mailbox[from]),
        v.mailbox[to] == NOPIECE,
    ensures
        wf_board(move_piece_spec(v, zob, from, to)),
        move_piece_spec(v, zob, from, to).mailbox == v.mailbox.update(from, NOPIECE).update(
            to,
            v.mailbox[from],
        ),
{
    lemma_remove_wf(v, zob, from);
    lemma_place_wf(removepiece_spec(v, zob, from), zob, to, v.mailbox[from]);
}

/// Mailbox/bitboard consistency, and every other board invariant, survives
/// applying any legal action: the resulting position is well-formed again.
pub proof fn lemma_make_preserves_wf(pre: BoardView, a: Action, zob: Zobrist)
    requires
        wf_board(pre),
        legal_action(pre, a),
        pre.half_move_counter < 255,
    ensures
        wf_board(make_spec(pre, a, zob)),
{
    lemma_action_fields(a);
    let from = spec_move_from(a) as int;
    let to = spec_move_to(a) as int;
    let tag = spec_move_type(a);
    let cap = captured_of(pre, a);
    let m = make_spec(pre, a, zob);
    assert(forall|x: u8, c: u8| x < 16 ==> #[trigger] (x & c) < 16) by (bit_vector);

    if tag == NORMAL {
        if cap != NOPIECE {
            lemma_remove_wf(pre, zob, to);
            lemma_move_wf(removepiece_spec(pre, zob, to), zob, from, to);
        } else {
            lemma_move_wf(pre, zob, from, to);
        }
    } else if tag == PROMOTION {
        let v1 = if cap != NOPIECE {
            removepiece_spec(pre, zob, to)
        } else {
            pre
        };
        if cap != NOPIECE {
            lemma_remove_wf(pre, zob, to);
        }
        lemma_remove_wf(v1, zob, from);
        lemma_place_wf(removepiece_spec(v1, zob, from), zob, to, promoted_piece(pre, a));
    } else if tag == CASTLE {
        lemma_move_wf(pre, zob, from, to);
        lemma_move_wf(move_piece_spec(pre, zob, from, to), zob, castle_rook_from(to),
            castle_rook_to(to));
    } else {
        let cs = passant_victim_square(pre, a);
        assert(pre.mailbox[from] != pre.mailbox[cs]);
        lemma_remove_wf(pre, zob, cs);
        lemma_move_wf(removepiece_spec(pre, zob, cs), zob, from, to);
    }
    assert(flags_ok(m));
    assert(wf_board(m));
}

/// Clearing a bit that was set, after setting it again, restores the board.
proof fn lemma_clear_then_set(b: u64, t: u64)
    by (bit_vector)
    requires
        t < 64,
        bit64(b, t),
    ensures
        (b & !single_bit(t)) | single_bit(t) == b,
{
}

/// Setting a bit that was clear, then clearing it, restores the board.
proof fn lemma_set_then_clear(b: u64, t: u64)
    by (bit_vector)
    requires
        t < 64,
        !bit64(b, t),
    ensures
        (b | single_bit(t)) & !single_bit(t) == b,
{
}

/// Moving a bit from `f` to `t` and back restores the board.
proof fn lemma_move_bit_roundtrip(b: u64, f: u64, t: u64)
    by (bit_vector)
    requires
        f < 64,
        t < 64,
        f != t,
        bit64(b, f),
        !bit64(b, t),
    ensures
        ((((b & !single_bit(f)) | single_bit(t)) & !single_bit(t)) | single_bit(f)) == b,
{
}

/// Which aggregate occupancy board carries a square: the white one exactly
/// when a white piece stands there, the black one exactly when a black piece
/// does.
proof fn lemma_mass_bit(v: BoardView, s: int)
    requires
        wf_board(v),
        0 <= s < 64,
    ensures
        bit64(v.bitboards[12], s as u64) <==> (is_piece(v.mailbox[s]) && is_white(v.mailbox[s])),
        bit64(v.bitboards[13], s as u64) <==> (is_piece(v.mailbox[s]) && !is_white(v.mailbox[s])),
{
    assert(bit64(white_mass(v.bitboards), s as u64) <==> (bit64(v.bitboards[0], s as u64) || bit64(
        v.bitboards[1],
        s as u64,
    ) || bit64(v.bitboards[2], s as u64) || bit64(v.bitboards[3], s as u64) || bit64(
        v.bitboards[4],
        s as u64,
    ) || bit64(v.bitboards[5], s as u64)));
    assert(bit64(black_mass(v.bitboards), s as u64) <==> (bit64(v.bitboards[6], s as u64) || bit64(
        v.bitboards[7],
        s as u64,
    ) || bit64(v.bitboards[8], s as u64) || bit64(v.bitboards[9], s as u64) || bit64(
        v.bitboards[10],
        s as u64,
    ) || bit64(v.bitboards[11], s as u64)));
}

/// Round trip: undoing a legal action just applied restores the position bit
/// for bit — bitboards, mailbox, flags, counters, hash, and history depth.
#[verifier::rlimit(60)]
pub proof fn lemma_apply_undo_round_trip(pre: BoardView, a: Action, zob: Zobrist)
    requires
        wf_board(pre),
        legal_action(pre, a),
        pre.half_move_counter < 255,
    ensures
        undoable(make_spec(pre, a, zob), a),
        undo_spec(make_spec(pre, a, zob), a, zob) == pre,
{
    lemma_action_fields(a);
    let from = spec_move_from(a) as int;
    let to = spec_move_to(a) as int;
    let tag = spec_move_type(a);
    let cap = captured_of(pre, a);
    let mover = pre.mailbox[from];
    let slot = color_slot(mover);
    let m = make_spec(pre, a, zob);
    let saved = StateData {
        captured_piece: cap,
        passant_square: pre.passant_square,
        castlemask: pre.castle_rights_mask,
        halfmove_ctr: pre.half_move_counter,
        zobrist_key: pre.zobrist_key,
    };
    assert(m.prev_states.last() == saved);
    assert(m.prev_states.drop_last() =~= pre.prev_states);
    lemma_mass_bit(pre, from);
    lemma_mass_bit(pre, to);

    let u = undo_spec(m, a, zob);

    if tag == NORMAL {
        if cap != NOPIECE {
            let cslot = color_slot(cap);
            assert(cslot != slot);
            lemma_move_bit_roundtrip(pre.bitboards[mover as int], from as u64, to as u64);
            lemma_move_bit_roundtrip(pre.bitboards[slot as int], from as u64, to as u64);
            lemma_clear_then_set(pre.bitboards[cap as int], to as u64);
            lemma_clear_then_set(pre.bitboards[cslot as int], to as u64);
            assert(u.mailbox =~= pre.mailbox);
            assert forall|i: int| 0 <= i < 14 implies u.bitboards[i] == pre.bitboards[i] by {}
            assert(u.bitboards =~= pre.bitboards);
        } else {
            lemma_move_bit_roundtrip(pre.bitboards[mover as int], from as u64, to as u64);
            lemma_move_bit_roundtrip(pre.bitboards[slot as int], from as u64, to as u64);
            assert(u.mailbox =~= pre.mailbox);
            assert forall|i: int| 0 <= i < 14 implies u.bitboards[i] == pre.bitboards[i] by {}
            assert(u.bitboards =~= pre.bitboards);
        }
    } else if tag == PROMOTION {
        let pp = promoted_piece(pre, a);
        assert(is_piece(pp) && pp != mover && is_white(pp) == is_white(mover)) by {
            lemma_action_fields(a);
        }
        lemma_clear_then_set(pre.bitboards[mover as int], from as u64);
        assert(cap != pp);
        assert(!bit64(pre.bitboards[pp as int], to as u64));
        lemma_set_then_clear(pre.bitboards[pp as int], to as u64);
        if cap != NOPIECE {
            let cslot = color_slot(cap);
            assert(cslot != slot);
            lemma_clear_then_set(pre.bitboards[cap as int], to as u64);
            lemma_clear_then_set(pre.bitboards[cslot as int], to as u64);
        }
        // the mover's aggregate: pawn leaves `from`, promoted piece arrives at
        // `to`, and the undo walks both back
        let w = pre.bitboards[slot as int];
        assert((((((w & !single_bit(from as u64)) | single_bit(to as u64)) & !single_bit(
            to as u64,
        )) | single_bit(from as u64))) == w) by {
            lemma_move_bit_roundtrip(w, from as u64, to as u64);
        }
        assert(u.mailbox =~= pre.mailbox);
        assert forall|i: int| 0 <= i < 14 implies u.bitboards[i] == pre.bitboards[i] by {}
        assert(u.bitboards =~= pre.bitboards);
    } else if tag == CASTLE {
        let rf = castle_rook_from(to);
        let rt = castle_rook_to(to);
        let rook = pre.mailbox[rf];
        lemma_mass_bit(pre, rf);
        lemma_mass_bit(pre, rt);
        lemma_move_bit_roundtrip(pre.bitboards[mover as int], from as u64, to as u64);
        lemma_move_bit_roundtrip(pre.bitboards[rook as int], rf as u64, rt as u64);
        // the shared aggregate board moves both the king and the rook out and
        // back: king from->to, rook rf->rt, then rook back, then king back
        let w = pre.bitboards[slot as int];
        assert((((((((w & !single_bit(from as u64)) | single_bit(to as u64)) & !single_bit(
            rf as u64,
        )) | single_bit(rt as u64)) & !single_bit(to as u64)) | single_bit(from as u64))
            & !single_bit(rt as u64)) | single_bit(rf as u64) == w) by {
            let f = from as u64;
            let t = to as u64;
            let g = rf as u64;
            let s = rt as u64;
            assert((f < 64 && t < 64 && g < 64 && s < 64 && f != t && f != g && f != s && t != g
                && t != s && g != s && bit64(w, f) && !bit64(w, t) && bit64(w, g) && !bit64(w, s))
                ==> (((((((w & !single_bit(f)) | single_bit(t)) & !single_bit(g)) | single_bit(s))
                & !single_bit(t)) | single_bit(f)) & !single_bit(s)) | single_bit(g) == w)
                by (bit_vector);
        }
        assert(u.mailbox =~= pre.mailbox);
        assert forall|i: int| 0 <= i < 14 implies u.bitboards[i] == pre.bitboards[i] by {}
        assert(u.bitboards =~= pre.bitboards);
    } else {
        let cs = passant_victim_square(pre, a);
        let victim = pre.mailbox[cs];
        let vslot = color_slot(victim);
        lemma_mass_bit(pre, cs);
        assert(victim != mover && vslot != slot);
        assert(cs != from && cs != to);
        lemma_move_bit_roundtrip(pre.bitboards[mover as int], from as u64, to as u64);
        lemma_move_bit_roundtrip(pre.bitboards[slot as int], from as u64, to as u64);
        lemma_clear_then_set(pre.bitboards[victim as int], cs as u64);
        lemma_clear_then_set(pre.bitboards[vslot as int], cs as u64);
        assert(undo_victim_square_matches(pre, m, a, saved));
        assert(u.mailbox =~= pre.mailbox);
        assert forall|i: int| 0 <= i < 14 implies u.bitboards[i] == pre.bitboards[i] by {}
        assert(u.bitboards =~= pre.bitboards);
    }
    assert(u =~= pre);
}

/// After an en-passant application, the undo recomputes the same victim
/// square from the saved en-passant square that the application removed.
spec fn undo_victim_square_matches(
    pre: BoardView,
    m: BoardView,
    a: Action,
    saved: StateData,
) -> bool {
    crate::action::undo_victim_square(m, saved) == passant_victim_square(pre, a)
}

/// The piece-square fold reads only the first `n` squares.
proof fn lemma_fold_congruence(mb1: Seq<u8>, mb2: Seq<u8>, zob: Zobrist, n: int)
    requires
        forall|i: int| 0 <= i < n ==> mb1[i] == mb2[i],
        n <= mb1.len(),
        n <= mb2.len(),
    ensures
        piece_square_fold(mb1, zob, n) == piece_square_fold(mb2, zob, n),
    decreases n,
{
    if n > 0 {
        lemma_fold_congruence(mb1, mb2, zob, n - 1);
    }
}

/// Changing one square changes the fold by exactly that square's old and new
/// contributions.
proof fn lemma_fold_update(mb: Seq<u8>, zob: Zobrist, s: int, q: u8, n: int)
    requires
        0 <= s < n,
        n <= mb.len(),
    ensures
        piece_square_fold(mb.update(s, q), zob, n) == piece_square_fold(mb, zob, n)
            ^ square_contrib(mb, zob, s) ^ square_contrib(mb.update(s, q), zob, s),
    decreases n,
{
    let mb2 = mb.update(s, q);
    let a = square_contrib(mb, zob, s);
    let b = square_contrib(mb2, zob, s);
    if s == n - 1 {
        lemma_fold_congruence(mb2, mb, zob, n - 1);
        let x = piece_square_fold(mb, zob, n - 1);
        assert(((x ^ a) ^ a) ^ b == x ^ b) by (bit_vector);
    } else {
        lemma_fold_update(mb, zob, s, q, n - 1);
        let x = piece_square_fold(mb, zob, n - 1);
        let c = square_contrib(mb, zob, n - 1);
        assert(square_contrib(mb2, zob, n - 1) == c);
        assert((((x ^ a) ^ b) ^ c) == ((x ^ c) ^ a) ^ b) by (bit_vector);
    }
}

/// Removing a piece changes the fold by the same piece-square constant the
/// removal XORs into the key.
proof fn lemma_remove_fold(v: BoardView, zob: Zobrist, sq: int)
    requires
        0 <= sq < 64,
        v.mailbox.len() == 64,
        is_piece(v.mailbox[sq]),
    ensures
        piece_square_fold(removepiece_spec(v, zob, sq).mailbox, zob, 64) == piece_square_fold(
            v.mailbox,
            zob,
            64,
        ) ^ zob.piecesquares[sq][v.mailbox[sq] as int],
{
    lemma_fold_update(v.mailbox, zob, sq, NOPIECE, 64);
    let x = piece_square_fold(v.mailbox, zob, 64);
    let a = zob.piecesquares[sq][v.mailbox[sq] as int];
    assert((x ^ a) ^ 0u64 == x ^ a) by (bit_vector);
}

/// Placing a piece changes the fold by the same piece-square constant the
/// placement XORs into the key.
proof fn lemma_place_fold(v: BoardView, zob: Zobrist, sq: int, piece: u8)
    requires
        0 <= sq < 64,
        v.mailbox.len() == 64,
        is_piece(piece),
        v.mailbox[sq] == NOPIECE,
    ensures
        piece_square_fold(set_piece_spec(v, zob, sq, piece).mailbox, zob, 64) == piece_square_fold(
            v.mailbox,
            zob,
            64,
        ) ^ zob.piecesquares[sq][piece as int],
{
    lemma_fold_update(v.mailbox, zob, sq, piece, 64);
    let x = piece_square_fold(v.mailbox, zob, 64);
    let b = zob.piecesquares[sq][piece as int];
    assert((x ^ 0u64) ^ b == x ^ b) by (bit_vector);
}

/// Moving a piece changes the fold by the two piece-square constants the move
/// XORs into the key.
proof fn lemma_move_fold(v: BoardView, zob: Zobrist, from: int, to: int)
    requires
        0 <= from < 64,
        0 <= to < 64,
        v.mailbox.len() == 64,
        from != to,
        is_piece(v.mailbox[from]),
        v.mailbox[to] == NOPIECE,
    ensures
        piece_square_fold(move_piece_spec(v, zob, from, to).mailbox, zob, 64) == (piece_square_fold(
            v.mailbox,
            zob,
            64,
        ) ^ zob.piecesquares[from][v.mailbox[from] as int]) ^ zob.piecesquares[to][v.mailbox[from] as int],
{
    lemma_remove_fold(v, zob, from);
    lemma_place_fold(removepiece_spec(v, zob, from), zob, to, v.mailbox[from]);
}

/// Hash consistency: after applying any legal action to a position whose key
/// equals the from-scratch recomputation, the incrementally updated key again
/// equals the from-scratch recomputation over the new position.
#[verifier::rlimit(60)]
pub proof fn lemma_make_preserves_hash(pre: BoardView, a: Action, zob: Zobrist)
    requires
        wf_board(pre),
        legal_action(pre, a),
        pre.half_move_counter < 255,
        hash_ok(pre, zob),
    ensures
        hash_ok(make_spec(pre, a, zob), zob),
{
    lemma_action_fields(a);
    let from = spec_move_from(a) as int;
    let to = spec_move_to(a) as int;
    let tag = spec_move_type(a);
    let cap = captured_of(pre, a);
    let mover = pre.mailbox[from];
    let m = make_spec(pre, a, zob);

    let f0 = piece_square_fold(pre.mailbox, zob, 64);
    let f1 = piece_square_fold(m.mailbox, zob, 64);
    let e_old = ep_contrib(zob, pre.passant_square);
    let e_new = ep_contrib(zob, new_ep_of(pre, a));
    let c_old = zob.castling_rights[pre.castle_rights_mask as int];
    let c_new = zob.castling_rights[new_castle_mask(pre, a) as int];
    let t = zob.to_move;
    let t_old = crate::board::to_move_contrib(zob, pre.to_move);
    let t_new = crate::board::to_move_contrib(zob, !pre.to_move);
    assert(pre.zobrist_key == ((f0 ^ e_old) ^ c_old) ^ t_old);

    if tag == NORMAL {
        if cap != NOPIECE {
            let v1 = removepiece_spec(pre, zob, to);
            lemma_remove_fold(pre, zob, to);
            lemma_move_fold(v1, zob, from, to);
            let d1 = zob.piecesquares[to][cap as int];
            let d2 = zob.piecesquares[from][mover as int];
            let d3 = zob.piecesquares[to][mover as int];
            assert(f1 == ((f0 ^ d1) ^ d2) ^ d3);
            assert(m.zobrist_key == (((((((((f0 ^ e_old) ^ c_old) ^ t_old) ^ d1) ^ d2) ^ d3)
                ^ e_old) ^ e_new) ^ c_old) ^ c_new ^ t);
            lemma_xor_shuffle(f0, d1, d2, d3, e_old, e_new, c_old, c_new, t, t_old, t_new);
        } else {
            lemma_move_fold(pre, zob, from, to);
            let d2 = zob.piecesquares[from][mover as int];
            let d3 = zob.piecesquares[to][mover as int];
            assert(f1 == (f0 ^ d2) ^ d3);
            lemma_xor_shuffle2(f0, d2, d3, e_old, e_new, c_old, c_new, t, t_old, t_new);
        }
    } else if tag == PROMOTION {
        let pp = promoted_piece(pre, a);
        let v1 = if cap != NOPIECE {
            removepiece_spec(pre, zob, to)
        } else {
            pre
        };
        if cap != NOPIECE {
            lemma_remove_fold(pre, zob, to);
        }
        lemma_remove_fold(v1, zob, from);
        lemma_place_fold(removepiece_spec(v1, zob, from), zob, to, pp);
        let d1 = if cap != NOPIECE {
            zob.piecesquares[to][cap as int]
        } else {
            0u64
        };
        let d2 = zob.piecesquares[from][mover as int];
        let d3 = zob.piecesquares[to][pp as int];
        if cap == NOPIECE {
            assert(f1 == (f0 ^ d2) ^ d3);
            lemma_xor_shuffle2(f0, d2, d3, e_old, e_new, c_old, c_new, t, t_old, t_new);
        } else {
            assert(f1 == ((f0 ^ d1) ^ d2) ^ d3);
            lemma_xor_shuffle(f0, d1, d2, d3, e_old, e_new, c_old, c_new, t, t_old, t_new);
        }
    } else if tag == CASTLE {
        let rf = castle_rook_from(to);
        let rt = castle_rook_to(to);
        let rook = pre.mailbox[rf];
        let vk = move_piece_spec(pre, zob, from, to);
        lemma_move_fold(pre, zob, from, to);
        lemma_move_fold(vk, zob, rf, rt);
        let d1 = zob.piecesquares[from][mover as int];
        let d2 = zob.piecesquares[to][mover as int];
        let d3 = zob.piecesquares[rf][rook as int];
        let d4 = zob.piecesquares[rt][rook as int];
        assert(f1 == (((f0 ^ d1) ^ d2) ^ d3) ^ d4);
        lemma_xor_shuffle4(f0, d1, d2, d3, d4, e_old, e_new, c_old, c_new, t, t_old, t_new);
    } else {
        let cs = passant_victim_square(pre, a);
        let victim = pre.mailbox[cs];
        let v1 = removepiece_spec(pre, zob, cs);
        assert(cs != from && cs != to);
        lemma_remove_fold(pre, zob, cs);
        lemma_move_fold(v1, zob, from, to);
        let d1 = zob.piecesquares[cs][victim as int];
        let d2 = zob.piecesquares[from][mover as int];
        let d3 = zob.piecesquares[to][mover as int];
        assert(f1 == ((f0 ^ d1) ^ d2) ^ d3);
        lemma_xor_shuffle(f0, d1, d2, d3, e_old, e_new, c_old, c_new, t, t_old, t_new);
    }
}

/// XOR bookkeeping for a move that changes three piece-square contributions:
/// the incrementally built key equals the recomputation over the new fold.
proof fn lemma_xor_shuffle(
    f0: u64,
    d1: u64,
    d2: u64,
    d3: u64,
    e_old: u64,
    e_new: u64,
    c_old: u64,
    c_new: u64,
    t: u64,
    t_old: u64,
    t_new: u64,
)
    by (bit_vector)
    requires
        (t_old == t && t_new == 0) || (t_old == 0 && t_new == t),
    ensures
        ((((((((((f0 ^ e_old) ^ c_old) ^ t_old) ^ d1) ^ d2) ^ d3) ^ e_old) ^ e_new) ^ c_old)
            ^ c_new) ^ t == (((((((f0 ^ d1) ^ d2) ^ d3) ^ e_new) ^ c_new) ^ t_new)),
{
}

/// XOR bookkeeping for a move that changes two piece-square contributions.
proof fn lemma_xor_shuffle2(
    f0: u64,
    d2: u64,
    d3: u64,
    e_old: u64,
    e_new: u64,
    c_old: u64,
    c_new: u64,
    t: u64,
    t_old: u64,
    t_new: u64,
)
    by (bit_vector)
    requires
        (t_old == t && t_new == 0) || (t_old == 0 && t_new == t),
    ensures
        (((((((((f0 ^ e_old) ^ c_old) ^ t_old) ^ d2) ^ d3) ^ e_old) ^ e_new) ^ c_old) ^ c_new)
            ^ t == ((((((f0 ^ d2) ^ d3) ^ e_new) ^ c_new) ^ t_new)),
{
}

/// XOR bookkeeping for a castle, which changes four piece-square contributions.
proof fn lemma_xor_shuffle4(
    f0: u64,
    d1: u64,
    d2: u64,
    d3: u64,
    d4: u64,
    e_old: u64,
    e_new: u64,
    c_old: u64,
    c_new: u64,
    t: u64,
    t_old: u64,
    t_new: u64,
)
    by (bit_vector)
    requires
        (t_old == t && t_new == 0) || (t_old == 0 && t_new == t),
    ensures
        (((((((((((f0 ^ e_old) ^ c_old) ^ t_old) ^ d1) ^ d2) ^ d3) ^ d4) ^ e_old) ^ e_new)
            ^ c_old) ^ c_new) ^ t == ((((((((f0 ^ d1) ^ d2) ^ d3) ^ d4) ^ e_new) ^ c_new)
            ^ t_new)),
{
}

/// Every action of the sequence is legal in the position its predecessors
/// produce, with the half-move counter below its cap throughout.
pub open spec fn all_legal(v: BoardView, moves: Seq<Action>, zob: Zobrist) -> bool
    decreases moves.len(),
{
    moves.len() == 0 || (legal_action(v, moves[0]) && v.half_move_counter < 255 && all_legal(
        make_spec(v, moves[0], zob),
        moves.drop_first(),
        zob,
    ))
}

/// The position a sequence of applications reaches.
pub open spec fn apply_all(v: BoardView, moves: Seq<Action>, zob: Zobrist) -> BoardView
    decreases moves.len(),
{
    if moves.len() == 0 {
        v
    } else {
        apply_all(make_spec(v, moves[0], zob), moves.drop_first(), zob)
    }
}

/// Along any sequence of legal moves from a well-formed position: the board
/// invariants hold after every application, a key that starts equal to the
/// from-scratch recomputation stays equal to it, and no castling-right bit
/// ever turns back on.
pub proof fn lemma_sequence_invariants(v: BoardView, moves: Seq<Action>, zob: Zobrist)
    requires
        wf_board(v),
        all_legal(v, moves, zob),
    ensures
        wf_board(apply_all(v, moves, zob)),
        hash_ok(v, zob) ==> hash_ok(apply_all(v, moves, zob), zob),
        apply_all(v, moves, zob).castle_rights_mask & !v.castle_rights_mask == 0,
    decreases moves.len(),
{
    if moves.len() == 0 {
        assert(forall|x: u8| #[trigger] (x & !x) == 0) by (bit_vector);
    } else {
        let w = make_spec(v, moves[0], zob);
        lemma_make_preserves_wf(v, moves[0], zob);
        lemma_castle_rights_monotonic(v, moves[0], zob);
        if hash_ok(v, zob) {
            lemma_make_preserves_hash(v, moves[0], zob);
        }
        lemma_sequence_invariants(w, moves.drop_first(), zob);
        let a = apply_all(v, moves, zob).castle_rights_mask;
        let b = w.castle_rights_mask;
        let c = v.castle_rights_mask;
        assert((a & !b == 0 && b & !c == 0) ==> a & !c == 0) by (bit_vector);
    }
}

/// Piece boards from `q` on with one set bit at `p` make that the first hit.
proof fn lemma_first_piece_found(bbs: Seq<u64>, s: int, q: int, p: int)
    requires
        0 <= q <= p < 12,
        bit64(bbs[p], s as u64),
        forall|r: int| q <= r < 12 && r != p ==> !bit64(#[trigger] bbs[r], s as u64),
    ensures
        first_piece_at(bbs, s, q) == p,
    decreases p - q,
{
    if q < p {
        lemma_first_piece_found(bbs, s, q + 1, p);
    }
}

/// Piece boards from `q` on with no set bit yield the empty-square sentinel.
proof fn lemma_first_piece_none(bbs: Seq<u64>, s: int, q: int)
    requires
        0 <= q <= 12,
        forall|r: int| q <= r < 12 ==> !bit64(#[trigger] bbs[r], s as u64),
    ensures
        first_piece_at(bbs, s, q) == NOPIECE,
    decreases 12 - q,
{
    if q < 12 {
        lemma_first_piece_none(bbs, s, q + 1);
    }
}

/// On a well-formed position, resynchronizing the mailbox from the bitboards
/// reproduces the mailbox exactly: the redundant representations never drift.
pub proof fn lemma_resync_agrees(v: BoardView, s: int)
    requires
        wf_board(v),
        0 <= s < 64,
    ensures
        spec_which_piece(v.bitboards, s) == v.mailbox[s],
{
    if is_piece(v.mailbox[s]) {
        lemma_first_piece_found(v.bitboards, s, 0, v.mailbox[s] as int);
    } else {
        lemma_first_piece_none(v.bitboards, s, 0);
    }
}

/// Castling rights are monotone: applying a move never turns a cleared
/// castling-right bit back on; only undoing restores a saved mask.
pub proof fn lemma_castle_rights_monotonic(pre: BoardView, a: Action, zob: Zobrist)
    ensures
        make_spec(pre, a, zob).castle_rights_mask & !pre.castle_rights_mask == 0,
{
    assert((forall|x: u8, c: u8| #[trigger] ((x & c) & !x) == 0) && (forall|x: u8|
        #[trigger] (x & !x) == 0)) by (bit_vector);
}

} // verus!
