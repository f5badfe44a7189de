//! The board state, the Zobrist table, move application and undo.
use chesscore::actions;
use chesscore::board::{BoardData, WK, WQ, BK, BQ};
use chesscore::pieces::{
    ALLBLACK, ALLWHITE, BBISHOP, BKING, BKNIGHT, BPAWN, BQUEEN, BROOK, NOPIECE, WBISHOP, WKING,
    WKNIGHT, WPAWN, WQUEEN, WROOK,
};
use chesscore::zobrist::{generate_zobrist, Zobrist};

fn empty_board() -> BoardData {
    BoardData {
        to_move: true,
        bitboards: [0; 14],
        mailbox: [NOPIECE; 64],
        passant_square: None,
        castle_rights_mask: 0,
        half_move_counter: 0,
        prev_states: Vec::new(),
        zobrist_key: 0,
    }
}

fn place(board: &mut BoardData, square: usize, piece: u8) {
    board.mailbox[square] = piece;
    board.bitboards[piece as usize] |= 1u64 << square;
    let slot = if piece < 6 { ALLWHITE } else { ALLBLACK };
    board.bitboards[slot as usize] |= 1u64 << square;
}

fn start_position(zob: &Zobrist) -> BoardData {
    let mut b = empty_board();
    let back = [WROOK, WKNIGHT, WBISHOP, WQUEEN, WKING, WBISHOP, WKNIGHT, WROOK];
    for f in 0..8 {
        place(&mut b, f, back[f]);
        place(&mut b, 8 + f, WPAWN);
        place(&mut b, 48 + f, BPAWN);
        place(&mut b, 56 + f, back[f] + 6);
    }
    b.castle_rights_mask = WK | WQ | BK | BQ;
    b.generate_zobristkey(zob);
    b
}

fn assert_consistent(b: &BoardData) {
    for s in 0..64 {
        let p = b.mailbox[s];
        assert!(p < 12 || p == NOPIECE, "mailbox holds a piece or the sentinel");
        for q in 0..12u8 {
            let bit = b.bitboards[q as usize] & (1u64 << s) != 0;
            assert_eq!(bit, p == q, "square {s}, piece board {q}");
        }
    }
    let white: u64 = (0..6).map(|i| b.bitboards[i]).fold(0, |a, x| a | x);
    let black: u64 = (6..12).map(|i| b.bitboards[i]).fold(0, |a, x| a | x);
    assert_eq!(b.bitboards[ALLWHITE as usize], white);
    assert_eq!(b.bitboards[ALLBLACK as usize], black);
}

#[test]
fn zobrist_table_is_deterministic() {
    let a = generate_zobrist();
    let b = generate_zobrist();
    assert_eq!(a.piecesquares, b.piecesquares);
    assert_eq!(a.passant_square, b.passant_square);
    assert_eq!(a.castling_rights, b.castling_rights);
    assert_eq!(a.to_move, b.to_move);
    assert_ne!(a.piecesquares[0][0], a.piecesquares[0][1]);
}

#[test]
fn set_mailbox_resynchronizes_from_bitboards() {
    let zob = generate_zobrist();
    let mut b = start_position(&zob);
    let saved = b.mailbox;
    b.mailbox = [0; 64];
    b.set_mailbox();
    assert_eq!(b.mailbox, saved);
}

#[test]
fn hash_matches_recomputation_along_a_game() {
    let zob = generate_zobrist();
    let mut b = start_position(&zob);
    let moves = [
        actions::new(12, 28, actions::NORMAL, 0),  // e2e4, a double push
        actions::new(51, 35, actions::NORMAL, 0),  // d7d5
        actions::new(28, 35, actions::NORMAL, 0),  // e4xd5
        actions::new(59, 35, actions::NORMAL, 0),  // Qd8xd5
        actions::new(6, 21, actions::NORMAL, 0),   // Ng1f3
    ];
    for m in moves {
        b.make_move(m, &zob);
        let mut again = b.clone();
        again.generate_zobristkey(&zob);
        assert_eq!(b.zobrist_key, again.zobrist_key, "incremental key equals recomputation");
        assert_consistent(&b);
    }
}

#[test]
fn apply_undo_round_trips_every_move_kind() {
    let zob = generate_zobrist();

    // a quiet move, a double push, and a capture
    let mut b = start_position(&zob);
    for m in [
        actions::new(12, 28, actions::NORMAL, 0),
        actions::new(51, 35, actions::NORMAL, 0),
        actions::new(28, 35, actions::NORMAL, 0),
    ] {
        let before = b.clone();
        b.make_move(m, &zob);
        assert_eq!(b.prev_states.len(), before.prev_states.len() + 1);
        b.undo_move(m, &zob);
        assert_eq!(b, before, "undo restores every field bit for bit");
        b.make_move(m, &zob);
    }

    // castling
    let mut c = start_position(&zob);
    c.mailbox[5] = NOPIECE;
    c.mailbox[6] = NOPIECE;
    c.bitboards[WBISHOP as usize] &= !(1u64 << 5);
    c.bitboards[WKNIGHT as usize] &= !(1u64 << 6);
    c.bitboards[ALLWHITE as usize] &= !((1u64 << 5) | (1u64 << 6));
    c.generate_zobristkey(&zob);
    let castle = actions::new(4, 6, actions::CASTLE, 0);
    let before = c.clone();
    c.make_move(castle, &zob);
    c.undo_move(castle, &zob);
    assert_eq!(c, before);

    // undo on an empty history is a silent no-op
    let mut d = start_position(&zob);
    let snapshot = d.clone();
    d.undo_move(castle, &zob);
    assert_eq!(d, snapshot);
}

#[test]
fn castle_rights_only_ever_shrink() {
    let zob = generate_zobrist();
    let mut b = start_position(&zob);
    let moves = [
        actions::new(12, 28, actions::NORMAL, 0),  // e2e4
        actions::new(52, 36, actions::NORMAL, 0),  // e7e5
        actions::new(4, 12, actions::NORMAL, 0),   // Ke1e2 clears both white rights
        actions::new(63, 55, actions::NORMAL, 0),  // Rh8h7 clears black king-side
    ];
    let mut mask = b.castle_rights_mask;
    for m in moves {
        b.make_move(m, &zob);
        assert_eq!(b.castle_rights_mask & !mask, 0, "no right returns");
        mask = b.castle_rights_mask;
    }
    assert_eq!(b.castle_rights_mask, BQ, "only black queen-side survives");
}

#[test]
fn kingside_castle_scenario() {
    let zob = generate_zobrist();
    let mut b = start_position(&zob);
    // clear f1 and g1, keeping the position playable
    b.mailbox[5] = NOPIECE;
    b.mailbox[6] = NOPIECE;
    b.bitboards[WBISHOP as usize] &= !(1u64 << 5);
    b.bitboards[WKNIGHT as usize] &= !(1u64 << 6);
    b.bitboards[ALLWHITE as usize] &= !((1u64 << 5) | (1u64 << 6));
    b.generate_zobristkey(&zob);

    b.make_move(actions::new(4, 6, actions::CASTLE, 0), &zob);
    assert_eq!(b.mailbox[6], WKING, "king lands on g1");
    assert_eq!(b.mailbox[5], WROOK, "rook lands on f1");
    assert_eq!(b.mailbox[4], NOPIECE);
    assert_eq!(b.mailbox[7], NOPIECE);
    assert_eq!(b.castle_rights_mask & (WK | WQ), 0, "both white rights cleared");
    assert_eq!(b.castle_rights_mask & (BK | BQ), BK | BQ, "black rights untouched");
    assert_consistent(&b);
    let mut again = b.clone();
    again.generate_zobristkey(&zob);
    assert_eq!(b.zobrist_key, again.zobrist_key, "the castle kept the hash consistent");
}

#[test]
fn double_push_opens_en_passant_square() {
    let zob = generate_zobrist();
    let mut b = start_position(&zob);
    b.make_move(actions::new(12, 28, actions::NORMAL, 0), &zob);  // e2e4
    assert_eq!(b.passant_square, Some(20), "e3 opens to en passant");
    assert_eq!(b.half_move_counter, 0, "a pawn move resets the counter");
    b.make_move(actions::new(51, 35, actions::NORMAL, 0), &zob);  // d7d5
    assert_eq!(b.passant_square, Some(43), "d6 opens, e3 closes");
    b.make_move(actions::new(1, 18, actions::NORMAL, 0), &zob);  // Nb1c3, quiet
    assert_eq!(b.passant_square, None, "the square lasts one ply only");
}

#[test]
fn en_passant_capture_removes_the_pawn_behind() {
    let zob = generate_zobrist();
    let mut b = start_position(&zob);
    b.make_move(actions::new(12, 28, actions::NORMAL, 0), &zob);  // e2e4
    b.make_move(actions::new(48, 40, actions::NORMAL, 0), &zob);  // a7a6
    b.make_move(actions::new(28, 36, actions::NORMAL, 0), &zob);  // e4e5
    b.make_move(actions::new(51, 35, actions::NORMAL, 0), &zob);  // d7d5, double push
    assert_eq!(b.passant_square, Some(43), "d6 opens to en passant");

    let before = b.clone();
    b.make_move(actions::new(36, 43, actions::PASSANT, 0), &zob);  // e5xd6 en passant
    assert_eq!(b.mailbox[35], NOPIECE, "the captured pawn leaves d5");
    assert_eq!(b.bitboards[BPAWN as usize] & (1u64 << 35), 0);
    assert_eq!(b.mailbox[43], WPAWN, "the capturing pawn lands on d6");
    assert_eq!(b.half_move_counter, 0);
    assert_consistent(&b);
    let mut again = b.clone();
    again.generate_zobristkey(&zob);
    assert_eq!(b.zobrist_key, again.zobrist_key, "the capture kept the hash consistent");

    b.undo_move(actions::new(36, 43, actions::PASSANT, 0), &zob);
    assert_eq!(b, before, "undo restores the captured pawn exactly");
}

#[test]
fn promotion_to_each_piece_and_back() {
    let zob = generate_zobrist();
    let cases = [
        (actions::PR_QUEEN, WQUEEN),
        (actions::PR_KNIGHT, WKNIGHT),
        (actions::PR_BISHOP, WBISHOP),
        (actions::PR_ROOK, WROOK),
    ];
    for (field, piece) in cases {
        let mut b = empty_board();
        place(&mut b, 4, WKING);
        place(&mut b, 60, BKING);
        place(&mut b, 48, WPAWN);  // a7
        place(&mut b, 35, BPAWN);  // an onlooker on d5
        b.generate_zobristkey(&zob);
        let before = b.clone();

        let m = actions::new(48, 56, actions::PROMOTION, field);
        b.make_move(m, &zob);
        assert_eq!(b.mailbox[56], piece, "the chosen white piece stands on a8");
        assert_eq!(b.mailbox[48], NOPIECE);
        assert_eq!(b.bitboards[WPAWN as usize] & (1u64 << 48), 0);
        assert_eq!(b.half_move_counter, 0, "a promotion is a pawn move");
        assert_consistent(&b);
        let mut again = b.clone();
        again.generate_zobristkey(&zob);
        assert_eq!(b.zobrist_key, again.zobrist_key);

        b.undo_move(m, &zob);
        assert_eq!(b, before, "undo turns the piece back into the pawn");
    }

    // a black promotion with a capture
    let mut b = empty_board();
    place(&mut b, 4, WKING);
    place(&mut b, 60, BKING);
    place(&mut b, 9, BPAWN);  // b2
    place(&mut b, 0, WROOK);  // a1, to be captured
    b.to_move = false;
    b.generate_zobristkey(&zob);
    let before = b.clone();
    let m = actions::new(9, 0, actions::PROMOTION, actions::PR_QUEEN);
    b.make_move(m, &zob);
    assert_eq!(b.mailbox[0], BQUEEN, "a black queen appears on a1");
    assert_consistent(&b);
    b.undo_move(m, &zob);
    assert_eq!(b, before);
}

#[test]
fn capture_resets_half_move_counter() {
    let zob = generate_zobrist();
    let mut b = empty_board();
    place(&mut b, 4, WKING);
    place(&mut b, 60, BKING);
    place(&mut b, 27, WKNIGHT);  // d4
    place(&mut b, 38, BPAWN);  // g5
    b.half_move_counter = 17;
    b.generate_zobristkey(&zob);
    b.make_move(actions::new(27, 21, actions::NORMAL, 0), &zob);  // Nd4f3, quiet
    assert_eq!(b.half_move_counter, 18, "a quiet piece move increments");
    b.make_move(actions::new(60, 59, actions::NORMAL, 0), &zob);  // Ke8d8, quiet
    assert_eq!(b.half_move_counter, 19);
    b.make_move(actions::new(21, 36, actions::NORMAL, 0), &zob);  // Nf3e5, quiet
    b.make_move(actions::new(38, 30, actions::NORMAL, 0), &zob);  // g5g4
    assert_eq!(b.half_move_counter, 0, "a pawn move resets the counter");
    b.make_move(actions::new(36, 30, actions::NORMAL, 0), &zob);  // Ne5 takes the pawn on g4
    assert_eq!(b.half_move_counter, 0, "a capture resets the counter");
    assert_consistent(&b);
}
