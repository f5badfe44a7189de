//! Bit utilities, action encoding, leaper tables and magic sliding tables.
use chesscore::actions;
use chesscore::action::Move;
use chesscore::bit_operations::{
    generate_from_index, ls1b, pop_count, pop_ls1b, set_0_at_index, set_1_at_index, shift_e,
    shift_n, shift_ne, shift_nw, shift_s, shift_se, shift_sw, shift_w,
};
use chesscore::move_generation::{
    bishop_attacks, generate_all_bperms, generate_all_rperms, generate_attack_tables,
    generate_blockermask, generate_bishoptables, generate_king_moves, generate_knight_moves,
    generate_pawncaptures, generate_pawnpushes, generate_permutation, generate_rooktables,
    king_moves_for_square, knight_moves_for_square, pawn_captures_for_square,
    pawn_moves_for_square, queen_attacks, rook_attacks, rook_endpoints, to_moveboard, transform,
};

#[test]
fn action_encoding_round_trips_for_all_fields() {
    for from in 0..64u8 {
        for to in 0..64u8 {
            for kind in 0..4u16 {
                for promo in 0..4u16 {
                    let a = actions::new(from, to, kind, promo);
                    assert_eq!(a.move_from(), from);
                    assert_eq!(a.move_to(), to);
                    assert_eq!(a.move_type(), kind);
                    assert_eq!(a.promote_to(), promo);
                }
            }
        }
    }
}

#[test]
fn wraparound_shifts_empty_the_board() {
    for sq in 0..64u8 {
        let b = generate_from_index(sq);
        if sq % 8 == 0 {
            assert_eq!(shift_w(b), 0, "west of file A from {sq}");
            assert_eq!(shift_nw(b), 0, "north-west of file A from {sq}");
            assert_eq!(shift_sw(b), 0, "south-west of file A from {sq}");
        }
        if sq % 8 == 7 {
            assert_eq!(shift_e(b), 0, "east of file H from {sq}");
            assert_eq!(shift_ne(b), 0, "north-east of file H from {sq}");
            assert_eq!(shift_se(b), 0, "south-east of file H from {sq}");
        }
        if sq >= 56 {
            assert_eq!(shift_n(b), 0, "north off rank 8 from {sq}");
        }
        if sq < 8 {
            assert_eq!(shift_s(b), 0, "south off rank 1 from {sq}");
        }
    }
}

#[test]
fn interior_shifts_move_one_step() {
    // e4 is square 28: one step in every direction
    let b = generate_from_index(28);
    assert_eq!(shift_n(b), 1u64 << 36);
    assert_eq!(shift_s(b), 1u64 << 20);
    assert_eq!(shift_e(b), 1u64 << 29);
    assert_eq!(shift_w(b), 1u64 << 27);
    assert_eq!(shift_ne(b), 1u64 << 37);
    assert_eq!(shift_nw(b), 1u64 << 35);
    assert_eq!(shift_se(b), 1u64 << 21);
    assert_eq!(shift_sw(b), 1u64 << 19);
}

#[test]
fn bit_scans_and_popcount() {
    assert_eq!(ls1b(0b1000), 3);
    assert_eq!(ls1b(1u64 << 63), 63);
    let mut b: u64 = 0b101000;
    assert_eq!(pop_ls1b(&mut b), 3);
    assert_eq!(b, 0b100000);
    assert_eq!(pop_count(0), 0);
    assert_eq!(pop_count(u64::MAX), 64);
    assert_eq!(pop_count(0xFF00), 8);
    let mut c: u64 = 0;
    set_1_at_index(10, &mut c);
    assert_eq!(c, 1 << 10);
    set_0_at_index(10, &mut c);
    assert_eq!(c, 0);
}

#[test]
fn leaper_tables_match_known_squares() {
    // knight on a1 reaches b3 and c2 only
    assert_eq!(knight_moves_for_square(0), (1u64 << 17) | (1u64 << 10));
    // king on a1 reaches a2, b1, b2
    assert_eq!(king_moves_for_square(0), (1u64 << 8) | (1u64 << 1) | (1u64 << 9));
    // white pawn on a2 pushes to a3; a push onto rank 8 is masked off
    assert_eq!(pawn_moves_for_square(8, true), 1u64 << 16);
    assert_eq!(pawn_moves_for_square(56, true), 0);
    // black pawn on d7 pushes to d6; a push onto rank 1 is masked off
    assert_eq!(pawn_moves_for_square(51, false), 1u64 << 43);
    assert_eq!(pawn_moves_for_square(8, false), 0);
    // white pawn on e4 captures d5 and f5
    assert_eq!(pawn_captures_for_square(28, true), (1u64 << 35) | (1u64 << 37));
    // the full tables agree with the per-square functions
    let kings = generate_king_moves();
    let knights = generate_knight_moves();
    let pushes = generate_pawnpushes();
    let caps = generate_pawncaptures();
    for sq in 0..64u8 {
        assert_eq!(kings[sq as usize], king_moves_for_square(sq));
        assert_eq!(knights[sq as usize], knight_moves_for_square(sq));
        assert_eq!(pushes[0][sq as usize], pawn_moves_for_square(sq, true));
        assert_eq!(pushes[1][sq as usize], pawn_moves_for_square(sq, false));
        assert_eq!(caps[0][sq as usize], pawn_captures_for_square(sq, true));
        assert_eq!(caps[1][sq as usize], pawn_captures_for_square(sq, false));
    }
}

#[test]
fn rook_mask_and_endpoints() {
    // rook on a1: endpoints are a1, a8, a1, h1
    assert_eq!(rook_endpoints(0), 1 | (1u64 << 56) | (1u64 << 7));
    // rook mask on d4 (27): file d and rank 4 without edges and d4 itself
    let mask = generate_blockermask(27, true);
    let expected: u64 = ((1u64 << 11) | (1u64 << 19) | (1u64 << 35) | (1u64 << 43) | (1u64 << 51))
        | ((1u64 << 25) | (1u64 << 26) | (1u64 << 28) | (1u64 << 29) | (1u64 << 30));
    assert_eq!(mask, expected);
    let rook_masks = generate_rooktables();
    let bishop_masks = generate_bishoptables();
    for sq in 0..64u8 {
        assert_eq!(
            rook_masks[sq as usize],
            generate_blockermask(sq, true) & !rook_endpoints(sq)
        );
        assert_eq!(bishop_masks[sq as usize], generate_blockermask(sq, false));
    }
}

#[test]
fn permutations_enumerate_subsets() {
    let mask: u64 = (1 << 3) | (1 << 10) | (1 << 40);
    let mut seen = Vec::new();
    for i in 0..8u16 {
        let p = generate_permutation(mask, i);
        assert_eq!(p & !mask, 0, "a permutation stays within the mask");
        assert!(!seen.contains(&p), "indices give distinct subsets");
        seen.push(p);
    }
    assert_eq!(generate_permutation(mask, 0), 0);
    assert_eq!(generate_permutation(mask, 7), mask);
    // the per-square lists agree with direct enumeration
    let rperms = generate_all_rperms(27);
    let rmask = generate_blockermask(27, true) & !rook_endpoints(27);
    for i in 0..(1u16 << pop_count(rmask)) {
        assert_eq!(rperms[i as usize], generate_permutation(rmask, i));
    }
    let bperms = generate_all_bperms(27);
    let bmask = generate_blockermask(27, false);
    for i in 0..(1u16 << pop_count(bmask)) {
        assert_eq!(bperms[i as usize], generate_permutation(bmask, i));
    }
}

#[test]
fn transform_keeps_top_bits() {
    assert_eq!(transform(0, 0x0080001020400080, 12), 0);
    assert!(transform(u64::MAX, 0x0080001020400080, 12) < 4096);
}

#[test]
fn magic_lookup_equals_ray_cast_for_every_subset() {
    let tables = generate_attack_tables().expect("the fixed magic constants build cleanly");
    for sq in 0..64u8 {
        let rmask = generate_blockermask(sq, true);
        for i in 0..(1u16 << pop_count(rmask)) {
            let occ = generate_permutation(rmask, i);
            assert_eq!(
                rook_attacks(occ, sq, &tables),
                to_moveboard(occ, sq, true),
                "rook lookup vs ray cast on square {sq}"
            );
        }
        let bmask = generate_blockermask(sq, false);
        for i in 0..(1u16 << pop_count(bmask)) {
            let occ = generate_permutation(bmask, i);
            assert_eq!(
                bishop_attacks(occ, sq, &tables),
                to_moveboard(occ, sq, false),
                "bishop lookup vs ray cast on square {sq}"
            );
        }
    }
}

#[test]
fn harmful_magic_constants_are_rejected() {
    // a zero multiplier maps every occupancy subset to slot zero, so subsets
    // with different attack sets collide and construction must refuse
    let zeros = [0u64; 64];
    assert!(chesscore::move_generation::generate_all_rlookups(&zeros).is_none());
    assert!(chesscore::move_generation::generate_all_blookups(&zeros).is_none());
}

#[test]
fn slider_attacks_on_sample_positions() {
    let tables = generate_attack_tables().expect("the fixed magic constants build cleanly");
    // rook on a1, empty board: all of file a and rank 1 except a1
    assert_eq!(rook_attacks(0, 0, &tables), 0x01010101010101FE);
    // rook on d4 with a blocker on d7: the north ray stops at and includes d7
    let occ = 1u64 << 51;
    let att = rook_attacks(occ, 27, &tables);
    assert!(att & (1 << 51) != 0, "the blocker square can be captured");
    assert!(att & (1 << 59) == 0, "nothing behind the blocker");
    // full occupancy outside the mask does not disturb the lookup
    assert_eq!(rook_attacks(0, 27, &tables), rook_attacks(1 | (1 << 63), 27, &tables));
    // bishop on c1 over an empty board
    assert_eq!(
        bishop_attacks(0, 2, &tables),
        (1u64 << 9) | (1 << 16) | (1 << 11) | (1 << 20) | (1 << 29) | (1 << 38) | (1 << 47)
    );
    // a queen attacks the union of rook and bishop rays
    for sq in [0u8, 27, 36, 63] {
        let occ = 0x00FF00000000FF00u64;
        assert_eq!(
            queen_attacks(occ, sq, &tables),
            rook_attacks(occ, sq, &tables) | bishop_attacks(occ, sq, &tables)
        );
    }
}
