use fishcore::pawns::{Entry, PawnTable};
use fishcore::position::Position;
use fishcore::score::Score;
use fishcore::types::Color;
use fishcore::types::PieceType;
use fishcore::types::{
    move_from, move_make, move_make_prom, move_make_special, move_to, move_type, promotion_type,
    CASTLING, ENPASSANT, NORMAL, PROMOTION,
};

fn put(p: &mut Position, c: Color, pt: PieceType, file: u64, rank: u64) {
    p.put_piece(c, pt, rank * 8 + file);
}

fn kings_only() -> Position {
    let mut p = Position::empty();
    put(&mut p, Color::White, PieceType::King, 4, 0);
    put(&mut p, Color::Black, PieceType::King, 4, 7);
    p
}

#[test]
fn probe_of_pawnless_position_is_neutral() {
    let p = kings_only();
    let mut table = PawnTable::new();
    let idx = table.probe(&p);
    let e = table.get(idx);
    assert_eq!(e.pawns_score().mg_value(), 0);
    assert_eq!(e.pawns_score().eg_value(), 0);
    assert_eq!(e.pawn_asymmetry(), 0);
    assert_eq!(e.open_files(), 8);
}

#[test]
fn probe_of_symmetric_position_is_neutral() {
    let mut p = kings_only();
    put(&mut p, Color::White, PieceType::Pawn, 4, 1);
    put(&mut p, Color::Black, PieceType::Pawn, 4, 6);
    put(&mut p, Color::White, PieceType::Pawn, 0, 2);
    put(&mut p, Color::Black, PieceType::Pawn, 0, 5);
    let mut table = PawnTable::new();
    let idx = table.probe(&p);
    let e = table.get(idx);
    assert_eq!(e.pawns_score().mg_value(), 0);
    assert_eq!(e.pawns_score().eg_value(), 0);
    assert_eq!(e.pawn_asymmetry(), 0);
    assert_eq!(e.open_files(), 6);
}

#[test]
fn probing_twice_leaves_the_slot_unchanged() {
    let mut p = kings_only();
    put(&mut p, Color::White, PieceType::Pawn, 3, 3);
    put(&mut p, Color::White, PieceType::Pawn, 4, 2);
    put(&mut p, Color::Black, PieceType::Pawn, 3, 5);
    let mut table = PawnTable::new();
    let idx1 = table.probe(&p);
    let first = table.get(idx1);
    let idx2 = table.probe(&p);
    let second = table.get(idx2);
    assert_eq!(idx1, idx2);
    assert!(first == second);
}

#[test]
fn lone_pawn_is_isolated_and_passed() {
    let mut p = kings_only();
    // A single white pawn on e4.
    put(&mut p, Color::White, PieceType::Pawn, 4, 3);
    let mut table = PawnTable::new();
    let idx = table.probe(&p);
    let e = table.get(idx);
    // The isolated-pawn penalty is 13 middle game, 18 end game.
    assert_eq!(e.pawns_score().mg_value(), -13);
    assert_eq!(e.pawns_score().eg_value(), -18);
    assert_eq!(e.weak_unopposed(Color::White), 1);
    assert_eq!(e.weak_unopposed(Color::Black), 0);
    // No enemy pawn stands in its way: it is passed.
    assert_eq!(e.passed_pawns(Color::White), 1u64 << 28);
    assert_eq!(e.passed_pawns(Color::Black), 0);
    // Only the e-file is closed for white.
    assert_eq!(e.semiopen_file(Color::White, 4), 0);
    assert!(e.semiopen_file(Color::White, 3) != 0);
    assert_eq!(e.open_files(), 7);
    assert_eq!(e.pawn_asymmetry(), 2);
    // The pawn attacks d5 and f5.
    assert_eq!(e.pawn_attacks(Color::White), (1u64 << 35) | (1u64 << 37));
}

#[test]
fn mirrored_position_negates_the_score() {
    let mut p = kings_only();
    put(&mut p, Color::White, PieceType::Pawn, 2, 2);
    put(&mut p, Color::White, PieceType::Pawn, 3, 3);
    put(&mut p, Color::White, PieceType::Pawn, 4, 3);
    put(&mut p, Color::Black, PieceType::Pawn, 2, 6);
    put(&mut p, Color::Black, PieceType::Pawn, 6, 4);
    // The same structure flipped across the ranks with colors swapped.
    let mut q = kings_only();
    put(&mut q, Color::Black, PieceType::Pawn, 2, 5);
    put(&mut q, Color::Black, PieceType::Pawn, 3, 4);
    put(&mut q, Color::Black, PieceType::Pawn, 4, 4);
    put(&mut q, Color::White, PieceType::Pawn, 2, 1);
    put(&mut q, Color::White, PieceType::Pawn, 6, 3);
    let mut table = PawnTable::new();
    let ip = table.probe(&p);
    let ep = table.get(ip);
    let iq = table.probe(&q);
    let eq = table.get(iq);
    assert_eq!(ep.pawns_score().mg_value(), -eq.pawns_score().mg_value());
    assert_eq!(ep.pawns_score().eg_value(), -eq.pawns_score().eg_value());
    assert_eq!(ep.pawn_asymmetry(), eq.pawn_asymmetry());
    assert_eq!(ep.open_files(), eq.open_files());
}

#[test]
fn king_safety_is_memoized_per_king_square_and_rights() {
    let mut p = kings_only();
    put(&mut p, Color::White, PieceType::Pawn, 4, 1);
    put(&mut p, Color::White, PieceType::Pawn, 5, 1);
    let mut table = PawnTable::new();
    let idx = table.probe(&p);
    let mut e = table.get(idx);
    let s1 = e.king_safety(&p, Color::White, 4);
    let cached: Entry = e;
    let s2 = e.king_safety(&p, Color::White, 4);
    assert!(s1 == s2);
    assert!(e == cached);
    // Moving the king refreshes the value.
    let s3 = e.king_safety(&p, Color::White, 6);
    let _ = s3;
    let s4 = e.king_safety(&p, Color::White, 4);
    assert!(s4 == s1);
}

#[test]
fn king_safety_end_game_lane_counts_pawn_distance() {
    let mut p = kings_only();
    // One pawn one king step away: minimum distance 1.
    put(&mut p, Color::White, PieceType::Pawn, 4, 1);
    let mut table = PawnTable::new();
    let idx = table.probe(&p);
    let mut e = table.get(idx);
    let s = e.king_safety(&p, Color::White, 4);
    assert_eq!(s.eg_value(), -16);
    // A pawn three steps away scores minus forty-eight.
    let mut q = kings_only();
    put(&mut q, Color::White, PieceType::Pawn, 4, 3);
    let iq = table.probe(&q);
    let mut f = table.get(iq);
    let t = f.king_safety(&q, Color::White, 4);
    assert_eq!(t.eg_value(), -48);
}

#[test]
fn connected_pawns_outscore_their_mirror_penalties() {
    // Two mutually defending pawns: supported and phalanx structures score
    // with the connected bonus rather than the isolated penalty.
    let mut p = kings_only();
    put(&mut p, Color::White, PieceType::Pawn, 3, 3);
    put(&mut p, Color::White, PieceType::Pawn, 4, 3);
    let mut table = PawnTable::new();
    let idx = table.probe(&p);
    let e = table.get(idx);
    // A phalanx on relative rank three, unopposed: seed 18 plus half the
    // step to the next seed, 41 per pawn in the middle game, a quarter of
    // that in the end game.
    assert_eq!(e.pawns_score().mg_value(), 82);
    assert_eq!(e.pawns_score().eg_value(), 20);
}

#[test]
fn score_packing_round_trips() {
    for (a, b) in [(0, 0), (1, -1), (-30000, 30000), (123, 456), (-13, -18), (30000, 30000)] {
        let s = Score::make(a, b);
        assert_eq!(s.mg_value(), a);
        assert_eq!(s.eg_value(), b);
    }
}

#[test]
fn score_addition_is_lane_wise() {
    let a = Score::make(100, -200);
    let b = Score::make(-13, 18);
    let c = a.add(b);
    assert_eq!(c.mg_value(), 87);
    assert_eq!(c.eg_value(), -182);
    let d = a.sub(b);
    assert_eq!(d.mg_value(), 113);
    assert_eq!(d.eg_value(), -218);
    let n = a.neg();
    assert_eq!(n.mg_value(), -100);
    assert_eq!(n.eg_value(), 200);
    let z = Score::zero();
    assert_eq!(z.mg_value(), 0);
    assert_eq!(z.eg_value(), 0);
}

#[test]
fn move_encoding_round_trips() {
    assert_eq!(move_type(fishcore::types::MOVE_NONE), NORMAL);
    let m = move_make(12, 28);
    assert_eq!(move_from(m), 12);
    assert_eq!(move_to(m), 28);
    assert_eq!(move_type(m), NORMAL);
    let pm = move_make_prom(51, 59, PieceType::Rook);
    assert_eq!(move_from(pm), 51);
    assert_eq!(move_to(pm), 59);
    assert_eq!(move_type(pm), PROMOTION);
    assert!(promotion_type(pm) == PieceType::Rook);
    let em = move_make_special(ENPASSANT, 36, 43);
    assert_eq!(move_type(em), ENPASSANT);
    let cm = move_make_special(CASTLING, 4, 7);
    assert_eq!(move_type(cm), CASTLING);
    assert_eq!(move_to(cm), 7);
}

#[test]
fn doubled_isolated_pawns_pay_both_penalties() {
    let mut p = kings_only();
    // Doubled pawns on e3 and e4 with no neighbours: both isolated, the
    // front one also doubled and unsupported.
    put(&mut p, Color::White, PieceType::Pawn, 4, 2);
    put(&mut p, Color::White, PieceType::Pawn, 4, 3);
    let mut table = PawnTable::new();
    let idx = table.probe(&p);
    let e = table.get(idx);
    assert_eq!(e.pawns_score().mg_value(), -(13 + 13 + 18));
    assert_eq!(e.pawns_score().eg_value(), -(18 + 18 + 38));
}

#[test]
fn king_safety_without_pawns_is_level() {
    let p = kings_only();
    let mut table = PawnTable::new();
    let idx = table.probe(&p);
    let mut e = table.get(idx);
    let s = e.king_safety(&p, Color::White, 4);
    assert_eq!(s.mg_value(), 0);
    assert_eq!(s.eg_value(), 0);
    let t = e.king_safety(&p, Color::Black, 60);
    assert_eq!(t.mg_value(), 0);
    assert_eq!(t.eg_value(), 0);
}

#[test]
fn shelter_and_storm_add_up_for_a_castled_king() {
    let mut p = Position::empty();
    put(&mut p, Color::White, PieceType::King, 6, 0);
    put(&mut p, Color::Black, PieceType::King, 4, 7);
    put(&mut p, Color::White, PieceType::Pawn, 6, 1);
    put(&mut p, Color::White, PieceType::Pawn, 7, 1);
    put(&mut p, Color::Black, PieceType::Pawn, 7, 2);
    let mut table = PawnTable::new();
    let idx = table.probe(&p);
    let mut e = table.get(idx);
    let s = e.king_safety(&p, Color::White, 6);
    // Own pawn on the king's file, a quiet f-file, a sheltered g-file and
    // a storm blocked on the h-file.
    assert_eq!(s.mg_value(), 5 + (-18 - 1) + (83 - 31) + (64 - 19));
    assert_eq!(s.eg_value(), -16);
}
