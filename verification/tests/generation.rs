use fishcore::movegen::{Captures, Evasions, Legal, MoveList, NonEvasions, QuietChecks, Quiets};
use fishcore::position::Position;
use fishcore::types::{
    move_make_prom, move_make_special, move_type, Color, PieceType, BLACK_OO, BLACK_OOO, CASTLING,
    ENPASSANT, PROMOTION, SQ_NONE, WHITE_OO, WHITE_OOO,
};

fn pos_from_fen(fen: &str) -> Position {
    let parts: Vec<&str> = fen.split(' ').collect();
    let mut p = Position::empty();
    let mut sq: i32 = 56;
    for ch in parts[0].chars() {
        match ch {
            '/' => {
                sq -= 16;
            }
            '1'..='8' => {
                sq += ch as i32 - '0' as i32;
            }
            c => {
                let color = if c.is_ascii_uppercase() {
                    Color::White
                } else {
                    Color::Black
                };
                let pt = match c.to_ascii_lowercase() {
                    'p' => PieceType::Pawn,
                    'n' => PieceType::Knight,
                    'b' => PieceType::Bishop,
                    'r' => PieceType::Rook,
                    'q' => PieceType::Queen,
                    _ => PieceType::King,
                };
                p.put_piece(color, pt, sq as u64);
                sq += 1;
            }
        }
    }
    p.side = if parts[1] == "w" {
        Color::White
    } else {
        Color::Black
    };
    if parts.len() > 2 {
        for c in parts[2].chars() {
            match c {
                'K' => {
                    p.castle |= WHITE_OO;
                    p.rook_wk = 7;
                }
                'Q' => {
                    p.castle |= WHITE_OOO;
                    p.rook_wq = 0;
                }
                'k' => {
                    p.castle |= BLACK_OO;
                    p.rook_bk = 63;
                }
                'q' => {
                    p.castle |= BLACK_OOO;
                    p.rook_bq = 56;
                }
                _ => {}
            }
        }
    }
    if parts.len() > 3 && parts[3] != "-" {
        let f = parts[3].as_bytes()[0] - b'a';
        let r = parts[3].as_bytes()[1] - b'1';
        p.ep = (r as u64) * 8 + f as u64;
    }
    p
}

fn legal_moves(fen: &str) -> Vec<u16> {
    let p = pos_from_fen(fen);
    let l = MoveList::new::<Legal>(&p);
    let mut v: Vec<u16> = Vec::new();
    for i in 0..l.size() {
        v.push(l.get(i));
    }
    v
}

#[test]
fn startpos_has_twenty_legal_moves_and_no_castling() {
    let moves = legal_moves("rnbqkbnr/pppppppp/8/8/8/8/PPPPPPPP/RNBQKBNR w KQkq - 0 1");
    assert_eq!(moves.len(), 20);
    for m in moves {
        assert!(move_type(m) != CASTLING);
    }
}

#[test]
fn kiwipete_has_forty_eight_legal_moves() {
    let moves = legal_moves(
        "r3k2r/p1ppqpb1/bn2pnp1/3PN3/1p2P3/2N2Q1p/PPPBBPPP/R3K2R w KQkq - 0 1",
    );
    assert_eq!(moves.len(), 48);
}

#[test]
fn rook_endgame_has_fourteen_legal_moves() {
    let moves = legal_moves("8/2p5/3p4/KP5r/1R3p1k/8/4P1P1/8 w - - 0 1");
    assert_eq!(moves.len(), 14);
}

#[test]
fn promotion_position_has_forty_four_legal_moves_with_promotions() {
    let p = pos_from_fen("rnbq1k1r/pp1Pbppp/2p5/8/2B5/8/PPP1NnPP/RNBQK2R w KQ - 1 8");
    let l = MoveList::new::<Legal>(&p);
    assert_eq!(l.size(), 44);
    // The pawn on d7 may take the bishop on c8 and promote four ways.
    let d7: u64 = 51;
    let c8: u64 = 58;
    assert!(l.contains(move_make_prom(d7, c8, PieceType::Queen)));
    assert!(l.contains(move_make_prom(d7, c8, PieceType::Rook)));
    assert!(l.contains(move_make_prom(d7, c8, PieceType::Bishop)));
    assert!(l.contains(move_make_prom(d7, c8, PieceType::Knight)));
}

#[test]
fn quiet_king_and_pawn_position_has_no_captures() {
    let p = pos_from_fen("4k3/8/8/8/8/8/4P3/4K3 w - - 0 1");
    let l = MoveList::new::<Captures>(&p);
    assert_eq!(l.size(), 0);
}

#[test]
fn legal_moves_stay_at_most_two_hundred_eighteen() {
    for fen in [
        "rnbqkbnr/pppppppp/8/8/8/8/PPPPPPPP/RNBQKBNR w KQkq - 0 1",
        "r3k2r/p1ppqpb1/bn2pnp1/3PN3/1p2P3/2N2Q1p/PPPBBPPP/R3K2R w KQkq - 0 1",
        "8/2p5/3p4/KP5r/1R3p1k/8/4P1P1/8 w - - 0 1",
        "rnbq1k1r/pp1Pbppp/2p5/8/2B5/8/PPP1NnPP/RNBQK2R w KQ - 1 8",
        "R6R/3Q4/1Q4Q1/4Q3/2Q4Q/Q4Q2/pp1Q4/kBNN1KB1 w - - 0 1",
    ] {
        assert!(legal_moves(fen).len() <= 218);
    }
}

#[test]
fn legal_moves_are_non_evasions_when_not_in_check() {
    let p = pos_from_fen("r3k2r/p1ppqpb1/bn2pnp1/3PN3/1p2P3/2N2Q1p/PPPBBPPP/R3K2R w KQkq - 0 1");
    assert_eq!(p.checkers(), 0);
    let legal = MoveList::new::<Legal>(&p);
    let pseudo = MoveList::new::<NonEvasions>(&p);
    for i in 0..legal.size() {
        assert!(pseudo.contains(legal.get(i)));
    }
}

#[test]
fn legal_moves_are_evasions_when_in_check() {
    // Black is in check from the bishop on b5.
    let p = pos_from_fen("rnbqkbnr/ppp1pppp/8/1B1p4/8/4P3/PPPP1PPP/RNBQK1NR b KQkq - 0 1");
    assert!(p.checkers() != 0);
    let legal = MoveList::new::<Legal>(&p);
    let evasions = MoveList::new::<Evasions>(&p);
    assert!(legal.size() > 0);
    for i in 0..legal.size() {
        assert!(evasions.contains(legal.get(i)));
    }
}

#[test]
fn captures_and_quiets_partition_non_evasions() {
    for fen in [
        "rnbqkbnr/pppppppp/8/8/8/8/PPPPPPPP/RNBQKBNR w KQkq - 0 1",
        "r3k2r/p1ppqpb1/bn2pnp1/3PN3/1p2P3/2N2Q1p/PPPBBPPP/R3K2R w KQkq - 0 1",
        "rnbq1k1r/pp1Pbppp/2p5/8/2B5/8/PPP1NnPP/RNBQK2R w KQ - 1 8",
    ] {
        let p = pos_from_fen(fen);
        assert_eq!(p.checkers(), 0);
        let caps = MoveList::new::<Captures>(&p);
        let quiets = MoveList::new::<Quiets>(&p);
        let all = MoveList::new::<NonEvasions>(&p);
        let mut both: Vec<u16> = Vec::new();
        for i in 0..caps.size() {
            both.push(caps.get(i));
        }
        for i in 0..quiets.size() {
            both.push(quiets.get(i));
        }
        let mut whole: Vec<u16> = Vec::new();
        for i in 0..all.size() {
            whole.push(all.get(i));
        }
        both.sort();
        whole.sort();
        assert_eq!(both, whole);
    }
}

#[test]
fn checking_legal_moves_match_filtered_pseudo_legal_moves() {
    let p = pos_from_fen("r3k2r/p1ppqpb1/bn2pnp1/3PN3/1p2P3/2N2Q1p/PPPBBPPP/R3K2R w KQkq - 0 1");
    let legal = MoveList::new::<Legal>(&p);
    let pseudo = MoveList::new::<NonEvasions>(&p);
    let mut from_legal: Vec<u16> = Vec::new();
    for i in 0..legal.size() {
        let m = legal.get(i);
        if p.gives_check(m) {
            from_legal.push(m);
        }
    }
    let mut from_pseudo: Vec<u16> = Vec::new();
    for i in 0..pseudo.size() {
        let m = pseudo.get(i);
        if p.legal(m) && p.gives_check(m) {
            from_pseudo.push(m);
        }
    }
    from_legal.sort();
    from_pseudo.sort();
    assert_eq!(from_legal, from_pseudo);
}

#[test]
fn no_promotions_without_a_pawn_on_the_seventh() {
    let p = pos_from_fen("rnbqkbnr/pppppppp/8/8/8/8/PPPPPPPP/RNBQKBNR w KQkq - 0 1");
    let caps = MoveList::new::<Captures>(&p);
    let quiets = MoveList::new::<Quiets>(&p);
    let all = MoveList::new::<NonEvasions>(&p);
    let checks = MoveList::new::<QuietChecks>(&p);
    for l in [&caps, &quiets, &all, &checks] {
        for i in 0..l.size() {
            assert!(move_type(l.get(i)) != PROMOTION);
        }
    }
}

#[test]
fn en_passant_capture_is_generated() {
    // White pawn on e5, black just played d7-d5.
    let p = pos_from_fen("rnbqkbnr/ppp1pppp/8/3pP3/8/8/PPPP1PPP/RNBQK1NR w KQkq d6 0 3");
    assert!(p.ep_square() != SQ_NONE);
    let caps = MoveList::new::<Captures>(&p);
    let e5: u64 = 36;
    let d6: u64 = 43;
    assert!(caps.contains(move_make_special(ENPASSANT, e5, d6)));
}

#[test]
fn castling_moves_are_generated_when_the_path_is_clear() {
    let p = pos_from_fen("r3k2r/pppppppp/8/8/8/8/PPPPPPPP/R3K2R w KQkq - 0 1");
    let legal = MoveList::new::<Legal>(&p);
    let e1: u64 = 4;
    assert!(legal.contains(move_make_special(CASTLING, e1, 7)));
    assert!(legal.contains(move_make_special(CASTLING, e1, 0)));
}

#[test]
fn quiet_checks_give_check_quietly() {
    // The rook on d1 may slide to d8 and check the king on e8.
    let p = pos_from_fen("4k3/8/8/8/8/8/8/3RK3 w - - 0 1");
    let qc = MoveList::new::<QuietChecks>(&p);
    assert!(qc.size() > 0);
    for i in 0..qc.size() {
        let m = qc.get(i);
        assert!(p.gives_check(m));
        // The destination square holds no piece: the move is quiet.
        let to = fishcore::types::move_to(m);
        assert_eq!(p.pieces() & (1u64 << to), 0);
    }
}

#[test]
fn double_check_allows_only_king_evasions() {
    // Black is checked by the rook on e1 and the knight on f6 at once.
    let p = pos_from_fen("4k3/8/5N2/8/8/8/8/K3R3 b - - 0 1");
    let evasions = MoveList::new::<Evasions>(&p);
    assert_eq!(evasions.size(), 4);
    let legal = MoveList::new::<Legal>(&p);
    assert_eq!(legal.size(), 3);
}

#[test]
fn discovered_quiet_checks_come_from_the_blocking_knight() {
    // The knight on e5 shields the king on e8 from the rook on e1: every
    // quiet knight move uncovers the check.
    let p = pos_from_fen("4k3/8/8/4N3/8/8/8/K3R3 w - - 0 1");
    let qc = MoveList::new::<QuietChecks>(&p);
    assert_eq!(qc.size(), 8);
    for i in 0..qc.size() {
        assert!(p.gives_check(qc.get(i)));
    }
}
