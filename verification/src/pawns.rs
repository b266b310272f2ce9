use vstd::prelude::*;
use vstd::pervasive::VecAdditionalExecFns;
use crate::bitboard::adjacent_files_bb;
use crate::bitboard::backmost_sq;
use crate::bitboard::bb_of;
use crate::bitboard::distance_ring_bb;
use crate::bitboard::file_bb;
use crate::bitboard::forward_file_bb;
use crate::bitboard::forward_ranks_bb;
use crate::bitboard::frontmost_sq;
use crate::bitboard::passed_pawn_mask;
use crate::bitboard::pawn_attack_span;
use crate::bitboard::pawn_attacks;
use crate::bitboard::rank_bb;
use crate::bitboard::shift_down;
use crate::bitboard::shift_up;
use crate::bitboard::shift_up_left;
use crate::bitboard::shift_up_right;
use crate::bitboard::spec_adjacent_files_bb;
use crate::bitboard::spec_backmost_sq;
use crate::bitboard::spec_distance_ring;
use crate::bitboard::spec_file_bb;
use crate::bitboard::spec_forward_file_bb;
use crate::bitboard::spec_forward_ranks_bb;
use crate::bitboard::spec_frontmost_sq;
use crate::bitboard::spec_passed_pawn_mask;
use crate::bitboard::spec_pawn_attack_span;
use crate::bitboard::spec_pawn_attacks;
use crate::bitboard::spec_rank_bb;
use crate::bitboard::spec_shift_down;
use crate::bitboard::spec_shift_up;
use crate::bitboard::spec_shift_up_left;
use crate::bitboard::spec_shift_up_right;
use crate::bitboard::sq_bb;
use crate::bitboard::lemma_bit_ops;
use crate::bitboard::lemma_const_bits;
use crate::bitboard::DARK_SQUARES;
use crate::bitboard::FILEA_BB;
use crate::bitboard::FILEH_BB;
use crate::bitboard::RANK1_BB;
use crate::bitboard::RANK2_BB;
use crate::bitboard::RANK7_BB;
use crate::bitboard::RANK8_BB;
use crate::bits::bit;
use crate::bits::bits;
use crate::bits::lemma_clear_lsb;
use crate::bits::lsb;
use crate::bits::more_than_one;
use crate::bits::popcount;
use crate::movegen::up_d;
use crate::position::Position;
use crate::score::spec_eg;
use crate::score::spec_mg;
use crate::score::spec_pack;
use crate::score::Score;
use crate::types::relative_rank;
use crate::types::relative_square;
use crate::types::spec_relative_rank;
use crate::types::spec_relative_square;
use crate::types::Color;
use crate::types::PieceType;
use crate::types::Square;
use crate::types::BLACK_OO;
use crate::types::BLACK_OOO;
use crate::types::SQ_NONE;
use crate::types::WHITE_OO;
use crate::types::WHITE_OOO;

verus! {

/// The number of slots of a pawn hash table.
pub const PAWN_TABLE_SIZE: usize = 16384;

/// The seed values the connected-pawn bonus grows from, by relative rank.
pub open spec fn spec_seed(r: int) -> int {
    if r == 1 {
        13
    } else if r == 2 {
        24
    } else if r == 3 {
        18
    } else if r == 4 {
        65
    } else if r == 5 {
        100
    } else if r == 6 {
        175
    } else if r == 7 {
        330
    } else {
        0
    }
}

fn seed_of(r: u64) -> (v: i64)
    ensures
        v == spec_seed(r as int),
        0 <= v <= 330,
{
    if r == 1 {
        13
    } else if r == 2 {
        24
    } else if r == 3 {
        18
    } else if r == 4 {
        65
    } else if r == 5 {
        100
    } else if r == 6 {
        175
    } else if r == 7 {
        330
    } else {
        0
    }
}

/// The middle-game lane of the connected-pawn bonus: seventeen points per
/// supporter, plus the seed of the rank, halved when the pawn is opposed,
/// with half the step to the next rank added for a phalanx.
pub open spec fn spec_connected_mg(opposed: bool, phalanx: bool, support: int, r: int) -> int {
    let step = if spec_seed(r + 1) >= spec_seed(r) {
        (spec_seed(r + 1) - spec_seed(r)) / 2
    } else {
        -((spec_seed(r) - spec_seed(r + 1)) / 2)
    };
    let base = spec_seed(r) + (if phalanx {
        step
    } else {
        0
    });
    17 * support + (if opposed {
        base / 2
    } else {
        base
    })
}

/// The end-game lane of the connected-pawn bonus: the middle-game value
/// scaled by how far past the third rank the pawn stands.
pub open spec fn spec_connected_eg(opposed: bool, phalanx: bool, support: int, r: int) -> int {
    let v = spec_connected_mg(opposed, phalanx, support, r);
    if r >= 2 {
        v * (r - 2) / 4
    } else {
        -(v / 4)
    }
}

fn connected_bonus(opposed: bool, phalanx: bool, support: u64, r: u64) -> (b: Score)
    requires
        support <= 2,
        r < 8,
    ensures
        b.0 == spec_pack(
            spec_connected_mg(opposed, phalanx, support as int, r as int),
            spec_connected_eg(opposed, phalanx, support as int, r as int),
        ),
        spec_mg(b.0) == spec_connected_mg(opposed, phalanx, support as int, r as int),
        spec_eg(b.0) == spec_connected_eg(opposed, phalanx, support as int, r as int),
{
    let s0 = seed_of(r);
    let s1 = seed_of(r + 1);
    let step: i64 = if s1 >= s0 {
        (s1 - s0) / 2
    } else {
        0 - ((s0 - s1) / 2)
    };
    let base: i64 = s0 + (if phalanx {
        step
    } else {
        0
    });
    let v: i64 = 17 * (support as i64) + (if opposed {
        base / 2
    } else {
        base
    });
    proof {
        assert(-400 <= v <= 600);
        if r >= 2 {
            assert(-2000 <= v * ((r - 2) as i64) <= 3000) by (nonlinear_arith)
                requires
                    -400 <= v <= 600 && 0 <= ((r - 2) as i64) <= 5,
            ;
        }
    }
    let eg: i64 = if r >= 2 {
        v * ((r - 2) as i64) / 4
    } else {
        0 - (v / 4)
    };
    Score::make(v as i32, eg as i32)
}

/// The running per-side result of the pawn scan: the passed pawns found,
/// the attack span, the count of weak unopposed pawns, the semi-open file
/// mask and the accumulated score.
#[derive(Clone, Copy, PartialEq, Eq, Structural, Debug)]
pub struct SideVals {
    pub passed: u64,
    pub span: u64,
    pub weak: u32,
    pub semiopen: u64,
    pub score: Score,
}

/// A square of the inner passed-pawn test: a supported push square not
/// held by an enemy pawn marks the pawn passed unless two enemy pawns
/// guard it.
pub open spec fn spec_passed_inner(pos: Position, us: Color, s: u64, b: u64, acc: u64) -> u64
    decreases b,
    when b >= 0
    via spec_passed_inner_decreases
{
    if b == 0 {
        acc
    } else {
        let t = vstd::std_specs::bits::u64_trailing_zeros(b) as u64;
        let their = pos.spec_pieces_cp(us.spec_flip(), PieceType::Pawn);
        let acc2 = if !(bits(their & spec_pawn_attacks(us, t)).len() >= 2) {
            acc | sq_bb(s)
        } else {
            acc
        };
        spec_passed_inner(pos, us, s, b & ((b - 1) as u64), acc2)
    }
}

#[via_fn]
proof fn spec_passed_inner_decreases(pos: Position, us: Color, s: u64, b: u64, acc: u64) {
    assert(b != 0 ==> b & ((b - 1) as u64) < b) by (bit_vector);
}

fn passed_inner(pos: &Position, us: Color, s: u64, b: u64, acc: u64) -> (r: u64)
    requires
        s < 64,
    ensures
        r == spec_passed_inner(*pos, us, s, b, acc),
    decreases b,
{
    if b == 0 {
        acc
    } else {
        let t = lsb(b);
        proof {
            lemma_clear_lsb(b);
        }
        let their = pos.pieces_cp(us.flip(), PieceType::Pawn);
        let acc2 = if !more_than_one(their & pawn_attacks(us, t)) {
            acc | bb_of(s)
        } else {
            acc
        };
        passed_inner(pos, us, s, b & (b - 1), acc2)
    }
}

/// One pawn of the scan: flags the pawn connected, isolated, backward,
/// passed or doubled and folds its bonus or penalty into the running
/// values, exactly as the evaluation loop visits it.
pub open spec fn spec_pawn_step(pos: Position, us: Color, s: u64, acc: SideVals) -> SideVals {
    let them = us.spec_flip();
    let our = pos.spec_pieces_cp(us, PieceType::Pawn);
    let their = pos.spec_pieces_cp(them, PieceType::Pawn);
    let f = s % 8;
    let semiopen = acc.semiopen & !(1u64 << f);
    let span = acc.span | spec_pawn_attack_span(us, s);
    let sup_sq = ((s + up_d(us)) as u64);
    let dn_sq = ((s - up_d(us)) as u64);
    let opposed = their & spec_forward_file_bb(us, s);
    let stoppers = their & spec_passed_pawn_mask(us, s);
    let lever = their & spec_pawn_attacks(us, s);
    let lever_push = their & spec_pawn_attacks(us, sup_sq);
    let doubled = our & sq_bb(dn_sq);
    let neighbours = our & spec_adjacent_files_bb(f);
    let phalanx = neighbours & spec_rank_bb(s / 8);
    let supported = neighbours & spec_rank_bb(dn_sq / 8);
    let backward = (our & spec_pawn_attack_span(them, sup_sq)) == 0 && (stoppers & (lever_push
        | sq_bb(sup_sq))) == 0;
    let passed = if (stoppers ^ lever ^ lever_push) == 0 && (our & spec_forward_file_bb(us, s))
        == 0 && bits(supported).len() >= bits(lever).len() && bits(phalanx).len() >= bits(
        lever_push,
    ).len() {
        acc.passed | sq_bb(s)
    } else if (stoppers ^ sq_bb(sup_sq)) == 0 && spec_relative_rank(us, s) >= 4 {
        spec_passed_inner(pos, us, s, spec_shift_up(us, supported) & !their, acc.passed)
    } else {
        acc.passed
    };
    let mg0 = spec_mg(acc.score.0);
    let eg0 = spec_eg(acc.score.0);
    let score1 = if (supported | phalanx) != 0 {
        Score(
            spec_pack(
                mg0 + spec_connected_mg(
                    opposed != 0,
                    phalanx != 0,
                    bits(supported).len() as int,
                    spec_relative_rank(us, s) as int,
                ),
                eg0 + spec_connected_eg(
                    opposed != 0,
                    phalanx != 0,
                    bits(supported).len() as int,
                    spec_relative_rank(us, s) as int,
                ),
            ),
        )
    } else if neighbours == 0 {
        Score(spec_pack(mg0 - 13, eg0 - 18))
    } else if backward {
        Score(spec_pack(mg0 - 24, eg0 - 12))
    } else {
        acc.score
    };
    let weak1 = if (supported | phalanx) != 0 {
        acc.weak
    } else if neighbours == 0 || backward {
        (acc.weak + (if opposed == 0 {
            1u32
        } else {
            0u32
        })) as u32
    } else {
        acc.weak
    };
    let score2 = if doubled != 0 && supported == 0 {
        Score(spec_pack(spec_mg(score1.0) - 18, spec_eg(score1.0) - 38))
    } else {
        score1
    };
    SideVals { passed, span, weak: weak1, semiopen, score: score2 }
}

/// The pawn scan of side `us` over the pawns in `b`, lowest square first.
pub open spec fn spec_eval_fold(pos: Position, us: Color, b: u64, acc: SideVals) -> SideVals
    decreases b,
    when b >= 0
    via spec_eval_fold_decreases
{
    if b == 0 {
        acc
    } else {
        let t = vstd::std_specs::bits::u64_trailing_zeros(b) as u64;
        spec_eval_fold(pos, us, b & ((b - 1) as u64), spec_pawn_step(pos, us, t, acc))
    }
}

#[via_fn]
proof fn spec_eval_fold_decreases(pos: Position, us: Color, b: u64, acc: SideVals) {
    assert(b != 0 ==> b & ((b - 1) as u64) < b) by (bit_vector);
}

/// The full pawn scan of side `us`: all its pawns folded over the zeroed
/// start, the semi-open mask starting full.
pub open spec fn spec_eval_side(pos: Position, us: Color) -> SideVals {
    spec_eval_fold(
        pos,
        us,
        pos.spec_pieces_cp(us, PieceType::Pawn),
        SideVals { passed: 0, span: 0, weak: 0, semiopen: 0xff, score: Score(0) },
    )
}

/// No pawn of a well-formed position stands on a back rank.
proof fn lemma_pawn_rank(pos: Position, us: Color, s: u64)
    requires
        pos.wf(),
        bit(pos.spec_pieces_cp(us, PieceType::Pawn), s),
    ensures
        8 <= s < 56,
{
    lemma_bit_ops();
    lemma_const_bits();
    let wp = pos.w_pawns;
    let bp = pos.b_pawns;
    assert(bit(wp | bp, s));
    assert(!bit((wp | bp) & (RANK1_BB | RANK8_BB), s));
    assert(!bit(RANK1_BB | RANK8_BB, s));
    assert(!bit(RANK1_BB, s) && !bit(RANK8_BB, s));
    assert(s / 8 != 0 && s / 8 != 7);
}

fn eval_step(pos: &Position, us: Color, s: u64, acc: SideVals) -> (r: SideVals)
    requires
        pos.wf(),
        bit(pos.spec_pieces_cp(us, PieceType::Pawn), s),
        acc.weak < 100000,
    ensures
        r == spec_pawn_step(*pos, us, s, acc),
        r.weak <= acc.weak + 1,
{
    proof {
        lemma_pawn_rank(*pos, us, s);
    }
    let them = us.flip();
    let our = pos.pieces_cp(us, PieceType::Pawn);
    let their = pos.pieces_cp(them, PieceType::Pawn);
    let f = s % 8;
    let semiopen = acc.semiopen & !(1u64 << f);
    let span = acc.span | pawn_attack_span(us, s);
    let sup_sq: u64 = match us {
        Color::White => s + 8,
        Color::Black => s - 8,
    };
    let dn_sq: u64 = match us {
        Color::White => s - 8,
        Color::Black => s + 8,
    };
    let opposed = their & forward_file_bb(us, s);
    let stoppers = their & passed_pawn_mask(us, s);
    let lever = their & pawn_attacks(us, s);
    let lever_push = their & pawn_attacks(us, sup_sq);
    let doubled = our & bb_of(dn_sq);
    let neighbours = our & adjacent_files_bb(f);
    let phalanx = neighbours & rank_bb(s / 8);
    let supported = neighbours & rank_bb(dn_sq / 8);
    let backward = (our & pawn_attack_span(them, sup_sq)) == 0 && (stoppers & (lever_push | bb_of(
        sup_sq,
    ))) == 0;
    let passed: u64 = if (stoppers ^ lever ^ lever_push) == 0 && (our & forward_file_bb(us, s))
        == 0 && popcount(supported) >= popcount(lever) && popcount(phalanx) >= popcount(lever_push) {
        acc.passed | bb_of(s)
    } else if (stoppers ^ bb_of(sup_sq)) == 0 && relative_rank(us, s) >= 4 {
        passed_inner(pos, us, s, shift_up(us, supported) & !their, acc.passed)
    } else {
        acc.passed
    };
    let score1: Score = if (supported | phalanx) != 0 {
        let nsup = popcount(supported);
        proof {
            lemma_supported_two(*pos, us, f, dn_sq, neighbours, supported);
        }
        acc.score.add(
            connected_bonus(opposed != 0, phalanx != 0, nsup, relative_rank(us, s)),
        )
    } else if neighbours == 0 {
        acc.score.sub(Score::make(13, 18))
    } else if backward {
        acc.score.sub(Score::make(24, 12))
    } else {
        acc.score
    };
    let weak1: u32 = if (supported | phalanx) != 0 {
        acc.weak
    } else if neighbours == 0 || backward {
        acc.weak + (if opposed == 0 {
            1
        } else {
            0
        })
    } else {
        acc.weak
    };
    let score2: Score = if doubled != 0 && supported == 0 {
        score1.sub(Score::make(18, 38))
    } else {
        score1
    };
    SideVals { passed, span, weak: weak1, semiopen, score: score2 }
}

/// At most two squares can support a pawn: one on each adjacent file.
proof fn lemma_supported_two(
    pos: Position,
    us: Color,
    f: u64,
    dn_sq: u64,
    neighbours: u64,
    supported: u64,
)
    requires
        f < 8,
        dn_sq < 64,
        neighbours == pos.spec_pieces_cp(us, PieceType::Pawn) & spec_adjacent_files_bb(f),
        supported == neighbours & spec_rank_bb(dn_sq / 8),
    ensures
        bits(supported).len() <= 2,
{
    lemma_bit_ops();
    crate::bits::lemma_bits_props(supported);
    let rk = dn_sq / 8;
    // Each member sits on the rank of the supporting square and on one of
    // the two adjacent files, so there are at most two of them.
    assert forall|i: u64| bit(supported, i) implies (i == 8 * rk + ((f - 1) as u64) || i == 8 * rk
        + ((f + 1) as u64)) by {
        assert(bit(spec_adjacent_files_bb(f), i));
        assert(bit(spec_rank_bb(rk), i));
        lemma_adjacent_file_bits(f, i);
        lemma_rank_bits(rk, i);
    }
    let s = bits(supported);
    if s.len() >= 3 {
        assert(s[0] < s[1] && s[1] < s[2]);
        assert(false);
    }
}

/// Membership in the two adjacent files.
proof fn lemma_adjacent_file_bits(f: u64, i: u64)
    by (bit_vector)
    requires
        f < 8,
        i < 64,
        ((spec_adjacent_files_bb(f) >> i) & 1) == 1,
    ensures
        i % 8 == ((f - 1) as u64) % 8 || i % 8 == ((f + 1) as u64) % 8,
        f >= 1 ==> (i % 8 == f - 1 || i % 8 == f + 1),
        f == 0 ==> i % 8 == 1,
{
}

/// Membership in a rank board.
proof fn lemma_rank_bits(rk: u64, i: u64)
    by (bit_vector)
    requires
        rk < 8,
        i < 64,
        ((spec_rank_bb(rk) >> i) & 1) == 1,
    ensures
        i / 8 == rk,
{
}

fn eval_fold(pos: &Position, us: Color, b: u64, acc: SideVals) -> (r: SideVals)
    requires
        pos.wf(),
        forall|i: u64| bit(b, i) ==> bit(pos.spec_pieces_cp(us, PieceType::Pawn), i),
        acc.weak + bits(b).len() < 100000,
    ensures
        r == spec_eval_fold(*pos, us, b, acc),
    decreases b,
{
    if b == 0 {
        acc
    } else {
        let t = lsb(b);
        proof {
            lemma_clear_lsb(b);
            crate::bits::lemma_bits_props(b);
        }
        let acc2 = eval_step(pos, us, t, acc);
        eval_fold(pos, us, b & (b - 1), acc2)
    }
}

fn eval_side(pos: &Position, us: Color) -> (r: SideVals)
    requires
        pos.wf(),
    ensures
        r == spec_eval_side(*pos, us),
{
    proof {
        crate::bits::lemma_bits_props(pos.spec_pieces_cp(us, PieceType::Pawn));
    }
    eval_fold(
        pos,
        us,
        pos.pieces_cp(us, PieceType::Pawn),
        SideVals { passed: 0, span: 0, weak: 0, semiopen: 0xff, score: Score::zero() },
    )
}

} // verus!

verus! {

/// The pawn-shelter strength of an own pawn by distance from the board
/// edge and relative rank; rank zero stands for no pawn on the file.
pub open spec fn spec_shelter_strength(d: int, r: int) -> int {
    if d == 0 {
        if r == 0 {
            -9
        } else if r == 1 {
            64
        } else if r == 2 {
            77
        } else if r == 3 {
            44
        } else if r == 4 {
            4
        } else if r == 5 {
            -1
        } else if r == 6 {
            -11
        } else {
            0
        }
    } else if d == 1 {
        if r == 0 {
            -15
        } else if r == 1 {
            83
        } else if r == 2 {
            51
        } else if r == 3 {
            -10
        } else if r == 4 {
            1
        } else if r == 5 {
            -10
        } else if r == 6 {
            -28
        } else {
            0
        }
    } else if d == 2 {
        if r == 0 {
            -18
        } else if r == 1 {
            84
        } else if r == 2 {
            27
        } else if r == 3 {
            -12
        } else if r == 4 {
            21
        } else if r == 5 {
            -7
        } else if r == 6 {
            -36
        } else {
            0
        }
    } else if d == 3 {
        if r == 0 {
            12
        } else if r == 1 {
            79
        } else if r == 2 {
            25
        } else if r == 3 {
            19
        } else if r == 4 {
            9
        } else if r == 5 {
            -6
        } else if r == 6 {
            -33
        } else {
            0
        }
    } else {
        0
    }
}

pub fn shelter_strength(d: u64, r: u64) -> (v: i32)
    requires
        d < 4,
        r < 8,
    ensures
        v == spec_shelter_strength(d as int, r as int),
{
    let tbl_d: u64 = d;
    if tbl_d == 0 {
        if r == 0 {
            -9
        } else if r == 1 {
            64
        } else if r == 2 {
            77
        } else if r == 3 {
            44
        } else if r == 4 {
            4
        } else if r == 5 {
            -1
        } else if r == 6 {
            -11
        } else {
            0
        }
    } else if tbl_d == 1 {
        if r == 0 {
            -15
        } else if r == 1 {
            83
        } else if r == 2 {
            51
        } else if r == 3 {
            -10
        } else if r == 4 {
            1
        } else if r == 5 {
            -10
        } else if r == 6 {
            -28
        } else {
            0
        }
    } else if tbl_d == 2 {
        if r == 0 {
            -18
        } else if r == 1 {
            84
        } else if r == 2 {
            27
        } else if r == 3 {
            -12
        } else if r == 4 {
            21
        } else if r == 5 {
            -7
        } else if r == 6 {
            -36
        } else {
            0
        }
    } else if tbl_d == 3 {
        if r == 0 {
            12
        } else if r == 1 {
            79
        } else if r == 2 {
            25
        } else if r == 3 {
            19
        } else if r == 4 {
            9
        } else if r == 5 {
            -6
        } else if r == 6 {
            -33
        } else {
            0
        }
    } else {
        0
    }
}

/// The danger of an advancing enemy pawn by blockage kind (no own pawn on
/// the file, push blocked by our pawn, or unblocked), distance from the
/// edge, and the enemy pawn's relative rank.
pub open spec fn spec_storm_danger(t: int, d: int, r: int) -> int {
    if t == 0 {
        if d == 0 {
            if r == 0 {
                4
            } else if r == 1 {
                73
            } else if r == 2 {
                132
            } else if r == 3 {
                46
            } else if r == 4 {
                31
            } else if r == 5 {
                0
            } else if r == 6 {
                0
            } else {
                0
            }
        } else if d == 1 {
            if r == 0 {
                1
            } else if r == 1 {
                64
            } else if r == 2 {
                143
            } else if r == 3 {
                26
            } else if r == 4 {
                13
            } else if r == 5 {
                0
            } else if r == 6 {
                0
            } else {
                0
            }
        } else if d == 2 {
            if r == 0 {
                1
            } else if r == 1 {
                47
            } else if r == 2 {
                110
            } else if r == 3 {
                44
            } else if r == 4 {
                24
            } else if r == 5 {
                0
            } else if r == 6 {
                0
            } else {
                0
            }
        } else if d == 3 {
            if r == 0 {
                0
            } else if r == 1 {
                72
            } else if r == 2 {
                127
            } else if r == 3 {
                50
            } else if r == 4 {
                31
            } else if r == 5 {
                0
            } else if r == 6 {
                0
            } else {
                0
            }
        } else {
            0
        }
    } else if t == 1 {
        if d == 0 {
            if r == 0 {
                0
            } else if r == 1 {
                0
            } else if r == 2 {
                19
            } else if r == 3 {
                23
            } else if r == 4 {
                1
            } else if r == 5 {
                0
            } else if r == 6 {
                0
            } else {
                0
            }
        } else if d == 1 {
            if r == 0 {
                0
            } else if r == 1 {
                0
            } else if r == 2 {
                88
            } else if r == 3 {
                27
            } else if r == 4 {
                2
            } else if r == 5 {
                0
            } else if r == 6 {
                0
            } else {
                0
            }
        } else if d == 2 {
            if r == 0 {
                0
            } else if r == 1 {
                0
            } else if r == 2 {
                101
            } else if r == 3 {
                16
            } else if r == 4 {
                1
            } else if r == 5 {
                0
            } else if r == 6 {
                0
            } else {
                0
            }
        } else if d == 3 {
            if r == 0 {
                0
            } else if r == 1 {
                0
            } else if r == 2 {
                111
            } else if r == 3 {
                22
            } else if r == 4 {
                15
            } else if r == 5 {
                0
            } else if r == 6 {
                0
            } else {
                0
            }
        } else {
            0
        }
    } else if t == 2 {
        if d == 0 {
            if r == 0 {
                22
            } else if r == 1 {
                45
            } else if r == 2 {
                104
            } else if r == 3 {
                62
            } else if r == 4 {
                6
            } else if r == 5 {
                0
            } else if r == 6 {
                0
            } else {
                0
            }
        } else if d == 1 {
            if r == 0 {
                31
            } else if r == 1 {
                30
            } else if r == 2 {
                99
            } else if r == 3 {
                39
            } else if r == 4 {
                19
            } else if r == 5 {
                0
            } else if r == 6 {
                0
            } else {
                0
            }
        } else if d == 2 {
            if r == 0 {
                23
            } else if r == 1 {
                29
            } else if r == 2 {
                96
            } else if r == 3 {
                41
            } else if r == 4 {
                15
            } else if r == 5 {
                0
            } else if r == 6 {
                0
            } else {
                0
            }
        } else if d == 3 {
            if r == 0 {
                21
            } else if r == 1 {
                23
            } else if r == 2 {
                116
            } else if r == 3 {
                41
            } else if r == 4 {
                15
            } else if r == 5 {
                0
            } else if r == 6 {
                0
            } else {
                0
            }
        } else {
            0
        }
    } else {
        0
    }
}

pub fn storm_danger(t: u64, d: u64, r: u64) -> (v: i32)
    requires
        t < 3,
        d < 4,
        r < 8,
    ensures
        v == spec_storm_danger(t as int, d as int, r as int),
{
    if t == 0 {
        if d == 0 {
            if r == 0 {
                4
            } else if r == 1 {
                73
            } else if r == 2 {
                132
            } else if r == 3 {
                46
            } else if r == 4 {
                31
            } else if r == 5 {
                0
            } else if r == 6 {
                0
            } else {
                0
            }
        } else if d == 1 {
            if r == 0 {
                1
            } else if r == 1 {
                64
            } else if r == 2 {
                143
            } else if r == 3 {
                26
            } else if r == 4 {
                13
            } else if r == 5 {
                0
            } else if r == 6 {
                0
            } else {
                0
            }
        } else if d == 2 {
            if r == 0 {
                1
            } else if r == 1 {
                47
            } else if r == 2 {
                110
            } else if r == 3 {
                44
            } else if r == 4 {
                24
            } else if r == 5 {
                0
            } else if r == 6 {
                0
            } else {
                0
            }
        } else if d == 3 {
            if r == 0 {
                0
            } else if r == 1 {
                72
            } else if r == 2 {
                127
            } else if r == 3 {
                50
            } else if r == 4 {
                31
            } else if r == 5 {
                0
            } else if r == 6 {
                0
            } else {
                0
            }
        } else {
            0
        }
    } else if t == 1 {
        if d == 0 {
            if r == 0 {
                0
            } else if r == 1 {
                0
            } else if r == 2 {
                19
            } else if r == 3 {
                23
            } else if r == 4 {
                1
            } else if r == 5 {
                0
            } else if r == 6 {
                0
            } else {
                0
            }
        } else if d == 1 {
            if r == 0 {
                0
            } else if r == 1 {
                0
            } else if r == 2 {
                88
            } else if r == 3 {
                27
            } else if r == 4 {
                2
            } else if r == 5 {
                0
            } else if r == 6 {
                0
            } else {
                0
            }
        } else if d == 2 {
            if r == 0 {
                0
            } else if r == 1 {
                0
            } else if r == 2 {
                101
            } else if r == 3 {
                16
            } else if r == 4 {
                1
            } else if r == 5 {
                0
            } else if r == 6 {
                0
            } else {
                0
            }
        } else if d == 3 {
            if r == 0 {
                0
            } else if r == 1 {
                0
            } else if r == 2 {
                111
            } else if r == 3 {
                22
            } else if r == 4 {
                15
            } else if r == 5 {
                0
            } else if r == 6 {
                0
            } else {
                0
            }
        } else {
            0
        }
    } else if t == 2 {
        if d == 0 {
            if r == 0 {
                22
            } else if r == 1 {
                45
            } else if r == 2 {
                104
            } else if r == 3 {
                62
            } else if r == 4 {
                6
            } else if r == 5 {
                0
            } else if r == 6 {
                0
            } else {
                0
            }
        } else if d == 1 {
            if r == 0 {
                31
            } else if r == 1 {
                30
            } else if r == 2 {
                99
            } else if r == 3 {
                39
            } else if r == 4 {
                19
            } else if r == 5 {
                0
            } else if r == 6 {
                0
            } else {
                0
            }
        } else if d == 2 {
            if r == 0 {
                23
            } else if r == 1 {
                29
            } else if r == 2 {
                96
            } else if r == 3 {
                41
            } else if r == 4 {
                15
            } else if r == 5 {
                0
            } else if r == 6 {
                0
            } else {
                0
            }
        } else if d == 3 {
            if r == 0 {
                21
            } else if r == 1 {
                23
            } else if r == 2 {
                116
            } else if r == 3 {
                41
            } else if r == 4 {
                15
            } else if r == 5 {
                0
            } else if r == 6 {
                0
            } else {
                0
            }
        } else {
            0
        }
    } else {
        0
    }
}


/// Both tables stay within small bounds.
proof fn lemma_table_bounds()
    ensures
        forall|d: int, r: int|
            0 <= d < 4 && 0 <= r < 8 ==> -36 <= #[trigger] spec_shelter_strength(d, r) <= 84,
        forall|t: int, d: int, r: int|
            0 <= t < 3 && 0 <= d < 4 && 0 <= r < 8 ==> 0 <= #[trigger] spec_storm_danger(t, d, r)
                <= 143,
{
}

/// One file of the shelter scan: the strength of our backmost pawn on the
/// file against the danger of their most advanced one.
pub open spec fn spec_shelter_file(us: Color, our: u64, their: u64, f: u64) -> int {
    let bo = our & spec_file_bb(f);
    let rk_us: u64 = if bo != 0 {
        spec_relative_rank(us, spec_backmost_sq(us, bo))
    } else {
        0
    };
    let bt = their & spec_file_bb(f);
    let rk_them: u64 = if bt != 0 {
        spec_relative_rank(us, spec_frontmost_sq(us.spec_flip(), bt))
    } else {
        0
    };
    let d: u64 = if f <= 7 - f {
        f
    } else {
        (7 - f) as u64
    };
    let t: int = if rk_us == 0 {
        0
    } else if rk_us as int == rk_them as int - 1 {
        1
    } else {
        2
    };
    spec_shelter_strength(d as int, rk_us as int) - spec_storm_danger(t, d as int, rk_them as int)
}

fn shelter_file(us: Color, our: u64, their: u64, f: u64) -> (v: i32)
    requires
        f < 8,
    ensures
        v == spec_shelter_file(us, our, their, f),
        -200 <= v <= 100,
{
    proof {
        lemma_table_bounds();
    }
    let bo = our & file_bb(f);
    let rk_us: u64 = if bo != 0 {
        relative_rank(us, backmost_sq(us, bo))
    } else {
        0
    };
    let bt = their & file_bb(f);
    let rk_them: u64 = if bt != 0 {
        relative_rank(us, frontmost_sq(us.flip(), bt))
    } else {
        0
    };
    let d: u64 = if f <= 7 - f {
        f
    } else {
        7 - f
    };
    let t: u64 = if rk_us == 0 {
        0
    } else if rk_them >= 1 && rk_us == rk_them - 1 {
        1
    } else {
        2
    };
    proof {
        if rk_us != 0 && !(rk_them >= 1 && rk_us == rk_them - 1) {
            assert(!(rk_us as int == rk_them as int - 1));
        }
    }
    shelter_strength(d, rk_us) - storm_danger(t, d, rk_them)
}

/// The shelter value of `us`'s king on `ksq`: a base for a pawn on the
/// king's file, the blocked edge-pawn storm bonus, and the three files
/// around the king clamped to the board.
pub open spec fn spec_shelter(pos: Position, us: Color, ksq: Square) -> int {
    let them = us.spec_flip();
    let b = pos.spec_pieces_p(PieceType::Pawn) & (spec_forward_ranks_bb(us, ksq) | spec_rank_bb(
        ksq / 8,
    ));
    let our = b & pos.spec_pieces_c(us);
    let their = b & pos.spec_pieces_c(them);
    let s0: int = if (our & spec_file_bb(ksq % 8)) != 0 {
        5
    } else {
        -5
    };
    let block_ranks: u64 = if us == Color::White {
        RANK1_BB | RANK2_BB
    } else {
        RANK8_BB | RANK7_BB
    };
    let edge: int = if (((spec_shift_down(us, their) & (FILEA_BB | FILEH_BB)) & block_ranks)
        & sq_bb(ksq)) != 0 {
        374
    } else {
        0
    };
    let center: u64 = if ksq % 8 < 1 {
        1
    } else if ksq % 8 > 6 {
        6
    } else {
        ksq % 8
    };
    s0 + edge + spec_shelter_file(us, our, their, (center - 1) as u64) + spec_shelter_file(
        us,
        our,
        their,
        center,
    ) + spec_shelter_file(us, our, their, (center + 1) as u64)
}

fn evaluate_shelter(pos: &Position, us: Color, ksq: Square) -> (v: i32)
    requires
        pos.wf(),
        ksq < 64,
    ensures
        v == spec_shelter(*pos, us, ksq),
        -1000 <= v <= 1000,
{
    let them = us.flip();
    let b = pos.pieces_p(PieceType::Pawn) & (forward_ranks_bb(us, ksq) | rank_bb(ksq / 8));
    let our = b & pos.pieces_c(us);
    let their = b & pos.pieces_c(them);
    let s0: i32 = if (our & file_bb(ksq % 8)) != 0 {
        5
    } else {
        -5
    };
    let block_ranks: u64 = match us {
        Color::White => RANK1_BB | RANK2_BB,
        Color::Black => RANK8_BB | RANK7_BB,
    };
    let edge: i32 = if (((shift_down(us, their) & (FILEA_BB | FILEH_BB)) & block_ranks) & bb_of(
        ksq,
    )) != 0 {
        374
    } else {
        0
    };
    let center: u64 = if ksq % 8 < 1 {
        1
    } else if ksq % 8 > 6 {
        6
    } else {
        ksq % 8
    };
    s0 + edge + shelter_file(us, our, their, center - 1) + shelter_file(us, our, their, center)
        + shelter_file(us, our, their, center + 1)
}

/// The first ring distance at which some pawn stands around `ksq`,
/// searched outward; 9 when the search runs off the board.
pub open spec fn spec_ring_search(pawns: u64, ksq: u64, d: nat) -> nat
    decreases 8 - d,
    when d <= 8
{
    if d >= 8 {
        9
    } else if spec_distance_ring(ksq, d as int) & pawns != 0 {
        d
    } else {
        spec_ring_search(pawns, ksq, d + 1)
    }
}

fn ring_search(pawns: u64, ksq: u64) -> (d: u64)
    requires
        ksq < 64,
    ensures
        d == spec_ring_search(pawns, ksq, 0),
        d <= 9,
{
    let mut i: u64 = 0;
    while i < 8
        invariant
            ksq < 64,
            i <= 8,
            spec_ring_search(pawns, ksq, 0) == spec_ring_search(pawns, ksq, i as nat),
        decreases 8 - i,
    {
        if distance_ring_bb(ksq, i) & pawns != 0 {
            return i;
        }
        i = i + 1;
    }
    9
}

/// The minimum king-pawn distance of the safety bonus: zero with no own
/// pawns, else one more than the first occupied ring.
pub open spec fn spec_min_kp_dist(pos: Position, us: Color, ksq: u64) -> int {
    if pos.spec_pieces_cp(us, PieceType::Pawn) == 0 {
        0
    } else {
        spec_ring_search(pos.spec_pieces_cp(us, PieceType::Pawn), ksq, 0) as int + 1
    }
}

/// The king-safety score computed afresh: the best shelter over staying
/// put and the two castled king squares, and an end-game pull toward the
/// nearest own pawn.
pub open spec fn spec_do_king_safety(pos: Position, us: Color, ksq: Square) -> Score {
    let dist = spec_min_kp_dist(pos, us, ksq);
    let b0 = spec_shelter(pos, us, ksq);
    let b1 = if pos.castle & (if us == Color::White {
        WHITE_OO
    } else {
        BLACK_OO
    }) != 0 {
        let alt = spec_shelter(pos, us, spec_relative_square(us, 6));
        if alt >= b0 {
            alt
        } else {
            b0
        }
    } else {
        b0
    };
    let b2 = if pos.castle & (if us == Color::White {
        WHITE_OOO
    } else {
        BLACK_OOO
    }) != 0 {
        let alt = spec_shelter(pos, us, spec_relative_square(us, 2));
        if alt >= b1 {
            alt
        } else {
            b1
        }
    } else {
        b1
    };
    Score(spec_pack(b2, -16 * dist))
}

fn do_king_safety_value(pos: &Position, us: Color, ksq: Square) -> (r: Score)
    requires
        pos.wf(),
        ksq < 64,
    ensures
        r == spec_do_king_safety(*pos, us, ksq),
{
    let pawns = pos.pieces_cp(us, PieceType::Pawn);
    let dist: u64 = if pawns == 0 {
        0
    } else {
        ring_search(pawns, ksq) + 1
    };
    let b0 = evaluate_shelter(pos, us, ksq);
    let oo: u8 = match us {
        Color::White => WHITE_OO,
        Color::Black => BLACK_OO,
    };
    let ooo: u8 = match us {
        Color::White => WHITE_OOO,
        Color::Black => BLACK_OOO,
    };
    let b1 = if pos.has_castling_right(oo) {
        let alt = evaluate_shelter(pos, us, relative_square(us, 6));
        if alt >= b0 {
            alt
        } else {
            b0
        }
    } else {
        b0
    };
    let b2 = if pos.has_castling_right(ooo) {
        let alt = evaluate_shelter(pos, us, relative_square(us, 2));
        if alt >= b1 {
            alt
        } else {
            b1
        }
    } else {
        b1
    };
    Score::make(b2, -16 * (dist as i32))
}

} // verus!

verus! {

/// One pawn-table slot: everything the evaluation of one pawn
/// configuration computes, with the memoized king-safety values.
#[derive(Clone, Copy, PartialEq, Eq, Structural, Debug)]
pub struct Entry {
    pub key: u64,
    pub score: Score,
    pub passed_w: u64,
    pub passed_b: u64,
    pub attacks_w: u64,
    pub attacks_b: u64,
    pub span_w: u64,
    pub span_b: u64,
    pub ksq_w: u64,
    pub ksq_b: u64,
    pub safety_w: Score,
    pub safety_b: Score,
    pub weak_w: u32,
    pub weak_b: u32,
    pub cr_w: u8,
    pub cr_b: u8,
    pub semiopen_w: u64,
    pub semiopen_b: u64,
    pub dark_w: u64,
    pub light_w: u64,
    pub dark_b: u64,
    pub light_b: u64,
    pub asymmetry: u64,
    pub open_files: u64,
}

/// The zeroed slot every table starts from.
pub open spec fn spec_new_entry() -> Entry {
    Entry {
        key: 0,
        score: Score(0),
        passed_w: 0,
        passed_b: 0,
        attacks_w: 0,
        attacks_b: 0,
        span_w: 0,
        span_b: 0,
        ksq_w: 0,
        ksq_b: 0,
        safety_w: Score(0),
        safety_b: Score(0),
        weak_w: 0,
        weak_b: 0,
        cr_w: 0,
        cr_b: 0,
        semiopen_w: 0,
        semiopen_b: 0,
        dark_w: 0,
        light_w: 0,
        dark_b: 0,
        light_b: 0,
        asymmetry: 0,
        open_files: 0,
    }
}

/// The slot content freshly computed for `pos`: both sides scanned, the
/// net score white minus black, the file statistics derived, the king
/// squares cleared so that king safety is recomputed on demand, and the
/// memoized safety values carried over from the old slot.
pub open spec fn spec_fresh_entry(pos: Position, old_e: Entry) -> Entry {
    let w = spec_eval_side(pos, Color::White);
    let b = spec_eval_side(pos, Color::Black);
    let wp = pos.spec_pieces_cp(Color::White, PieceType::Pawn);
    let bp = pos.spec_pieces_cp(Color::Black, PieceType::Pawn);
    Entry {
        key: pos.spec_pawn_key(),
        score: Score(
            spec_pack(
                spec_mg(w.score.0) - spec_mg(b.score.0),
                spec_eg(w.score.0) - spec_eg(b.score.0),
            ),
        ),
        passed_w: w.passed,
        passed_b: b.passed,
        attacks_w: spec_shift_up_right(Color::White, wp) | spec_shift_up_left(Color::White, wp),
        attacks_b: spec_shift_up_right(Color::Black, bp) | spec_shift_up_left(Color::Black, bp),
        span_w: w.span,
        span_b: b.span,
        ksq_w: SQ_NONE,
        ksq_b: SQ_NONE,
        safety_w: old_e.safety_w,
        safety_b: old_e.safety_b,
        weak_w: w.weak,
        weak_b: b.weak,
        cr_w: old_e.cr_w,
        cr_b: old_e.cr_b,
        semiopen_w: w.semiopen,
        semiopen_b: b.semiopen,
        dark_w: bits(wp & DARK_SQUARES).len() as u64,
        light_w: bits(wp & !DARK_SQUARES).len() as u64,
        dark_b: bits(bp & DARK_SQUARES).len() as u64,
        light_b: bits(bp & !DARK_SQUARES).len() as u64,
        asymmetry: bits((w.passed | b.passed) | (w.semiopen ^ b.semiopen)).len() as u64,
        open_files: bits(w.semiopen & b.semiopen).len() as u64,
    }
}

/// What a probe leaves in the slot: the cached content when the key
/// matches, the fresh computation otherwise.
pub open spec fn spec_probed(pos: Position, e: Entry) -> Entry {
    if e.key == pos.spec_pawn_key() {
        e
    } else {
        spec_fresh_entry(pos, e)
    }
}

/// Probing is idempotent: what a probe left in the slot, a second probe
/// of the same position leaves untouched, every field alike.
pub proof fn lemma_probe_idempotent(pos: Position, e: Entry)
    ensures
        spec_probed(pos, spec_probed(pos, e)) == spec_probed(pos, e),
{
    assert(spec_probed(pos, e).key == pos.spec_pawn_key());
}

impl Entry {
    /// A zeroed slot.
    pub fn new() -> (r: Entry)
        ensures
            r == spec_new_entry(),
    {
        Entry {
            key: 0,
            score: Score(0),
            passed_w: 0,
            passed_b: 0,
            attacks_w: 0,
            attacks_b: 0,
            span_w: 0,
            span_b: 0,
            ksq_w: 0,
            ksq_b: 0,
            safety_w: Score(0),
            safety_b: Score(0),
            weak_w: 0,
            weak_b: 0,
            cr_w: 0,
            cr_b: 0,
            semiopen_w: 0,
            semiopen_b: 0,
            dark_w: 0,
            light_w: 0,
            dark_b: 0,
            light_b: 0,
            asymmetry: 0,
            open_files: 0,
        }
    }

    /// The net pawn-structure score, white minus black.
    pub fn pawns_score(&self) -> (r: Score)
        ensures
            r == self.score,
    {
        self.score
    }

    /// The squares `c`'s pawns attack.
    pub fn pawn_attacks(&self, c: Color) -> (r: u64)
        ensures
            r == (if c == Color::White {
                self.attacks_w
            } else {
                self.attacks_b
            }),
    {
        match c {
            Color::White => self.attacks_w,
            Color::Black => self.attacks_b,
        }
    }

    /// The passed pawns of `c`.
    pub fn passed_pawns(&self, c: Color) -> (r: u64)
        ensures
            r == (if c == Color::White {
                self.passed_w
            } else {
                self.passed_b
            }),
    {
        match c {
            Color::White => self.passed_w,
            Color::Black => self.passed_b,
        }
    }

    /// Every square some pawn of `c` could attack while advancing.
    pub fn pawn_attacks_span(&self, c: Color) -> (r: u64)
        ensures
            r == (if c == Color::White {
                self.span_w
            } else {
                self.span_b
            }),
    {
        match c {
            Color::White => self.span_w,
            Color::Black => self.span_b,
        }
    }

    /// How many weak pawns of `c` stand on files their opponent has no
    /// pawn on.
    pub fn weak_unopposed(&self, c: Color) -> (r: u32)
        ensures
            r == (if c == Color::White {
                self.weak_w
            } else {
                self.weak_b
            }),
    {
        match c {
            Color::White => self.weak_w,
            Color::Black => self.weak_b,
        }
    }

    /// How unalike the two pawn structures are: passed pawns and files
    /// only one side holds.
    pub fn pawn_asymmetry(&self) -> (r: u64)
        ensures
            r == self.asymmetry,
    {
        self.asymmetry
    }

    /// How many files carry no pawn of either color.
    pub fn open_files(&self) -> (r: u64)
        ensures
            r == self.open_files,
    {
        self.open_files
    }

    /// Nonzero iff `c` has no pawn on file `f`.
    pub fn semiopen_file(&self, c: Color, f: u64) -> (r: u64)
        requires
            f < 8,
        ensures
            r == (if c == Color::White {
                self.semiopen_w
            } else {
                self.semiopen_b
            }) & (1u64 << f),
    {
        (match c {
            Color::White => self.semiopen_w,
            Color::Black => self.semiopen_b,
        }) & (1u64 << f)
    }

    /// The number of `c`'s pawns on squares of the color of `s`.
    pub fn pawns_on_same_color_squares(&self, c: Color, s: Square) -> (r: u64)
        requires
            s < 64,
        ensures
            r == (if (DARK_SQUARES & sq_bb(s)) != 0 {
                if c == Color::White {
                    self.dark_w
                } else {
                    self.dark_b
                }
            } else {
                if c == Color::White {
                    self.light_w
                } else {
                    self.light_b
                }
            }),
    {
        if DARK_SQUARES & bb_of(s) != 0 {
            match c {
                Color::White => self.dark_w,
                Color::Black => self.dark_b,
            }
        } else {
            match c {
                Color::White => self.light_w,
                Color::Black => self.light_b,
            }
        }
    }

    /// The memoized king safety of `us` with the king on `ksq`: the cached
    /// value while the king square and castling rights still match, and a
    /// fresh shelter-and-storm evaluation otherwise, stored for next time.
    pub fn king_safety(&mut self, pos: &Position, us: Color, ksq: Square) -> (r: Score)
        requires
            pos.wf(),
            ksq < 64,
            pos.spec_pieces_cp(us, PieceType::Pawn) & sq_bb(ksq) == 0,
        ensures
            us == Color::White ==> (if old(self).ksq_w == ksq && old(self).cr_w
                == pos.spec_castling_rights(us) {
                *final(self) == *old(self) && r == old(self).safety_w
            } else {
                r == spec_do_king_safety(*pos, us, ksq) && *final(self) == (Entry {
                    ksq_w: ksq,
                    cr_w: pos.spec_castling_rights(us),
                    safety_w: spec_do_king_safety(*pos, us, ksq),
                    ..*old(self)
                })
            }),
            us == Color::Black ==> (if old(self).ksq_b == ksq && old(self).cr_b
                == pos.spec_castling_rights(us) {
                *final(self) == *old(self) && r == old(self).safety_b
            } else {
                r == spec_do_king_safety(*pos, us, ksq) && *final(self) == (Entry {
                    ksq_b: ksq,
                    cr_b: pos.spec_castling_rights(us),
                    safety_b: spec_do_king_safety(*pos, us, ksq),
                    ..*old(self)
                })
            }),
    {
        let rights = pos.castling_rights(us);
        match us {
            Color::White => {
                if !(self.ksq_w == ksq && self.cr_w == rights) {
                    let v = do_king_safety_value(pos, us, ksq);
                    self.ksq_w = ksq;
                    self.cr_w = rights;
                    self.safety_w = v;
                }
                self.safety_w
            },
            Color::Black => {
                if !(self.ksq_b == ksq && self.cr_b == rights) {
                    let v = do_king_safety_value(pos, us, ksq);
                    self.ksq_b = ksq;
                    self.cr_b = rights;
                    self.safety_b = v;
                }
                self.safety_b
            },
        }
    }
}

/// A pawn hash table: a fixed number of slots indexed by the low bits of
/// the pawn key. Each search thread owns one.
pub struct PawnTable {
    pub entries: Vec<Entry>,
}

impl PawnTable {
    pub open spec fn wf(self) -> bool {
        self.entries@.len() == PAWN_TABLE_SIZE
    }

    /// A table of zeroed slots.
    pub fn new() -> (r: PawnTable)
        ensures
            r.wf(),
            forall|k: int| 0 <= k < PAWN_TABLE_SIZE ==> r.entries@[k] == spec_new_entry(),
    {
        let mut v: Vec<Entry> = Vec::new();
        let mut i: usize = 0;
        while i < PAWN_TABLE_SIZE
            invariant
                i == v@.len(),
                i <= PAWN_TABLE_SIZE,
                forall|k: int| 0 <= k < i ==> v@[k] == spec_new_entry(),
            decreases PAWN_TABLE_SIZE - i,
        {
            v.push(Entry::new());
            i = i + 1;
        }
        PawnTable { entries: v }
    }

    /// The slot at `idx`.
    pub fn get(&self, idx: usize) -> (r: Entry)
        requires
            self.wf(),
            idx < PAWN_TABLE_SIZE,
        ensures
            r == self.entries@[idx as int],
    {
        self.entries[idx]
    }

    /// Stores `e` in the slot at `idx`.
    pub fn put(&mut self, idx: usize, e: Entry)
        requires
            old(self).wf(),
            idx < PAWN_TABLE_SIZE,
        ensures
            final(self).wf(),
            final(self).entries@ == old(self).entries@.update(idx as int, e),
    {
        self.entries.set(idx, e);
    }

    /// Looks the position's pawn configuration up, recomputing the slot
    /// when it caches some other configuration, and returns the slot
    /// index.
    pub fn probe(&mut self, pos: &Position) -> (idx: usize)
        requires
            old(self).wf(),
            pos.wf(),
        ensures
            final(self).wf(),
            idx < PAWN_TABLE_SIZE,
            idx as int == pos.spec_pawn_key() as int % (PAWN_TABLE_SIZE as int),
            final(self).entries@ == old(self).entries@.update(
                idx as int,
                spec_probed(*pos, old(self).entries@[idx as int]),
            ),
    {
        let key = pos.pawn_key();
        let idx: usize = (key & 16383) as usize;
        proof {
            assert((key & 16383) == key % 16384) by (bit_vector);
            assert(key & 16383 < 16384) by (bit_vector);
        }
        let e = self.entries[idx];
        if e.key == key {
            proof {
                assert(final(self).entries@ =~= old(self).entries@.update(
                    idx as int,
                    spec_probed(*pos, old(self).entries@[idx as int]),
                ));
            }
            return idx;
        }
        let w = eval_side(pos, Color::White);
        let b = eval_side(pos, Color::Black);
        let wp = pos.pieces_cp(Color::White, PieceType::Pawn);
        let bp = pos.pieces_cp(Color::Black, PieceType::Pawn);
        let ne = Entry {
            key: key,
            score: w.score.sub(b.score),
            passed_w: w.passed,
            passed_b: b.passed,
            attacks_w: shift_up_right(Color::White, wp) | shift_up_left(Color::White, wp),
            attacks_b: shift_up_right(Color::Black, bp) | shift_up_left(Color::Black, bp),
            span_w: w.span,
            span_b: b.span,
            ksq_w: SQ_NONE,
            ksq_b: SQ_NONE,
            safety_w: e.safety_w,
            safety_b: e.safety_b,
            weak_w: w.weak,
            weak_b: b.weak,
            cr_w: e.cr_w,
            cr_b: e.cr_b,
            semiopen_w: w.semiopen,
            semiopen_b: b.semiopen,
            dark_w: popcount(wp & DARK_SQUARES),
            light_w: popcount(wp & !DARK_SQUARES),
            dark_b: popcount(bp & DARK_SQUARES),
            light_b: popcount(bp & !DARK_SQUARES),
            asymmetry: popcount((w.passed | b.passed) | (w.semiopen ^ b.semiopen)),
            open_files: popcount(w.semiopen & b.semiopen),
        };
        self.entries.set(idx, ne);
        idx
    }
}

} // verus!
