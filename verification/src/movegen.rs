use vstd::prelude::*;
use crate::bitboard::bb_of;
use crate::bitboard::knight_attacks;
use crate::bitboard::file_bb;
use crate::bitboard::pawn_attacks;
use crate::bitboard::spec_file_bb;
use crate::bitboard::spec_knight_attacks;
use crate::bitboard::spec_pawn_attacks;
use crate::bitboard::spec_shift_up;
use crate::bitboard::spec_shift_up_left;
use crate::bitboard::spec_shift_up_right;
use crate::bitboard::shift_up;
use crate::bitboard::shift_up_left;
use crate::bitboard::shift_up_right;
use crate::bitboard::lemma_bit_ops;
use crate::bitboard::lemma_const_bits;
use crate::bitboard::lemma_shl_bits;
use crate::bitboard::lemma_shr_bits;
use crate::bitboard::sq_bb;
use crate::bitboard::FILEA_BB;
use crate::bitboard::FILEH_BB;
use crate::bitboard::RANK1_BB;
use crate::bitboard::RANK2_BB;
use crate::bitboard::RANK3_BB;
use crate::bitboard::RANK6_BB;
use crate::bitboard::RANK7_BB;
use crate::bitboard::RANK8_BB;
use crate::bits::bit;
use crate::bits::bits;
use crate::bits::lemma_clear_lsb;
use crate::bits::lsb;
use crate::position::lemma_test_bit;
use crate::position::Position;
use crate::types::move_make;
use crate::types::move_make_prom;
use crate::types::move_make_special;
use crate::types::spec_move_make;
use crate::types::spec_move_make_prom;
use crate::types::spec_move_make_special;
use crate::types::Color;
use crate::types::Move;
use crate::types::PieceType;
use crate::types::Square;
use crate::bitboard::spec_attacks_bb;
use crate::bitboard::spec_between_bb;
use crate::bitboard::spec_line_bb;
use crate::bitboard::spec_king_attacks;
use crate::bitboard::spec_pseudo_attacks;
use crate::bitboard::spec_rook_attacks;
use crate::types::move_from;
use crate::types::move_type;
use crate::types::spec_move_from;
use crate::types::spec_move_to;
use crate::types::spec_move_type;
use crate::types::spec_relative_square;
use crate::types::BLACK_OO;
use crate::types::BLACK_OOO;
use crate::types::CASTLING;
use crate::types::ENPASSANT;
use crate::types::PROMOTION;
use crate::types::SQ_NONE;
use crate::types::WHITE_OO;
use crate::types::WHITE_OOO;

verus! {

/// The move selectors: which part of the pseudo-legal move set a run of
/// the generator produces.
#[derive(Clone, Copy, PartialEq, Eq, Structural, Debug)]
pub enum GenTag {
    Captures,
    Quiets,
    QuietChecks,
    Evasions,
    NonEvasions,
    Legal,
}

pub struct Captures;

pub struct Quiets;

pub struct QuietChecks;

pub struct Evasions;

pub struct NonEvasions;

pub struct Legal;

/// A selector known at the call site; `gen_tag` is its value to the
/// contracts, `gen_type` its value to the running code.
pub trait GenType {
    spec fn gen_tag() -> GenTag;

    fn gen_type() -> (r: GenTag)
        ensures
            r == Self::gen_tag(),
    ;
}

impl GenType for Captures {
    open spec fn gen_tag() -> GenTag {
        GenTag::Captures
    }

    fn gen_type() -> (r: GenTag) {
        GenTag::Captures
    }
}

impl GenType for Quiets {
    open spec fn gen_tag() -> GenTag {
        GenTag::Quiets
    }

    fn gen_type() -> (r: GenTag) {
        GenTag::Quiets
    }
}

impl GenType for QuietChecks {
    open spec fn gen_tag() -> GenTag {
        GenTag::QuietChecks
    }

    fn gen_type() -> (r: GenTag) {
        GenTag::QuietChecks
    }
}

impl GenType for Evasions {
    open spec fn gen_tag() -> GenTag {
        GenTag::Evasions
    }

    fn gen_type() -> (r: GenTag) {
        GenTag::Evasions
    }
}

impl GenType for NonEvasions {
    open spec fn gen_tag() -> GenTag {
        GenTag::NonEvasions
    }

    fn gen_type() -> (r: GenTag) {
        GenTag::NonEvasions
    }
}

impl GenType for Legal {
    open spec fn gen_tag() -> GenTag {
        GenTag::Legal
    }

    fn gen_type() -> (r: GenTag) {
        GenTag::Legal
    }
}

/// A move and the score a caller may attach to it later; the generator
/// leaves the score at zero.
#[derive(Clone, Copy)]
pub struct ExtMove {
    pub m: Move,
    pub value: i32,
}

/// The moves a buffer of scored moves holds, in order.
pub open spec fn moves_of(list: Seq<ExtMove>) -> Seq<Move> {
    list.map_values(|e: ExtMove| e.m)
}

fn push_move(list: &mut Vec<ExtMove>, m: Move)
    ensures
        moves_of(final(list)@) == moves_of(old(list)@).push(m),
        final(list)@.len() == old(list)@.len() + 1,
{
    list.push(ExtMove { m, value: 0 });
    proof {
        assert(moves_of(list@) =~= moves_of(old(list)@).push(m));
    }
}

/// The per-color pawn directions as square-index offsets.
pub open spec fn up_d(us: Color) -> int {
    if us == Color::White {
        8
    } else {
        -8
    }
}

pub open spec fn right_d(us: Color) -> int {
    if us == Color::White {
        9
    } else {
        -9
    }
}

pub open spec fn left_d(us: Color) -> int {
    if us == Color::White {
        7
    } else {
        -7
    }
}

/// The moves from `t - d` to `t`, one for each set bit `t` of `b`, lowest
/// destination first.
pub open spec fn spec_push_moves(b: u64, d: int) -> Seq<Move>
    decreases b,
    when b >= 0
    via spec_push_moves_decreases
{
    if b == 0 {
        Seq::empty()
    } else {
        let t = vstd::std_specs::bits::u64_trailing_zeros(b) as u64;
        seq![spec_move_make(((t - d) as u64), t)] + spec_push_moves(b & ((b - 1) as u64), d)
    }
}

#[via_fn]
proof fn spec_push_moves_decreases(b: u64, d: int) {
    assert(b != 0 ==> b & ((b - 1) as u64) < b) by (bit_vector);
}

fn emit_pushes(list: &mut Vec<ExtMove>, b: u64, d: i64) -> (n: usize)
    requires
        -16 <= d <= 16,
        forall|i: u64| bit(b, i) ==> 0 <= i - d < 64,
    ensures
        moves_of(final(list)@) == moves_of(old(list)@) + spec_push_moves(b, d as int),
        n == bits(b).len(),
        final(list)@.len() == old(list)@.len() + n,
    decreases b,
{
    if b == 0 {
        proof {
            assert(moves_of(list@) =~= moves_of(old(list)@) + spec_push_moves(b, d as int));
        }
        0
    } else {
        let t = lsb(b);
        proof {
            lemma_clear_lsb(b);
            crate::bits::lemma_bits_props(b);
        }
        let from = ((t as i64) - d) as u64;
        push_move(list, move_make(from, t));
        let n = emit_pushes(list, b & (b - 1), d);
        proof {
            assert(moves_of(list@) =~= moves_of(old(list)@) + spec_push_moves(b, d as int));
        }
        n + 1
    }
}

/// The moves from `from` to each set bit of `b`, lowest destination first.
pub open spec fn spec_target_moves(from: Square, b: u64) -> Seq<Move>
    decreases b,
    when b >= 0
    via spec_target_moves_decreases
{
    if b == 0 {
        Seq::empty()
    } else {
        let t = vstd::std_specs::bits::u64_trailing_zeros(b) as u64;
        seq![spec_move_make(from, t)] + spec_target_moves(from, b & ((b - 1) as u64))
    }
}

#[via_fn]
proof fn spec_target_moves_decreases(from: Square, b: u64) {
    assert(b != 0 ==> b & ((b - 1) as u64) < b) by (bit_vector);
}

fn emit_targets(list: &mut Vec<ExtMove>, from: Square, b: u64) -> (n: usize)
    requires
        from < 64,
    ensures
        moves_of(final(list)@) == moves_of(old(list)@) + spec_target_moves(from, b),
        n == bits(b).len(),
        final(list)@.len() == old(list)@.len() + n,
    decreases b,
{
    if b == 0 {
        proof {
            assert(moves_of(list@) =~= moves_of(old(list)@) + spec_target_moves(from, b));
        }
        0
    } else {
        let t = lsb(b);
        proof {
            lemma_clear_lsb(b);
            crate::bits::lemma_bits_props(b);
        }
        push_move(list, move_make(from, t));
        let n = emit_targets(list, from, b & (b - 1));
        proof {
            assert(moves_of(list@) =~= moves_of(old(list)@) + spec_target_moves(from, b));
        }
        n + 1
    }
}

/// The promotion moves written for one promotion destination `to`, in the
/// order the selector asks for them: the queen for the capture-like
/// selectors, the under-promotions for the quiet-like ones, and a checking
/// knight for the quiet-check selector.
pub open spec fn spec_promo_group(gt: GenTag, to: Square, ksq: Square, d: int) -> Seq<Move> {
    let from = ((to - d) as u64);
    (if gt == GenTag::Captures || gt == GenTag::Evasions || gt == GenTag::NonEvasions {
        seq![spec_move_make_prom(from, to, PieceType::Queen)]
    } else {
        Seq::empty()
    }) + (if gt == GenTag::Quiets || gt == GenTag::Evasions || gt == GenTag::NonEvasions {
        seq![
            spec_move_make_prom(from, to, PieceType::Rook),
            spec_move_make_prom(from, to, PieceType::Bishop),
            spec_move_make_prom(from, to, PieceType::Knight),
        ]
    } else {
        Seq::empty()
    }) + (if gt == GenTag::QuietChecks && bit(spec_knight_attacks(to), ksq) {
        seq![spec_move_make_prom(from, to, PieceType::Knight)]
    } else {
        Seq::empty()
    })
}

fn make_promotions(list: &mut Vec<ExtMove>, gt: GenTag, to: Square, ksq: Square, d: i64)
    requires
        -16 <= d <= 16,
        to < 64,
        ksq < 64,
        0 <= to - d < 64,
    ensures
        moves_of(final(list)@) == moves_of(old(list)@) + spec_promo_group(gt, to, ksq, d as int),
        final(list)@.len() == old(list)@.len() + spec_promo_group(gt, to, ksq, d as int).len(),
{
    let from = ((to as i64) - d) as u64;
    if gt == GenTag::Captures || gt == GenTag::Evasions || gt == GenTag::NonEvasions {
        push_move(list, move_make_prom(from, to, PieceType::Queen));
    }
    if gt == GenTag::Quiets || gt == GenTag::Evasions || gt == GenTag::NonEvasions {
        push_move(list, move_make_prom(from, to, PieceType::Rook));
        push_move(list, move_make_prom(from, to, PieceType::Bishop));
        push_move(list, move_make_prom(from, to, PieceType::Knight));
    }
    if gt == GenTag::QuietChecks {
        proof {
            lemma_test_bit();
        }
        if knight_attacks(to) & bb_of(ksq) != 0 {
            push_move(list, move_make_prom(from, to, PieceType::Knight));
        }
    }
    proof {
        assert(moves_of(list@) =~= moves_of(old(list)@) + spec_promo_group(gt, to, ksq, d as int));
    }
}

/// One promotion group for each set bit of `b`.
pub open spec fn spec_promos(gt: GenTag, b: u64, ksq: Square, d: int) -> Seq<Move>
    decreases b,
    when b >= 0
    via spec_promos_decreases
{
    if b == 0 {
        Seq::empty()
    } else {
        let t = vstd::std_specs::bits::u64_trailing_zeros(b) as u64;
        spec_promo_group(gt, t, ksq, d) + spec_promos(gt, b & ((b - 1) as u64), ksq, d)
    }
}

#[via_fn]
proof fn spec_promos_decreases(gt: GenTag, b: u64, ksq: Square, d: int) {
    assert(b != 0 ==> b & ((b - 1) as u64) < b) by (bit_vector);
}

fn emit_promos(list: &mut Vec<ExtMove>, gt: GenTag, b: u64, ksq: Square, d: i64)
    requires
        -16 <= d <= 16,
        ksq < 64,
        forall|i: u64| bit(b, i) ==> 0 <= i - d < 64,
    ensures
        moves_of(final(list)@) == moves_of(old(list)@) + spec_promos(gt, b, ksq, d as int),
        final(list)@.len() == old(list)@.len() + spec_promos(gt, b, ksq, d as int).len(),
    decreases b,
{
    if b == 0 {
        proof {
            assert(moves_of(list@) =~= moves_of(old(list)@) + spec_promos(gt, b, ksq, d as int));
        }
    } else {
        let t = lsb(b);
        proof {
            lemma_clear_lsb(b);
        }
        make_promotions(list, gt, t, ksq, d);
        emit_promos(list, gt, b & (b - 1), ksq, d);
        proof {
            assert(moves_of(list@) =~= moves_of(old(list)@) + spec_promos(gt, b, ksq, d as int));
        }
    }
}

/// The en-passant moves: one per attacker square in `b`, capturing on `ep`.
pub open spec fn spec_ep_moves(b: u64, ep: Square) -> Seq<Move>
    decreases b,
    when b >= 0
    via spec_ep_moves_decreases
{
    if b == 0 {
        Seq::empty()
    } else {
        let t = vstd::std_specs::bits::u64_trailing_zeros(b) as u64;
        seq![spec_move_make_special(ENPASSANT, t, ep)] + spec_ep_moves(b & ((b - 1) as u64), ep)
    }
}

#[via_fn]
proof fn spec_ep_moves_decreases(b: u64, ep: Square) {
    assert(b != 0 ==> b & ((b - 1) as u64) < b) by (bit_vector);
}

fn emit_ep_moves(list: &mut Vec<ExtMove>, b: u64, ep: Square)
    requires
        ep < 64,
    ensures
        moves_of(final(list)@) == moves_of(old(list)@) + spec_ep_moves(b, ep),
        final(list)@.len() == old(list)@.len() + spec_ep_moves(b, ep).len(),
    decreases b,
{
    if b == 0 {
        proof {
            assert(moves_of(list@) =~= moves_of(old(list)@) + spec_ep_moves(b, ep));
        }
    } else {
        let t = lsb(b);
        proof {
            lemma_clear_lsb(b);
        }
        push_move(list, move_make_special(ENPASSANT, t, ep));
        emit_ep_moves(list, b & (b - 1), ep);
        proof {
            assert(moves_of(list@) =~= moves_of(old(list)@) + spec_ep_moves(b, ep));
        }
    }
}

/// Any destination reached by one pawn step of `us` has its origin square
/// on the board.
proof fn lemma_step_bounds(us: Color, x: u64)
    ensures
        forall|i: u64| bit(spec_shift_up(us, x), i) ==> 0 <= i - up_d(us) < 64,
        forall|i: u64| bit(spec_shift_up_right(us, x), i) ==> 0 <= i - right_d(us) < 64,
        forall|i: u64| bit(spec_shift_up_left(us, x), i) ==> 0 <= i - left_d(us) < 64,
{
    if us == Color::White {
        lemma_shl_bits(x, 8);
        lemma_shl_bits((x & !FILEH_BB), 9);
        lemma_shl_bits((x & !FILEA_BB), 7);
        assert forall|i: u64| bit(spec_shift_up(us, x), i) implies 0 <= i - up_d(us) < 64 by {
            assert((((x << 8) >> i) & 1) == 1);
        }
        assert forall|i: u64| bit(spec_shift_up_right(us, x), i) implies 0 <= i - right_d(us)
            < 64 by {
            assert(((((x & !FILEH_BB) << 9) >> i) & 1) == 1);
        }
        assert forall|i: u64| bit(spec_shift_up_left(us, x), i) implies 0 <= i - left_d(us)
            < 64 by {
            assert(((((x & !FILEA_BB) << 7) >> i) & 1) == 1);
        }
    } else {
        lemma_shr_bits(x, 8);
        lemma_shr_bits((x & !FILEA_BB), 9);
        lemma_shr_bits((x & !FILEH_BB), 7);
        assert forall|i: u64| bit(spec_shift_up(us, x), i) implies 0 <= i - up_d(us) < 64 by {
            assert((((x >> 8) >> i) & 1) == 1);
        }
        assert forall|i: u64| bit(spec_shift_up_right(us, x), i) implies 0 <= i - right_d(us)
            < 64 by {
            assert(((((x & !FILEA_BB) >> 9) >> i) & 1) == 1);
        }
        assert forall|i: u64| bit(spec_shift_up_left(us, x), i) implies 0 <= i - left_d(us)
            < 64 by {
            assert(((((x & !FILEH_BB) >> 7) >> i) & 1) == 1);
        }
    }
}

/// Any destination of a double pawn push has its origin on the board: the
/// single-push square lay on the relative third rank.
proof fn lemma_double_bounds(us: Color, y: u64)
    ensures
        us == Color::White ==> forall|i: u64|
            bit(spec_shift_up(us, y & RANK3_BB), i) ==> 24 <= i < 64,
        us == Color::Black ==> forall|i: u64|
            bit(spec_shift_up(us, y & RANK6_BB), i) ==> i < 40,
{
    lemma_bit_ops();
    lemma_const_bits();
    if us == Color::White {
        lemma_shl_bits((y & RANK3_BB), 8);
        assert forall|i: u64| bit(spec_shift_up(us, y & RANK3_BB), i) implies 24 <= i < 64 by {
            assert(((((y & RANK3_BB) << 8) >> i) & 1) == 1);
            let j = (i - 8) as u64;
            assert((((y & RANK3_BB) >> j) & 1) == 1);
            assert(bit(y & RANK3_BB, j));
            assert(bit(RANK3_BB, j));
            assert(j / 8 == 2);
        }
    } else {
        lemma_shr_bits((y & RANK6_BB), 8);
        assert forall|i: u64| bit(spec_shift_up(us, y & RANK6_BB), i) implies i < 40 by {
            assert(((((y & RANK6_BB) >> 8) >> i) & 1) == 1);
            let j = (i + 8) as u64;
            assert((((y & RANK6_BB) >> j) & 1) == 1);
            assert(bit(y & RANK6_BB, j));
            assert(bit(RANK6_BB, j));
            assert(j / 8 == 5);
        }
    }
}

} // verus!

verus! {

/// The relative seventh, eighth and third rank of `us`.
pub open spec fn trank7_of(us: Color) -> u64 {
    if us == Color::White {
        RANK7_BB
    } else {
        RANK2_BB
    }
}

pub open spec fn trank8_of(us: Color) -> u64 {
    if us == Color::White {
        RANK8_BB
    } else {
        RANK1_BB
    }
}

pub open spec fn trank3_of(us: Color) -> u64 {
    if us == Color::White {
        RANK3_BB
    } else {
        RANK6_BB
    }
}

/// The enemy squares a pawn may capture on under selector `gt`.
pub open spec fn spec_pawn_enemies(pos: Position, gt: GenTag, target: u64) -> u64 {
    if gt == GenTag::Evasions {
        pos.spec_pieces_c(pos.side.spec_flip()) & target
    } else if gt == GenTag::Captures {
        target
    } else {
        pos.spec_pieces_c(pos.side.spec_flip())
    }
}

/// The squares a pawn may step onto under selector `gt`.
pub open spec fn spec_pawn_empties(pos: Position, gt: GenTag, target: u64) -> u64 {
    if gt == GenTag::Quiets || gt == GenTag::QuietChecks {
        target
    } else {
        !pos.spec_pieces()
    }
}

/// The single and double pawn pushes of selector `gt`: never produced for
/// captures; for evasions only onto blocking squares; for quiet checks
/// only pushes that check directly, plus discovered-check pushes off the
/// enemy king's file.
#[verifier::opaque]
pub open spec fn spec_pawn_pushes(pos: Position, gt: GenTag, target: u64) -> Seq<Move> {
    let us = pos.side;
    let them = us.spec_flip();
    let not7 = pos.spec_pieces_cp(us, PieceType::Pawn) & !trank7_of(us);
    let empties = spec_pawn_empties(pos, gt, target);
    if gt != GenTag::Captures {
        let b1a = spec_shift_up(us, not7) & empties;
        let b2a = spec_shift_up(us, b1a & trank3_of(us)) & empties;
        let b1b = if gt == GenTag::Evasions {
            b1a & target
        } else {
            b1a
        };
        let b2b = if gt == GenTag::Evasions {
            b2a & target
        } else {
            b2a
        };
        if gt == GenTag::QuietChecks {
            let ksq = pos.spec_king_square(them);
            let b1c = b1b & spec_pawn_attacks(them, ksq);
            let b2c = b2b & spec_pawn_attacks(them, ksq);
            let dc = pos.spec_discovered_check_candidates();
            if not7 & dc != 0 {
                let dc1 = (spec_shift_up(us, not7 & dc) & empties) & !spec_file_bb(ksq % 8);
                let dc2 = spec_shift_up(us, dc1 & trank3_of(us)) & empties;
                spec_push_moves(b1c | dc1, up_d(us)) + spec_push_moves(b2c | dc2, 2 * up_d(us))
            } else {
                spec_push_moves(b1c, up_d(us)) + spec_push_moves(b2c, 2 * up_d(us))
            }
        } else {
            spec_push_moves(b1b, up_d(us)) + spec_push_moves(b2b, 2 * up_d(us))
        }
    } else {
        Seq::empty()
    }
}

/// The promotions of selector `gt`: capture-left, capture-right and push
/// promotions, each expanded by `spec_promo_group`.
#[verifier::opaque]
pub open spec fn spec_pawn_promos(pos: Position, gt: GenTag, target: u64) -> Seq<Move> {
    let us = pos.side;
    let them = us.spec_flip();
    let on7 = pos.spec_pieces_cp(us, PieceType::Pawn) & trank7_of(us);
    let enemies = spec_pawn_enemies(pos, gt, target);
    if on7 != 0 && (gt != GenTag::Evasions || target & trank8_of(us) != 0) {
        let emp2 = if gt == GenTag::Captures {
            !pos.spec_pieces()
        } else {
            spec_pawn_empties(pos, gt, target)
        };
        let emp3 = if gt == GenTag::Evasions {
            emp2 & target
        } else {
            emp2
        };
        let ksq = pos.spec_king_square(them);
        spec_promos(gt, spec_shift_up_right(us, on7) & enemies, ksq, right_d(us)) + spec_promos(
            gt,
            spec_shift_up_left(us, on7) & enemies,
            ksq,
            left_d(us),
        ) + spec_promos(gt, spec_shift_up(us, on7) & emp3, ksq, up_d(us))
    } else {
        Seq::empty()
    }
}

/// The pawn captures of selector `gt`, en passant last. For evasions the
/// en-passant capture appears only when the captured pawn is the checker.
#[verifier::opaque]
pub open spec fn spec_pawn_caps(pos: Position, gt: GenTag, target: u64) -> Seq<Move> {
    let us = pos.side;
    let them = us.spec_flip();
    let not7 = pos.spec_pieces_cp(us, PieceType::Pawn) & !trank7_of(us);
    let enemies = spec_pawn_enemies(pos, gt, target);
    if gt == GenTag::Captures || gt == GenTag::Evasions || gt == GenTag::NonEvasions {
        let base = spec_push_moves(spec_shift_up_right(us, not7) & enemies, right_d(us))
            + spec_push_moves(spec_shift_up_left(us, not7) & enemies, left_d(us));
        if pos.ep != SQ_NONE {
            let capsq = ((pos.ep - up_d(us)) as u64);
            if gt == GenTag::Evasions && target & sq_bb(capsq) == 0 {
                base
            } else {
                base + spec_ep_moves(not7 & spec_pawn_attacks(them, pos.ep), pos.ep)
            }
        } else {
            base
        }
    } else {
        Seq::empty()
    }
}

/// All pawn moves of selector `gt` against `target`, in generation order:
/// pushes, promotions, captures.
pub open spec fn spec_pawn_moves(pos: Position, gt: GenTag, target: u64) -> Seq<Move> {
    spec_pawn_pushes(pos, gt, target) + spec_pawn_promos(pos, gt, target) + spec_pawn_caps(
        pos,
        gt,
        target,
    )
}

#[verifier::rlimit(100)]
fn gen_pawn_pushes(pos: &Position, gt: GenTag, list: &mut Vec<ExtMove>, target: u64)
    requires
        pos.wf(),
        gt != GenTag::Legal,
    ensures
        moves_of(final(list)@) == moves_of(old(list)@) + spec_pawn_pushes(*pos, gt, target),
        final(list)@.len() == old(list)@.len() + spec_pawn_pushes(*pos, gt, target).len(),
{
    proof {
        reveal(spec_pawn_pushes);
    }
    let us = pos.side_to_move();
    let them = us.flip();
    let trank3: u64 = match us {
        Color::White => RANK3_BB,
        Color::Black => RANK6_BB,
    };
    let dup: i64 = match us {
        Color::White => 8,
        Color::Black => -8,
    };
    let not7 = pos.pieces_cp(us, PieceType::Pawn) & !(match us {
        Color::White => RANK7_BB,
        Color::Black => RANK2_BB,
    });
    let empties: u64 = if gt == GenTag::Quiets || gt == GenTag::QuietChecks {
        target
    } else {
        !pos.pieces()
    };
    if gt != GenTag::Captures {
        let b1a = shift_up(us, not7) & empties;
        let b2a = shift_up(us, b1a & trank3) & empties;
        let b1b = if gt == GenTag::Evasions {
            b1a & target
        } else {
            b1a
        };
        let b2b = if gt == GenTag::Evasions {
            b2a & target
        } else {
            b2a
        };
        if gt == GenTag::QuietChecks {
            let ksq = pos.king_square(them);
            let b1c = b1b & pawn_attacks(them, ksq);
            let b2c = b2b & pawn_attacks(them, ksq);
            let dc = pos.discovered_check_candidates();
            if not7 & dc != 0 {
                let dc1 = (shift_up(us, not7 & dc) & empties) & !file_bb(ksq % 8);
                let dc2 = shift_up(us, dc1 & trank3) & empties;
                proof {
                    lemma_bit_ops();
                    lemma_step_bounds(us, not7);
                    lemma_step_bounds(us, not7 & dc);
                    lemma_double_bounds(us, b1a);
                    lemma_double_bounds(us, dc1);
                }
                emit_pushes(list, b1c | dc1, dup);
                emit_pushes(list, b2c | dc2, 2 * dup);
            } else {
                proof {
                    lemma_bit_ops();
                    lemma_step_bounds(us, not7);
                    lemma_double_bounds(us, b1a);
                }
                emit_pushes(list, b1c, dup);
                emit_pushes(list, b2c, 2 * dup);
            }
        } else {
            proof {
                lemma_bit_ops();
                lemma_step_bounds(us, not7);
                lemma_double_bounds(us, b1a);
            }
            emit_pushes(list, b1b, dup);
            emit_pushes(list, b2b, 2 * dup);
        }
        proof {
            assert(moves_of(list@) =~= moves_of(old(list)@) + spec_pawn_pushes(*pos, gt, target));
        }
    } else {
        proof {
            assert(moves_of(list@) =~= moves_of(old(list)@) + spec_pawn_pushes(*pos, gt, target));
        }
    }
}

#[verifier::rlimit(100)]
fn gen_pawn_promos(pos: &Position, gt: GenTag, list: &mut Vec<ExtMove>, target: u64)
    requires
        pos.wf(),
        gt != GenTag::Legal,
    ensures
        moves_of(final(list)@) == moves_of(old(list)@) + spec_pawn_promos(*pos, gt, target),
        final(list)@.len() == old(list)@.len() + spec_pawn_promos(*pos, gt, target).len(),
{
    proof {
        reveal(spec_pawn_promos);
    }
    let us = pos.side_to_move();
    let them = us.flip();
    let trank8: u64 = match us {
        Color::White => RANK8_BB,
        Color::Black => RANK1_BB,
    };
    let dup: i64 = match us {
        Color::White => 8,
        Color::Black => -8,
    };
    let dright: i64 = match us {
        Color::White => 9,
        Color::Black => -9,
    };
    let dleft: i64 = match us {
        Color::White => 7,
        Color::Black => -7,
    };
    let on7 = pos.pieces_cp(us, PieceType::Pawn) & (match us {
        Color::White => RANK7_BB,
        Color::Black => RANK2_BB,
    });
    let enemies: u64 = if gt == GenTag::Evasions {
        pos.pieces_c(them) & target
    } else if gt == GenTag::Captures {
        target
    } else {
        pos.pieces_c(them)
    };
    if on7 != 0 && (gt != GenTag::Evasions || target & trank8 != 0) {
        let emp2: u64 = if gt == GenTag::Captures {
            !pos.pieces()
        } else if gt == GenTag::Quiets || gt == GenTag::QuietChecks {
            target
        } else {
            !pos.pieces()
        };
        let emp3: u64 = if gt == GenTag::Evasions {
            emp2 & target
        } else {
            emp2
        };
        let ksq = pos.king_square(them);
        proof {
            lemma_bit_ops();
            lemma_step_bounds(us, on7);
        }
        emit_promos(list, gt, shift_up_right(us, on7) & enemies, ksq, dright);
        emit_promos(list, gt, shift_up_left(us, on7) & enemies, ksq, dleft);
        emit_promos(list, gt, shift_up(us, on7) & emp3, ksq, dup);
        proof {
            assert(moves_of(list@) =~= moves_of(old(list)@) + spec_pawn_promos(*pos, gt, target));
        }
    } else {
        proof {
            assert(moves_of(list@) =~= moves_of(old(list)@) + spec_pawn_promos(*pos, gt, target));
        }
    }
}

#[verifier::rlimit(100)]
fn gen_pawn_caps(pos: &Position, gt: GenTag, list: &mut Vec<ExtMove>, target: u64)
    requires
        pos.wf(),
        gt != GenTag::Legal,
    ensures
        moves_of(final(list)@) == moves_of(old(list)@) + spec_pawn_caps(*pos, gt, target),
        final(list)@.len() == old(list)@.len() + spec_pawn_caps(*pos, gt, target).len(),
{
    proof {
        reveal(spec_pawn_caps);
    }
    let us = pos.side_to_move();
    let them = us.flip();
    let dright: i64 = match us {
        Color::White => 9,
        Color::Black => -9,
    };
    let dleft: i64 = match us {
        Color::White => 7,
        Color::Black => -7,
    };
    let not7 = pos.pieces_cp(us, PieceType::Pawn) & !(match us {
        Color::White => RANK7_BB,
        Color::Black => RANK2_BB,
    });
    let enemies: u64 = if gt == GenTag::Evasions {
        pos.pieces_c(them) & target
    } else if gt == GenTag::Captures {
        target
    } else {
        pos.pieces_c(them)
    };
    if gt == GenTag::Captures || gt == GenTag::Evasions || gt == GenTag::NonEvasions {
        proof {
            lemma_bit_ops();
            lemma_step_bounds(us, not7);
        }
        emit_pushes(list, shift_up_right(us, not7) & enemies, dright);
        emit_pushes(list, shift_up_left(us, not7) & enemies, dleft);
        if pos.ep_square() != SQ_NONE {
            let ep = pos.ep_square();
            let capsq: u64 = match us {
                Color::White => ep - 8,
                Color::Black => ep + 8,
            };
            if !(gt == GenTag::Evasions && target & bb_of(capsq) == 0) {
                emit_ep_moves(list, not7 & pawn_attacks(them, ep), ep);
            }
        }
        proof {
            assert(moves_of(list@) =~= moves_of(old(list)@) + spec_pawn_caps(*pos, gt, target));
        }
    } else {
        proof {
            assert(moves_of(list@) =~= moves_of(old(list)@) + spec_pawn_caps(*pos, gt, target));
        }
    }
}

fn generate_pawn_moves(pos: &Position, gt: GenTag, list: &mut Vec<ExtMove>, target: u64)
    requires
        pos.wf(),
        gt != GenTag::Legal,
    ensures
        moves_of(final(list)@) == moves_of(old(list)@) + spec_pawn_moves(*pos, gt, target),
        final(list)@.len() == old(list)@.len() + spec_pawn_moves(*pos, gt, target).len(),
{
    gen_pawn_pushes(pos, gt, list, target);
    gen_pawn_promos(pos, gt, list, target);
    gen_pawn_caps(pos, gt, list, target);
    proof {
        assert(moves_of(list@) =~= moves_of(old(list)@) + spec_pawn_moves(*pos, gt, target));
    }
}

} // verus!

verus! {

/// The moves of one non-pawn, non-king piece standing on `from`: its
/// attack set cut to `target`, and under the quiet-check selector cut to
/// checking squares, skipping pieces that cannot give a direct check and
/// discovered-check candidates (those are produced separately).
#[verifier::opaque]
pub open spec fn spec_piece_from_moves(
    pos: Position,
    pt: PieceType,
    checks: bool,
    from: Square,
    target: u64,
) -> Seq<Move> {
    if checks && (pt == PieceType::Bishop || pt == PieceType::Rook || pt == PieceType::Queen)
        && spec_pseudo_attacks(pt, from) & target & pos.spec_check_squares(pt) == 0 {
        Seq::empty()
    } else if checks && bit(pos.spec_discovered_check_candidates(), from) {
        Seq::empty()
    } else {
        let b0 = spec_attacks_bb(pt, from, pos.spec_pieces()) & target;
        let b = if checks {
            b0 & pos.spec_check_squares(pt)
        } else {
            b0
        };
        spec_target_moves(from, b)
    }
}

/// The moves of all pieces of the side to move of type `pt` whose origins
/// are the set bits of `b`, in rising origin order.
pub open spec fn spec_piece_moves_from(
    pos: Position,
    pt: PieceType,
    checks: bool,
    target: u64,
    b: u64,
) -> Seq<Move>
    decreases b,
    when b >= 0
    via spec_piece_moves_from_decreases
{
    if b == 0 {
        Seq::empty()
    } else {
        let from = vstd::std_specs::bits::u64_trailing_zeros(b) as u64;
        spec_piece_from_moves(pos, pt, checks, from, target) + spec_piece_moves_from(
            pos,
            pt,
            checks,
            target,
            b & ((b - 1) as u64),
        )
    }
}

#[via_fn]
proof fn spec_piece_moves_from_decreases(
    pos: Position,
    pt: PieceType,
    checks: bool,
    target: u64,
    b: u64,
) {
    assert(b != 0 ==> b & ((b - 1) as u64) < b) by (bit_vector);
}

/// The moves of the side to move's pieces of type `pt`.
pub open spec fn spec_piece_moves(pos: Position, pt: PieceType, checks: bool, target: u64) -> Seq<
    Move,
> {
    spec_piece_moves_from(pos, pt, checks, target, pos.spec_pieces_cp(pos.side, pt))
}

fn generate_moves(
    pos: &Position,
    pt: PieceType,
    checks: bool,
    list: &mut Vec<ExtMove>,
    target: u64,
    b: u64,
)
    requires
        pos.wf(),
    ensures
        moves_of(final(list)@) == moves_of(old(list)@) + spec_piece_moves_from(
            *pos,
            pt,
            checks,
            target,
            b,
        ),
        final(list)@.len() == old(list)@.len() + spec_piece_moves_from(
            *pos,
            pt,
            checks,
            target,
            b,
        ).len(),
    decreases b,
{
    if b == 0 {
        proof {
            assert(moves_of(list@) =~= moves_of(old(list)@) + spec_piece_moves_from(
                *pos,
                pt,
                checks,
                target,
                b,
            ));
        }
    } else {
        let from = lsb(b);
        proof {
            reveal(spec_piece_from_moves);
            lemma_clear_lsb(b);
            lemma_test_bit();
        }
        let skip: bool = if checks {
            ((pt == PieceType::Bishop || pt == PieceType::Rook || pt == PieceType::Queen)
                && crate::bitboard::pseudo_attacks(pt, from) & target & pos.check_squares(pt) == 0)
                || pos.discovered_check_candidates() & bb_of(from) != 0
        } else {
            false
        };
        if !skip {
            let b0 = crate::bitboard::attacks_bb(pt, from, pos.pieces()) & target;
            let bt = if checks {
                b0 & pos.check_squares(pt)
            } else {
                b0
            };
            emit_targets(list, from, bt);
        }
        generate_moves(pos, pt, checks, list, target, b & (b - 1));
        proof {
            assert(moves_of(list@) =~= moves_of(old(list)@) + spec_piece_moves_from(
                *pos,
                pt,
                checks,
                target,
                b,
            ));
        }
    }
}

/// The attack walk of the castling king: true iff some square the king
/// crosses, its start square excluded, its destination counted, is
/// attacked by an enemy piece, or the walk leaves the board.
pub open spec fn spec_castle_walk(
    pos: Position,
    s: int,
    kfrom: u64,
    dir: int,
    enemies: u64,
    fuel: nat,
) -> bool
    decreases fuel,
{
    if s < 0 || s >= 64 {
        true
    } else if s == kfrom {
        false
    } else if pos.spec_attackers_to(s as u64) & enemies != 0 {
        true
    } else if fuel == 0 {
        true
    } else {
        spec_castle_walk(pos, s + dir, kfrom, dir, enemies, (fuel - 1) as nat)
    }
}

fn castle_walk(pos: &Position, s: i64, kfrom: u64, dir: i64, enemies: u64, fuel: u64) -> (r: bool)
    requires
        pos.wf(),
        -1 <= dir <= 1,
        -64 <= s <= 127,
        fuel <= 8,
    ensures
        r == spec_castle_walk(*pos, s as int, kfrom, dir as int, enemies, fuel as nat),
    decreases fuel,
{
    if s < 0 || s >= 64 {
        true
    } else if s as u64 == kfrom {
        false
    } else if pos.attackers_to(s as u64) & enemies != 0 {
        true
    } else if fuel == 0 {
        true
    } else {
        castle_walk(pos, s + dir, kfrom, dir, enemies, fuel - 1)
    }
}

/// The castling move of right `cr` under selector `gt`: present iff the
/// right is held, no piece and no enemy attack bars the way, in the 960
/// variant moving the rook uncovers no rook-line check, and under the
/// quiet-check selector the move gives check.
#[verifier::opaque]
pub open spec fn spec_castle_moves(pos: Position, gt: GenTag, cr: u8) -> Seq<Move> {
    let us = Position::spec_cr_color(cr);
    let them = us.spec_flip();
    if pos.castle & cr == 0 || pos.spec_castling_path(cr) & pos.spec_pieces() != 0 {
        Seq::empty()
    } else {
        let kfrom = pos.spec_king_square(us);
        let rfrom = pos.spec_castling_rook_square(cr);
        let king_side = cr == WHITE_OO || cr == BLACK_OO;
        let kto = spec_relative_square(
            us,
            if king_side {
                6u64
            } else {
                2u64
            },
        );
        let dir: int = if pos.chess960 {
            if kto > kfrom {
                -1
            } else {
                1
            }
        } else {
            if king_side {
                -1
            } else {
                1
            }
        };
        if spec_castle_walk(pos, kto as int, kfrom, dir, pos.spec_pieces_c(them), 8) {
            Seq::empty()
        } else if pos.chess960 && spec_rook_attacks(kto, pos.spec_pieces() ^ sq_bb(rfrom)) & (
        pos.spec_pieces_cp(them, PieceType::Rook) | pos.spec_pieces_cp(them, PieceType::Queen))
            != 0 {
            Seq::empty()
        } else {
            let m = spec_move_make_special(CASTLING, kfrom, rfrom);
            if gt == GenTag::QuietChecks && !pos.spec_gives_check(m) {
                Seq::empty()
            } else {
                seq![m]
            }
        }
    }
}

fn generate_castling(pos: &Position, gt: GenTag, cr: u8, list: &mut Vec<ExtMove>)
    requires
        pos.wf(),
        cr == WHITE_OO || cr == WHITE_OOO || cr == BLACK_OO || cr == BLACK_OOO,
        Position::spec_cr_color(cr) == pos.side,
    ensures
        moves_of(final(list)@) == moves_of(old(list)@) + spec_castle_moves(*pos, gt, cr),
        final(list)@.len() == old(list)@.len() + spec_castle_moves(*pos, gt, cr).len(),
{
    proof {
        reveal(spec_castle_moves);
    }
    let us = pos.side_to_move();
    let them = us.flip();
    if !pos.has_castling_right(cr) || pos.castling_impeded(cr) {
        proof {
            assert(moves_of(list@) =~= moves_of(old(list)@) + spec_castle_moves(*pos, gt, cr));
        }
        return ;
    }
    let kfrom = pos.king_square(us);
    let rfrom = pos.castling_rook_square(cr);
    let king_side = cr == WHITE_OO || cr == BLACK_OO;
    let kto = crate::types::relative_square(
        us,
        if king_side {
            6
        } else {
            2
        },
    );
    let dir: i64 = if pos.is_chess960() {
        if kto > kfrom {
            -1
        } else {
            1
        }
    } else {
        if king_side {
            -1
        } else {
            1
        }
    };
    if castle_walk(pos, kto as i64, kfrom, dir, pos.pieces_c(them), 8) {
        proof {
            assert(moves_of(list@) =~= moves_of(old(list)@) + spec_castle_moves(*pos, gt, cr));
        }
        return ;
    }
    if pos.is_chess960() && crate::bitboard::rook_attacks(kto, pos.pieces() ^ bb_of(rfrom)) & (
    pos.pieces_cp(them, PieceType::Rook) | pos.pieces_cp(them, PieceType::Queen)) != 0 {
        proof {
            assert(moves_of(list@) =~= moves_of(old(list)@) + spec_castle_moves(*pos, gt, cr));
        }
        return ;
    }
    let m = move_make_special(CASTLING, kfrom, rfrom);
    if gt == GenTag::QuietChecks && !pos.gives_check(m) {
        proof {
            assert(moves_of(list@) =~= moves_of(old(list)@) + spec_castle_moves(*pos, gt, cr));
        }
        return ;
    }
    push_move(list, m);
    proof {
        assert(moves_of(list@) =~= moves_of(old(list)@) + spec_castle_moves(*pos, gt, cr));
    }
}

/// Everything `generate_all` writes for selector `gt` against `target`:
/// pawn moves, the pieces from knight to queen in rising origin order,
/// king moves for the selectors that take them here, and castling.
#[verifier::opaque]
pub open spec fn spec_generate_all(pos: Position, gt: GenTag, target: u64) -> Seq<Move> {
    let us = pos.side;
    let checks = gt == GenTag::QuietChecks;
    let ksq = pos.spec_king_square(us);
    spec_pawn_moves(pos, gt, target) + spec_piece_moves(pos, PieceType::Knight, checks, target)
        + spec_piece_moves(pos, PieceType::Bishop, checks, target) + spec_piece_moves(
        pos,
        PieceType::Rook,
        checks,
        target,
    ) + spec_piece_moves(pos, PieceType::Queen, checks, target) + (if gt != GenTag::QuietChecks
        && gt != GenTag::Evasions {
        spec_target_moves(ksq, spec_king_attacks(ksq) & target)
    } else {
        Seq::empty()
    }) + (if gt != GenTag::Captures && gt != GenTag::Evasions && pos.spec_castling_rights(us) != 0 {
        spec_castle_moves(
            pos,
            gt,
            if us == Color::White {
                WHITE_OO
            } else {
                BLACK_OO
            },
        ) + spec_castle_moves(
            pos,
            gt,
            if us == Color::White {
                WHITE_OOO
            } else {
                BLACK_OOO
            },
        )
    } else {
        Seq::empty()
    })
}

#[verifier::rlimit(100)]
fn generate_all(pos: &Position, gt: GenTag, list: &mut Vec<ExtMove>, target: u64)
    requires
        pos.wf(),
        gt != GenTag::Legal,
    ensures
        moves_of(final(list)@) == moves_of(old(list)@) + spec_generate_all(*pos, gt, target),
        final(list)@.len() == old(list)@.len() + spec_generate_all(*pos, gt, target).len(),
{
    let us = pos.side_to_move();
    let checks = gt == GenTag::QuietChecks;
    generate_pawn_moves(pos, gt, list, target);
    generate_moves(pos, PieceType::Knight, checks, list, target, pos.pieces_cp(us, PieceType::Knight));
    generate_moves(pos, PieceType::Bishop, checks, list, target, pos.pieces_cp(us, PieceType::Bishop));
    generate_moves(pos, PieceType::Rook, checks, list, target, pos.pieces_cp(us, PieceType::Rook));
    generate_moves(pos, PieceType::Queen, checks, list, target, pos.pieces_cp(us, PieceType::Queen));
    if gt != GenTag::QuietChecks && gt != GenTag::Evasions {
        let ksq = pos.king_square(us);
        emit_targets(list, ksq, crate::bitboard::king_attacks(ksq) & target);
    }
    if gt != GenTag::Captures && gt != GenTag::Evasions && pos.can_castle(us) {
        generate_castling(
            pos,
            gt,
            match us {
                Color::White => WHITE_OO,
                Color::Black => BLACK_OO,
            },
            list,
        );
        generate_castling(
            pos,
            gt,
            match us {
                Color::White => WHITE_OOO,
                Color::Black => BLACK_OOO,
            },
            list,
        );
    }
    proof {
        reveal(spec_generate_all);
        let a = spec_pawn_moves(*pos, gt, target);
        let b = spec_piece_moves(*pos, PieceType::Knight, checks, target);
        let c = spec_piece_moves(*pos, PieceType::Bishop, checks, target);
        let d = spec_piece_moves(*pos, PieceType::Rook, checks, target);
        let e = spec_piece_moves(*pos, PieceType::Queen, checks, target);
        let ksq = pos.spec_king_square(us);
        let q = if gt != GenTag::QuietChecks && gt != GenTag::Evasions {
            spec_target_moves(ksq, spec_king_attacks(ksq) & target)
        } else {
            Seq::<Move>::empty()
        };
        let g = if gt != GenTag::Captures && gt != GenTag::Evasions && pos.spec_castling_rights(us)
            != 0 {
            spec_castle_moves(
                *pos,
                gt,
                if us == Color::White {
                    WHITE_OO
                } else {
                    BLACK_OO
                },
            ) + spec_castle_moves(
                *pos,
                gt,
                if us == Color::White {
                    WHITE_OOO
                } else {
                    BLACK_OOO
                },
            )
        } else {
            Seq::<Move>::empty()
        };
        assert(spec_generate_all(*pos, gt, target) == a + b + c + d + e + q + g);
        assert(moves_of(list@) =~= moves_of(old(list)@) + (a + b + c + d + e + q + g));
    }
}

} // verus!

verus! {

/// The squares covered by the checking sliders' lines through the king,
/// the checkers' own squares excluded: the king may not step there.
pub open spec fn spec_slider_rays(pos: Position, b: u64, ksq: Square) -> u64
    decreases b,
    when b >= 0
    via spec_slider_rays_decreases
{
    if b == 0 {
        0u64
    } else {
        let t = vstd::std_specs::bits::u64_trailing_zeros(b) as u64;
        (spec_line_bb(t, ksq) ^ sq_bb(t)) | spec_slider_rays(pos, b & ((b - 1) as u64), ksq)
    }
}

#[via_fn]
proof fn spec_slider_rays_decreases(pos: Position, b: u64, ksq: Square) {
    assert(b != 0 ==> b & ((b - 1) as u64) < b) by (bit_vector);
}

fn slider_rays(pos: &Position, b: u64, ksq: Square) -> (r: u64)
    requires
        ksq < 64,
    ensures
        r == spec_slider_rays(*pos, b, ksq),
    decreases b,
{
    if b == 0 {
        0
    } else {
        let t = lsb(b);
        proof {
            lemma_clear_lsb(b);
        }
        (crate::bitboard::line_bb(t, ksq) ^ bb_of(t)) | slider_rays(pos, b & (b - 1), ksq)
    }
}

/// The check evasions: king steps off the checkers' lines, and against a
/// single checker also captures of it and interpositions.
pub open spec fn spec_evasions(pos: Position) -> Seq<Move> {
    let us = pos.side;
    let ksq = pos.spec_king_square(us);
    let sliders = pos.spec_checkers() & !(pos.spec_pieces_p(PieceType::Knight)
        | pos.spec_pieces_p(PieceType::Pawn));
    let slider_attacks = spec_slider_rays(pos, sliders, ksq);
    let b = (spec_king_attacks(ksq) & !pos.spec_pieces_c(us)) & !slider_attacks;
    let km = spec_target_moves(ksq, b);
    if bits(pos.spec_checkers()).len() >= 2 {
        km
    } else {
        let cs = vstd::std_specs::bits::u64_trailing_zeros(pos.spec_checkers()) as u64;
        km + spec_generate_all(pos, GenTag::Evasions, spec_between_bb(cs, ksq) | sq_bb(cs))
    }
}

fn generate_evasions(pos: &Position, list: &mut Vec<ExtMove>)
    requires
        pos.wf(),
        pos.spec_checkers() != 0,
    ensures
        moves_of(final(list)@) == moves_of(old(list)@) + spec_evasions(*pos),
        final(list)@.len() == old(list)@.len() + spec_evasions(*pos).len(),
{
    let us = pos.side_to_move();
    let ksq = pos.king_square(us);
    let checkers = pos.checkers();
    let sliders = checkers & !pos.pieces_pp(PieceType::Knight, PieceType::Pawn);
    let slider_attacks = slider_rays(pos, sliders, ksq);
    let b = (crate::bitboard::king_attacks(ksq) & !pos.pieces_c(us)) & !slider_attacks;
    emit_targets(list, ksq, b);
    if crate::bits::more_than_one(checkers) {
        proof {
            assert(moves_of(list@) =~= moves_of(old(list)@) + spec_evasions(*pos));
        }
        return ;
    }
    let check_sq = lsb(checkers);
    let target = crate::bitboard::between_bb(check_sq, ksq) | bb_of(check_sq);
    generate_all(pos, GenTag::Evasions, list, target);
    proof {
        assert(moves_of(list@) =~= moves_of(old(list)@) + spec_evasions(*pos));
    }
}

/// The quiet moves of the discovered-check candidates: any step into an
/// empty square uncovers the check; the king avoids squares still covering
/// the enemy king's queen lines.
pub open spec fn spec_dc_moves(pos: Position, b: u64) -> Seq<Move>
    decreases b,
    when b >= 0
    via spec_dc_moves_decreases
{
    if b == 0 {
        Seq::empty()
    } else {
        let from = vstd::std_specs::bits::u64_trailing_zeros(b) as u64;
        let rest = spec_dc_moves(pos, b & ((b - 1) as u64));
        match pos.spec_piece_type_on(from) {
            Some(pt) => {
                if pt == PieceType::Pawn {
                    rest
                } else if pt == PieceType::King {
                    spec_target_moves(
                        from,
                        (spec_attacks_bb(pt, from, pos.spec_pieces()) & !pos.spec_pieces())
                            & !spec_pseudo_attacks(
                            PieceType::Queen,
                            pos.spec_king_square(pos.side.spec_flip()),
                        ),
                    ) + rest
                } else {
                    spec_target_moves(
                        from,
                        spec_attacks_bb(pt, from, pos.spec_pieces()) & !pos.spec_pieces(),
                    ) + rest
                }
            },
            None => rest,
        }
    }
}

#[via_fn]
proof fn spec_dc_moves_decreases(pos: Position, b: u64) {
    assert(b != 0 ==> b & ((b - 1) as u64) < b) by (bit_vector);
}

fn gen_dc_moves(pos: &Position, b: u64, list: &mut Vec<ExtMove>)
    requires
        pos.wf(),
    ensures
        moves_of(final(list)@) == moves_of(old(list)@) + spec_dc_moves(*pos, b),
        final(list)@.len() == old(list)@.len() + spec_dc_moves(*pos, b).len(),
    decreases b,
{
    if b == 0 {
        proof {
            assert(moves_of(list@) =~= moves_of(old(list)@) + spec_dc_moves(*pos, b));
        }
    } else {
        let from = lsb(b);
        proof {
            lemma_clear_lsb(b);
        }
        match pos.piece_type_on(from) {
            Some(pt) => {
                if pt != PieceType::Pawn {
                    let b0 = crate::bitboard::attacks_bb(pt, from, pos.pieces()) & !pos.pieces();
                    let bt = if pt == PieceType::King {
                        b0 & !crate::bitboard::pseudo_attacks(
                            PieceType::Queen,
                            pos.king_square(pos.side_to_move().flip()),
                        )
                    } else {
                        b0
                    };
                    emit_targets(list, from, bt);
                }
            },
            None => {},
        }
        gen_dc_moves(pos, b & (b - 1), list);
        proof {
            assert(moves_of(list@) =~= moves_of(old(list)@) + spec_dc_moves(*pos, b));
        }
    }
}

/// All pseudo-legal non-captures that give check, knight under-promotions
/// that check counted: first the discovered-check candidates' quiet moves,
/// and the direct quiet checks of the main pipeline after them.
pub open spec fn spec_quiet_checks(pos: Position) -> Seq<Move> {
    spec_dc_moves(pos, pos.spec_discovered_check_candidates()) + spec_generate_all(
        pos,
        GenTag::QuietChecks,
        !pos.spec_pieces(),
    )
}

/// Writes all pseudo-legal non-captures giving check after `list`'s
/// entries and returns the new number of moves held.
pub fn generate_quiet_checks(pos: &Position, list: &mut Vec<ExtMove>) -> (n: usize)
    requires
        pos.wf(),
        pos.spec_checkers() == 0,
    ensures
        moves_of(final(list)@) == moves_of(old(list)@) + spec_quiet_checks(*pos),
        n == final(list)@.len(),
{
    gen_dc_moves(pos, pos.discovered_check_candidates(), list);
    generate_all(pos, GenTag::QuietChecks, list, !pos.pieces());
    proof {
        assert(moves_of(list@) =~= moves_of(old(list)@) + spec_quiet_checks(*pos));
    }
    list.len()
}

} // verus!

verus! {

/// What holds of every generated move: an en-passant move goes to the
/// recorded en-passant square, and a promotion happens only when the side
/// to move has a pawn on its seventh rank.
pub open spec fn ep_ok(pos: Position, m: Move) -> bool {
    &&& (spec_move_type(m) == ENPASSANT ==> (pos.ep != SQ_NONE && pos.ep < 64 && spec_move_to(m)
        == pos.ep))
    &&& (spec_move_type(m) == PROMOTION ==> pos.spec_pieces_cp(pos.side, PieceType::Pawn)
        & trank7_of(pos.side) != 0)
}

pub open spec fn all_ep_ok(pos: Position, s: Seq<Move>) -> bool {
    forall|k: int| 0 <= k < s.len() ==> ep_ok(pos, #[trigger] s[k])
}

proof fn lemma_ep_concat(pos: Position, a: Seq<Move>, b: Seq<Move>)
    requires
        all_ep_ok(pos, a),
        all_ep_ok(pos, b),
    ensures
        all_ep_ok(pos, a + b),
{
    assert forall|k: int| 0 <= k < (a + b).len() implies ep_ok(pos, (a + b)[k]) by {
        if k < a.len() {
            assert((a + b)[k] == a[k]);
        } else {
            assert((a + b)[k] == b[k - a.len()]);
        }
    }
}

proof fn lemma_push_ep_ok(pos: Position, b: u64, d: int)
    requires
        forall|i: u64| bit(b, i) ==> 0 <= i - d < 64,
    ensures
        all_ep_ok(pos, spec_push_moves(b, d)),
    decreases b,
{
    if b != 0 {
        let t = vstd::std_specs::bits::u64_trailing_zeros(b) as u64;
        vstd::std_specs::bits::axiom_u64_trailing_zeros(b);
        assert(bit(b, t));
        lemma_clear_lsb(b);
        lemma_push_ep_ok(pos, b & ((b - 1) as u64), d);
        crate::types::lemma_move_encoding(((t - d) as u64), t, 0, PieceType::Queen);
        lemma_ep_concat(
            pos,
            seq![spec_move_make(((t - d) as u64), t)],
            spec_push_moves(b & ((b - 1) as u64), d),
        );
    }
}

proof fn lemma_targets_ep_ok(pos: Position, from: Square, b: u64)
    requires
        from < 64,
    ensures
        all_ep_ok(pos, spec_target_moves(from, b)),
    decreases b,
{
    if b != 0 {
        let t = vstd::std_specs::bits::u64_trailing_zeros(b) as u64;
        vstd::std_specs::bits::axiom_u64_trailing_zeros(b);
        lemma_clear_lsb(b);
        lemma_targets_ep_ok(pos, from, b & ((b - 1) as u64));
        crate::types::lemma_move_encoding(from, t, 0, PieceType::Queen);
        lemma_ep_concat(
            pos,
            seq![spec_move_make(from, t)],
            spec_target_moves(from, b & ((b - 1) as u64)),
        );
    }
}

proof fn lemma_promos_ep_ok(pos: Position, gt: GenTag, b: u64, ksq: Square, d: int)
    requires
        forall|i: u64| bit(b, i) ==> 0 <= i - d < 64,
        pos.spec_pieces_cp(pos.side, PieceType::Pawn) & trank7_of(pos.side) != 0,
    ensures
        all_ep_ok(pos, spec_promos(gt, b, ksq, d)),
    decreases b,
{
    if b != 0 {
        let t = vstd::std_specs::bits::u64_trailing_zeros(b) as u64;
        vstd::std_specs::bits::axiom_u64_trailing_zeros(b);
        assert(bit(b, t));
        lemma_clear_lsb(b);
        lemma_promos_ep_ok(pos, gt, b & ((b - 1) as u64), ksq, d);
        let from = ((t - d) as u64);
        crate::types::lemma_move_encoding(from, t, 0, PieceType::Queen);
        crate::types::lemma_move_encoding(from, t, 0, PieceType::Rook);
        crate::types::lemma_move_encoding(from, t, 0, PieceType::Bishop);
        crate::types::lemma_move_encoding(from, t, 0, PieceType::Knight);
        assert(all_ep_ok(pos, spec_promo_group(gt, t, ksq, d)));
        lemma_ep_concat(
            pos,
            spec_promo_group(gt, t, ksq, d),
            spec_promos(gt, b & ((b - 1) as u64), ksq, d),
        );
    }
}

proof fn lemma_ep_moves_ep_ok(pos: Position, b: u64)
    requires
        pos.ep != SQ_NONE,
        pos.ep < 64,
    ensures
        all_ep_ok(pos, spec_ep_moves(b, pos.ep)),
    decreases b,
{
    if b != 0 {
        let t = vstd::std_specs::bits::u64_trailing_zeros(b) as u64;
        vstd::std_specs::bits::axiom_u64_trailing_zeros(b);
        lemma_clear_lsb(b);
        lemma_ep_moves_ep_ok(pos, b & ((b - 1) as u64));
        crate::types::lemma_move_encoding(t, pos.ep, ENPASSANT, PieceType::Queen);
        lemma_ep_concat(
            pos,
            seq![spec_move_make_special(ENPASSANT, t, pos.ep)],
            spec_ep_moves(b & ((b - 1) as u64), pos.ep),
        );
    }
}

proof fn lemma_pawn_ep_ok(pos: Position, gt: GenTag, target: u64)
    requires
        pos.wf(),
        gt != GenTag::Legal,
    ensures
        all_ep_ok(pos, spec_pawn_moves(pos, gt, target)),
{
    let us = pos.side;
    let them = us.spec_flip();
    let not7 = pos.spec_pieces_cp(us, PieceType::Pawn) & !trank7_of(us);
    let on7 = pos.spec_pieces_cp(us, PieceType::Pawn) & trank7_of(us);
    lemma_bit_ops();
    lemma_step_bounds(us, not7);
    lemma_step_bounds(us, on7);
    reveal(spec_pawn_pushes);
    reveal(spec_pawn_promos);
    reveal(spec_pawn_caps);
    // Pushes.
    let empties = spec_pawn_empties(pos, gt, target);
    let b1a = spec_shift_up(us, not7) & empties;
    lemma_double_bounds(us, b1a);
    if gt == GenTag::QuietChecks {
        let ksq = pos.spec_king_square(them);
        let dc = pos.spec_discovered_check_candidates();
        lemma_step_bounds(us, not7 & dc);
        let dc1 = (spec_shift_up(us, not7 & dc) & empties) & !spec_file_bb(ksq % 8);
        lemma_double_bounds(us, dc1);
    }
    assert(all_ep_ok(pos, spec_pawn_pushes(pos, gt, target))) by {
        if gt != GenTag::Captures {
            let b2a = spec_shift_up(us, b1a & trank3_of(us)) & empties;
            let b1b = if gt == GenTag::Evasions { b1a & target } else { b1a };
            let b2b = if gt == GenTag::Evasions { b2a & target } else { b2a };
            if gt == GenTag::QuietChecks {
                let ksq = pos.spec_king_square(them);
                let b1c = b1b & spec_pawn_attacks(them, ksq);
                let b2c = b2b & spec_pawn_attacks(them, ksq);
                let dc = pos.spec_discovered_check_candidates();
                if not7 & dc != 0 {
                    let dc1 = (spec_shift_up(us, not7 & dc) & empties) & !spec_file_bb(ksq % 8);
                    let dc2 = spec_shift_up(us, dc1 & trank3_of(us)) & empties;
                    lemma_push_ep_ok(pos, b1c | dc1, up_d(us));
                    lemma_push_ep_ok(pos, b2c | dc2, 2 * up_d(us));
                    lemma_ep_concat(
                        pos,
                        spec_push_moves(b1c | dc1, up_d(us)),
                        spec_push_moves(b2c | dc2, 2 * up_d(us)),
                    );
                } else {
                    lemma_push_ep_ok(pos, b1c, up_d(us));
                    lemma_push_ep_ok(pos, b2c, 2 * up_d(us));
                    lemma_ep_concat(
                        pos,
                        spec_push_moves(b1c, up_d(us)),
                        spec_push_moves(b2c, 2 * up_d(us)),
                    );
                }
            } else {
                lemma_push_ep_ok(pos, b1b, up_d(us));
                lemma_push_ep_ok(pos, b2b, 2 * up_d(us));
                lemma_ep_concat(
                    pos,
                    spec_push_moves(b1b, up_d(us)),
                    spec_push_moves(b2b, 2 * up_d(us)),
                );
            }
        }
    }
    // Promotions.
    assert(all_ep_ok(pos, spec_pawn_promos(pos, gt, target))) by {
        let enemies = spec_pawn_enemies(pos, gt, target);
        if on7 != 0 && (gt != GenTag::Evasions || target & trank8_of(us) != 0) {
            let emp2 = if gt == GenTag::Captures {
                !pos.spec_pieces()
            } else {
                spec_pawn_empties(pos, gt, target)
            };
            let emp3 = if gt == GenTag::Evasions { emp2 & target } else { emp2 };
            let ksq = pos.spec_king_square(them);
            lemma_promos_ep_ok(pos, gt, spec_shift_up_right(us, on7) & enemies, ksq, right_d(us));
            lemma_promos_ep_ok(pos, gt, spec_shift_up_left(us, on7) & enemies, ksq, left_d(us));
            lemma_promos_ep_ok(pos, gt, spec_shift_up(us, on7) & emp3, ksq, up_d(us));
            lemma_ep_concat(
                pos,
                spec_promos(gt, spec_shift_up_right(us, on7) & enemies, ksq, right_d(us)),
                spec_promos(gt, spec_shift_up_left(us, on7) & enemies, ksq, left_d(us)),
            );
            lemma_ep_concat(
                pos,
                spec_promos(gt, spec_shift_up_right(us, on7) & enemies, ksq, right_d(us))
                    + spec_promos(gt, spec_shift_up_left(us, on7) & enemies, ksq, left_d(us)),
                spec_promos(gt, spec_shift_up(us, on7) & emp3, ksq, up_d(us)),
            );
        }
    }
    // Captures.
    assert(all_ep_ok(pos, spec_pawn_caps(pos, gt, target))) by {
        let enemies = spec_pawn_enemies(pos, gt, target);
        if gt == GenTag::Captures || gt == GenTag::Evasions || gt == GenTag::NonEvasions {
            lemma_push_ep_ok(pos, spec_shift_up_right(us, not7) & enemies, right_d(us));
            lemma_push_ep_ok(pos, spec_shift_up_left(us, not7) & enemies, left_d(us));
            lemma_ep_concat(
                pos,
                spec_push_moves(spec_shift_up_right(us, not7) & enemies, right_d(us)),
                spec_push_moves(spec_shift_up_left(us, not7) & enemies, left_d(us)),
            );
            if pos.ep != SQ_NONE {
                lemma_ep_moves_ep_ok(pos, not7 & spec_pawn_attacks(them, pos.ep));
                lemma_ep_concat(
                    pos,
                    spec_push_moves(spec_shift_up_right(us, not7) & enemies, right_d(us))
                        + spec_push_moves(spec_shift_up_left(us, not7) & enemies, left_d(us)),
                    spec_ep_moves(not7 & spec_pawn_attacks(them, pos.ep), pos.ep),
                );
            }
        }
    }
    lemma_ep_concat(pos, spec_pawn_pushes(pos, gt, target), spec_pawn_promos(pos, gt, target));
    lemma_ep_concat(
        pos,
        spec_pawn_pushes(pos, gt, target) + spec_pawn_promos(pos, gt, target),
        spec_pawn_caps(pos, gt, target),
    );
}

proof fn lemma_piece_ep_ok(pos: Position, pt: PieceType, checks: bool, target: u64, b: u64)
    ensures
        all_ep_ok(pos, spec_piece_moves_from(pos, pt, checks, target, b)),
    decreases b,
{
    if b != 0 {
        let from = vstd::std_specs::bits::u64_trailing_zeros(b) as u64;
        vstd::std_specs::bits::axiom_u64_trailing_zeros(b);
        lemma_clear_lsb(b);
        lemma_piece_ep_ok(pos, pt, checks, target, b & ((b - 1) as u64));
        reveal(spec_piece_from_moves);
        lemma_targets_ep_ok(pos, from, spec_attacks_bb(pt, from, pos.spec_pieces()) & target);
        lemma_targets_ep_ok(
            pos,
            from,
            (spec_attacks_bb(pt, from, pos.spec_pieces()) & target) & pos.spec_check_squares(pt),
        );
        lemma_ep_concat(
            pos,
            spec_piece_from_moves(pos, pt, checks, from, target),
            spec_piece_moves_from(pos, pt, checks, target, b & ((b - 1) as u64)),
        );
    }
}

proof fn lemma_castle_ep_ok(pos: Position, gt: GenTag, cr: u8)
    requires
        pos.wf(),
        cr == WHITE_OO || cr == WHITE_OOO || cr == BLACK_OO || cr == BLACK_OOO,
    ensures
        all_ep_ok(pos, spec_castle_moves(pos, gt, cr)),
{
    reveal(spec_castle_moves);
    let us = Position::spec_cr_color(cr);
    if pos.castle & cr != 0 {
        let kfrom = pos.spec_king_square(us);
        let rfrom = pos.spec_castling_rook_square(cr);
        vstd::std_specs::bits::axiom_u64_trailing_zeros(pos.spec_pieces_cp(us, PieceType::King));
        assert(kfrom < 64);
        assert(rfrom < 64);
        crate::types::lemma_move_encoding(kfrom, rfrom, CASTLING, PieceType::Queen);
    }
}

proof fn lemma_gen_all_ep_ok(pos: Position, gt: GenTag, target: u64)
    requires
        pos.wf(),
        gt != GenTag::Legal,
    ensures
        all_ep_ok(pos, spec_generate_all(pos, gt, target)),
{
    reveal(spec_generate_all);
    let us = pos.side;
    let checks = gt == GenTag::QuietChecks;
    let ksq = pos.spec_king_square(us);
    vstd::std_specs::bits::axiom_u64_trailing_zeros(pos.spec_pieces_cp(us, PieceType::King));
    lemma_pawn_ep_ok(pos, gt, target);
    lemma_piece_ep_ok(pos, PieceType::Knight, checks, target, pos.spec_pieces_cp(us, PieceType::Knight));
    lemma_piece_ep_ok(pos, PieceType::Bishop, checks, target, pos.spec_pieces_cp(us, PieceType::Bishop));
    lemma_piece_ep_ok(pos, PieceType::Rook, checks, target, pos.spec_pieces_cp(us, PieceType::Rook));
    lemma_piece_ep_ok(pos, PieceType::Queen, checks, target, pos.spec_pieces_cp(us, PieceType::Queen));
    lemma_targets_ep_ok(pos, ksq, spec_king_attacks(ksq) & target);
    let a = spec_pawn_moves(pos, gt, target);
    let b = spec_piece_moves(pos, PieceType::Knight, checks, target);
    let c = spec_piece_moves(pos, PieceType::Bishop, checks, target);
    let d = spec_piece_moves(pos, PieceType::Rook, checks, target);
    let e = spec_piece_moves(pos, PieceType::Queen, checks, target);
    let q = if gt != GenTag::QuietChecks && gt != GenTag::Evasions {
        spec_target_moves(ksq, spec_king_attacks(ksq) & target)
    } else {
        Seq::<Move>::empty()
    };
    let g = if gt != GenTag::Captures && gt != GenTag::Evasions && pos.spec_castling_rights(us)
        != 0 {
        spec_castle_moves(
            pos,
            gt,
            if us == Color::White {
                WHITE_OO
            } else {
                BLACK_OO
            },
        ) + spec_castle_moves(
            pos,
            gt,
            if us == Color::White {
                WHITE_OOO
            } else {
                BLACK_OOO
            },
        )
    } else {
        Seq::<Move>::empty()
    };
    if gt != GenTag::Captures && gt != GenTag::Evasions && pos.spec_castling_rights(us) != 0 {
        if us == Color::White {
            lemma_castle_ep_ok(pos, gt, WHITE_OO);
            lemma_castle_ep_ok(pos, gt, WHITE_OOO);
            lemma_ep_concat(
                pos,
                spec_castle_moves(pos, gt, WHITE_OO),
                spec_castle_moves(pos, gt, WHITE_OOO),
            );
        } else {
            lemma_castle_ep_ok(pos, gt, BLACK_OO);
            lemma_castle_ep_ok(pos, gt, BLACK_OOO);
            lemma_ep_concat(
                pos,
                spec_castle_moves(pos, gt, BLACK_OO),
                spec_castle_moves(pos, gt, BLACK_OOO),
            );
        }
    }
    lemma_ep_concat(pos, a, b);
    lemma_ep_concat(pos, a + b, c);
    lemma_ep_concat(pos, a + b + c, d);
    lemma_ep_concat(pos, a + b + c + d, e);
    lemma_ep_concat(pos, a + b + c + d + e, q);
    lemma_ep_concat(pos, a + b + c + d + e + q, g);
}

proof fn lemma_evasions_ep_ok(pos: Position)
    requires
        pos.wf(),
        pos.spec_checkers() != 0,
    ensures
        all_ep_ok(pos, spec_evasions(pos)),
{
    let us = pos.side;
    let ksq = pos.spec_king_square(us);
    vstd::std_specs::bits::axiom_u64_trailing_zeros(pos.spec_pieces_cp(us, PieceType::King));
    let sliders = pos.spec_checkers() & !(pos.spec_pieces_p(PieceType::Knight)
        | pos.spec_pieces_p(PieceType::Pawn));
    let slider_attacks = spec_slider_rays(pos, sliders, ksq);
    let b = (spec_king_attacks(ksq) & !pos.spec_pieces_c(us)) & !slider_attacks;
    lemma_targets_ep_ok(pos, ksq, b);
    if bits(pos.spec_checkers()).len() < 2 {
        let cs = vstd::std_specs::bits::u64_trailing_zeros(pos.spec_checkers()) as u64;
        lemma_gen_all_ep_ok(
            pos,
            GenTag::Evasions,
            spec_between_bb(cs, ksq) | sq_bb(cs),
        );
        lemma_ep_concat(
            pos,
            spec_target_moves(ksq, b),
            spec_generate_all(pos, GenTag::Evasions, spec_between_bb(cs, ksq) | sq_bb(cs)),
        );
    }
}

} // verus!

verus! {

/// The fast legality filter: a mover that is not pinned, is not the king
/// and does not capture en passant cannot expose its own king, so only
/// the remaining moves pay for the full test.
pub open spec fn spec_legal_keep(pos: Position, m: Move) -> bool {
    (pos.spec_pinned_pieces(pos.side) == 0 && spec_move_from(m) != pos.spec_king_square(pos.side)
        && spec_move_type(m) != ENPASSANT) || pos.spec_legal(m)
}

/// The members of `s` that pass the legality filter, in order.
pub open spec fn spec_keep_filter(pos: Position, s: Seq<Move>) -> Seq<Move> {
    s.filter(|m: Move| spec_legal_keep(pos, m))
}

proof fn lemma_keep_filter_push(pos: Position, s: Seq<Move>, m: Move)
    ensures
        spec_keep_filter(pos, s.push(m)) == (if spec_legal_keep(pos, m) {
            spec_keep_filter(pos, s).push(m)
        } else {
            spec_keep_filter(pos, s)
        }),
{
    reveal_with_fuel(Seq::filter, 2);
    assert(s.push(m).drop_last() =~= s);
    assert(s.push(m).last() == m);
}

/// The pseudo-legal set the legal generator filters: evasions under
/// check, all moves otherwise.
pub open spec fn spec_pseudo_for_legal(pos: Position) -> Seq<Move> {
    if pos.spec_checkers() != 0 {
        spec_evasions(pos)
    } else {
        spec_generate_all(pos, GenTag::NonEvasions, !pos.spec_pieces_c(pos.side))
    }
}

/// The legal moves: the pseudo-legal evasions or non-evasions that do not
/// leave the mover's king in check.
pub open spec fn spec_legal_moves(pos: Position) -> Seq<Move> {
    spec_keep_filter(pos, spec_pseudo_for_legal(pos))
}

fn generate_legal(pos: &Position, list: &mut Vec<ExtMove>)
    requires
        pos.wf(),
    ensures
        moves_of(final(list)@) == moves_of(old(list)@) + spec_legal_moves(*pos),
{
    let us = pos.side_to_move();
    let mut tmp: Vec<ExtMove> = Vec::new();
    if pos.checkers() != 0 {
        generate_evasions(pos, &mut tmp);
        proof {
            lemma_evasions_ep_ok(*pos);
        }
    } else {
        generate_all(pos, GenTag::NonEvasions, &mut tmp, !pos.pieces_c(us));
        proof {
            lemma_gen_all_ep_ok(*pos, GenTag::NonEvasions, !pos.spec_pieces_c(us));
        }
    }
    let ghost pseudo = moves_of(tmp@);
    proof {
        assert(pseudo == spec_pseudo_for_legal(*pos));
        assert(all_ep_ok(*pos, pseudo));
    }
    let no_pin = pos.pinned_pieces(us) == 0;
    let ksq = pos.king_square(us);
    let mut i: usize = 0;
    proof {
        assert(pseudo.take(0) =~= Seq::<Move>::empty());
        assert(spec_keep_filter(*pos, pseudo.take(0)) =~= Seq::<Move>::empty()) by {
            reveal_with_fuel(Seq::filter, 2);
        }
        assert(moves_of(list@) =~= moves_of(old(list)@) + spec_keep_filter(*pos, pseudo.take(0)));
    }
    while i < tmp.len()
        invariant
            pos.wf(),
            i <= tmp@.len(),
            pseudo == moves_of(tmp@),
            pseudo == spec_pseudo_for_legal(*pos),
            all_ep_ok(*pos, pseudo),
            no_pin == (pos.spec_pinned_pieces(pos.side) == 0),
            us == pos.side,
            ksq == pos.spec_king_square(pos.side),
            moves_of(list@) == moves_of(old(list)@) + spec_keep_filter(*pos, pseudo.take(i as int)),
        decreases tmp@.len() - i,
    {
        let m = tmp[i].m;
        proof {
            assert(pseudo[i as int] == m);
            assert(ep_ok(*pos, pseudo[i as int]));
        }
        let fast = no_pin && move_from(m) != ksq && move_type(m) != ENPASSANT;
        let keep = if fast {
            true
        } else {
            pos.legal(m)
        };
        if keep {
            push_move(list, m);
        }
        proof {
            assert(keep == spec_legal_keep(*pos, m));
            assert(pseudo.take(i + 1) =~= pseudo.take(i as int).push(m));
            lemma_keep_filter_push(*pos, pseudo.take(i as int), m);
            assert(moves_of(list@) =~= moves_of(old(list)@) + spec_keep_filter(
                *pos,
                pseudo.take(i + 1),
            ));
        }
        i = i + 1;
    }
    proof {
        assert(pseudo.take(tmp@.len() as int) =~= pseudo);
    }
}

/// The output of the generator for each selector: the selector's target
/// set fed through the shared pipeline, or the dedicated quiet-check,
/// evasion or legal entry points.
pub open spec fn spec_gen(pos: Position, gt: GenTag) -> Seq<Move> {
    match gt {
        GenTag::Captures => spec_generate_all(pos, gt, pos.spec_pieces_c(pos.side.spec_flip())),
        GenTag::Quiets => spec_generate_all(pos, gt, !pos.spec_pieces()),
        GenTag::NonEvasions => spec_generate_all(pos, gt, !pos.spec_pieces_c(pos.side)),
        GenTag::QuietChecks => spec_quiet_checks(pos),
        GenTag::Evasions => spec_evasions(pos),
        GenTag::Legal => spec_legal_moves(pos),
    }
}

/// Appends the moves selector `T` produces for `pos` and returns the new
/// number of moves held. The capture-like selectors ask for a position
/// not in check, the evasion selector for one in check.
pub fn generate<T: GenType>(pos: &Position, list: &mut Vec<ExtMove>) -> (n: usize)
    requires
        pos.wf(),
        T::gen_tag() == GenTag::Evasions ==> pos.spec_checkers() != 0,
        (T::gen_tag() == GenTag::Captures || T::gen_tag() == GenTag::Quiets || T::gen_tag()
            == GenTag::QuietChecks || T::gen_tag() == GenTag::NonEvasions)
            ==> pos.spec_checkers() == 0,
    ensures
        moves_of(final(list)@) == moves_of(old(list)@) + spec_gen(*pos, T::gen_tag()),
        n == final(list)@.len(),
{
    let gt = T::gen_type();
    match gt {
        GenTag::Captures => {
            let us = pos.side_to_move();
            generate_all(pos, gt, list, pos.pieces_c(us.flip()));
        },
        GenTag::Quiets => {
            generate_all(pos, gt, list, !pos.pieces());
        },
        GenTag::NonEvasions => {
            let us = pos.side_to_move();
            generate_all(pos, gt, list, !pos.pieces_c(us));
        },
        GenTag::QuietChecks => {
            generate_quiet_checks(pos, list);
        },
        GenTag::Evasions => {
            generate_evasions(pos, list);
        },
        GenTag::Legal => {
            generate_legal(pos, list);
        },
    }
    list.len()
}

/// A generated move list: the buffer a selector's run filled, owned by
/// the caller.
pub struct MoveList {
    pub moves: Vec<ExtMove>,
}

impl MoveList {
    /// The moves held, in generation order.
    pub open spec fn spec_moves(self) -> Seq<Move> {
        moves_of(self.moves@)
    }

    /// Runs selector `T` on `pos` and keeps its output.
    pub fn new<T: GenType>(pos: &Position) -> (r: MoveList)
        requires
            pos.wf(),
            T::gen_tag() == GenTag::Evasions ==> pos.spec_checkers() != 0,
            (T::gen_tag() == GenTag::Captures || T::gen_tag() == GenTag::Quiets || T::gen_tag()
                == GenTag::QuietChecks || T::gen_tag() == GenTag::NonEvasions)
                ==> pos.spec_checkers() == 0,
        ensures
            r.spec_moves() == spec_gen(*pos, T::gen_tag()),
    {
        let mut list: Vec<ExtMove> = Vec::new();
        generate::<T>(pos, &mut list);
        proof {
            assert(moves_of(list@) =~= spec_gen(*pos, T::gen_tag()));
        }
        MoveList { moves: list }
    }

    /// How many moves were generated.
    pub fn size(&self) -> (n: usize)
        ensures
            n == self.spec_moves().len(),
    {
        self.moves.len()
    }

    /// The move at position `i` of the generation order.
    pub fn get(&self, i: usize) -> (m: Move)
        requires
            i < self.spec_moves().len(),
        ensures
            m == self.spec_moves()[i as int],
    {
        self.moves[i].m
    }

    /// True iff the list holds `m`.
    pub fn contains(&self, m: Move) -> (r: bool)
        ensures
            r == self.spec_moves().contains(m),
    {
        let mut i: usize = 0;
        while i < self.moves.len()
            invariant
                i <= self.moves@.len(),
                forall|k: int| 0 <= k < i ==> self.spec_moves()[k] != m,
            decreases self.moves@.len() - i,
        {
            if self.moves[i].m == m {
                proof {
                    assert(self.spec_moves()[i as int] == m);
                }
                return true;
            }
            i = i + 1;
        }
        false
    }
}

} // verus!

verus! {

/// Every member of a filtered sequence is a member of the original.
proof fn lemma_filter_subset(s: Seq<Move>, pred: spec_fn(Move) -> bool)
    ensures
        forall|m: Move| #[trigger] s.filter(pred).contains(m) ==> s.contains(m),
    decreases s.len(),
{
    reveal(Seq::filter);
    if s.len() > 0 {
        let dl = s.drop_last();
        lemma_filter_subset(dl, pred);
        assert forall|m: Move| #[trigger] s.filter(pred).contains(m) implies s.contains(m) by {
            if dl.filter(pred).contains(m) {
                let j = choose|j: int| 0 <= j < dl.len() && dl[j] == m;
                assert(s[j] == m);
            } else {
                assert(m == s.last());
                assert(s[s.len() - 1] == m);
            }
        }
    }
}

/// Filtering twice is filtering by the conjunction.
proof fn lemma_filter_compose(s: Seq<Move>, p: spec_fn(Move) -> bool, q: spec_fn(Move) -> bool)
    ensures
        s.filter(p).filter(q) == s.filter(|m: Move| p(m) && q(m)),
    decreases s.len(),
{
    reveal(Seq::filter);
    let pq = |m: Move| p(m) && q(m);
    if s.len() == 0 {
        assert(s.filter(p).filter(q) =~= s.filter(pq));
    } else {
        let dl = s.drop_last();
        let l = s.last();
        lemma_filter_compose(dl, p, q);
        if p(l) {
            let w = dl.filter(p).push(l);
            assert(s.filter(p) == w);
            assert(w.drop_last() =~= dl.filter(p));
            assert(w.last() == l);
            if q(l) {
                assert(s.filter(p).filter(q) == dl.filter(p).filter(q).push(l));
            } else {
                assert(s.filter(p).filter(q) == dl.filter(p).filter(q));
            }
        }
    }
}

proof fn lemma_quiet_checks_dc_shape(pos: Position, b: u64)
    ensures
        all_ep_ok(pos, spec_dc_moves(pos, b)),
    decreases b,
{
    if b != 0 {
        let from = vstd::std_specs::bits::u64_trailing_zeros(b) as u64;
        vstd::std_specs::bits::axiom_u64_trailing_zeros(b);
        lemma_clear_lsb(b);
        lemma_quiet_checks_dc_shape(pos, b & ((b - 1) as u64));
        let rest = spec_dc_moves(pos, b & ((b - 1) as u64));
        match pos.spec_piece_type_on(from) {
            Some(pt) => {
                if pt == PieceType::Pawn {
                } else if pt == PieceType::King {
                    lemma_targets_ep_ok(
                        pos,
                        from,
                        (spec_attacks_bb(pt, from, pos.spec_pieces()) & !pos.spec_pieces())
                            & !spec_pseudo_attacks(
                            PieceType::Queen,
                            pos.spec_king_square(pos.side.spec_flip()),
                        ),
                    );
                    lemma_ep_concat(
                        pos,
                        spec_target_moves(
                            from,
                            (spec_attacks_bb(pt, from, pos.spec_pieces()) & !pos.spec_pieces())
                                & !spec_pseudo_attacks(
                                PieceType::Queen,
                                pos.spec_king_square(pos.side.spec_flip()),
                            ),
                        ),
                        rest,
                    );
                } else {
                    lemma_targets_ep_ok(
                        pos,
                        from,
                        spec_attacks_bb(pt, from, pos.spec_pieces()) & !pos.spec_pieces(),
                    );
                    lemma_ep_concat(
                        pos,
                        spec_target_moves(
                            from,
                            spec_attacks_bb(pt, from, pos.spec_pieces()) & !pos.spec_pieces(),
                        ),
                        rest,
                    );
                }
            },
            None => {},
        }
    }
}

/// Every move any selector emits has the generated shape: its en-passant
/// moves capture on the recorded square, and it promotes only when a pawn
/// of the side to move stands on the seventh rank.
pub proof fn lemma_gen_shape(pos: Position, gt: GenTag)
    requires
        pos.wf(),
        gt == GenTag::Evasions ==> pos.spec_checkers() != 0,
    ensures
        all_ep_ok(pos, spec_gen(pos, gt)),
{
    let us = pos.side;
    match gt {
        GenTag::Captures => {
            lemma_gen_all_ep_ok(pos, gt, pos.spec_pieces_c(us.spec_flip()));
        },
        GenTag::Quiets => {
            lemma_gen_all_ep_ok(pos, gt, !pos.spec_pieces());
        },
        GenTag::NonEvasions => {
            lemma_gen_all_ep_ok(pos, gt, !pos.spec_pieces_c(us));
        },
        GenTag::QuietChecks => {
            lemma_quiet_checks_dc_shape(pos, pos.spec_discovered_check_candidates());
            lemma_gen_all_ep_ok(pos, GenTag::QuietChecks, !pos.spec_pieces());
            lemma_ep_concat(
                pos,
                spec_dc_moves(pos, pos.spec_discovered_check_candidates()),
                spec_generate_all(pos, GenTag::QuietChecks, !pos.spec_pieces()),
            );
        },
        GenTag::Evasions => {
            lemma_evasions_ep_ok(pos);
        },
        GenTag::Legal => {
            if pos.spec_checkers() != 0 {
                lemma_evasions_ep_ok(pos);
            } else {
                lemma_gen_all_ep_ok(pos, GenTag::NonEvasions, !pos.spec_pieces_c(us));
            }
            lemma_filter_subset(spec_pseudo_for_legal(pos), |m: Move| spec_legal_keep(pos, m));
            assert forall|k: int| 0 <= k < spec_legal_moves(pos).len() implies ep_ok(
                pos,
                spec_legal_moves(pos)[k],
            ) by {
                let m = spec_legal_moves(pos)[k];
                assert(spec_legal_moves(pos).contains(m));
                assert(spec_pseudo_for_legal(pos).contains(m));
                let j = choose|j: int|
                    0 <= j < spec_pseudo_for_legal(pos).len() && spec_pseudo_for_legal(pos)[j]
                        == m;
            }
        },
    }
}

/// Every legal move is among the pseudo-legal evasions when the side to
/// move is in check, and among the pseudo-legal non-evasions otherwise:
/// the legal selector only filters those sets.
pub proof fn lemma_legal_within_pseudo(pos: Position)
    requires
        pos.wf(),
    ensures
        forall|m: Move|
            #[trigger] spec_legal_moves(pos).contains(m) ==> (spec_evasions(pos).contains(m)
                || spec_generate_all(
                pos,
                GenTag::NonEvasions,
                !pos.spec_pieces_c(pos.side),
            ).contains(m)),
{
    lemma_filter_subset(spec_pseudo_for_legal(pos), |m: Move| spec_legal_keep(pos, m));
}

/// The legal moves that give check are exactly the pseudo-legal moves
/// that pass both the legality filter and the check test: filtering the
/// legal list by `gives_check` composes the two filters.
pub proof fn lemma_legal_checks_compose(pos: Position)
    requires
        pos.wf(),
    ensures
        spec_legal_moves(pos).filter(|m: Move| pos.spec_gives_check(m)) == spec_pseudo_for_legal(
            pos,
        ).filter(|m: Move| spec_legal_keep(pos, m) && pos.spec_gives_check(m)),
{
    let p = |m: Move| spec_legal_keep(pos, m);
    let q = |m: Move| pos.spec_gives_check(m);
    lemma_filter_compose(spec_pseudo_for_legal(pos), p, q);
    assert((|m: Move| p(m) && q(m)) =~= (|m: Move| spec_legal_keep(pos, m)
        && pos.spec_gives_check(m)));
}

/// With no pawn of the side to move on its seventh rank, no selector
/// emits a promotion.
pub proof fn lemma_no_promotions(pos: Position, gt: GenTag)
    requires
        pos.wf(),
        gt == GenTag::Evasions ==> pos.spec_checkers() != 0,
        pos.spec_pieces_cp(pos.side, PieceType::Pawn) & trank7_of(pos.side) == 0,
    ensures
        forall|k: int|
            0 <= k < spec_gen(pos, gt).len() ==> spec_move_type(#[trigger] spec_gen(pos, gt)[k])
                != PROMOTION,
{
    lemma_gen_shape(pos, gt);
}

} // verus!

verus! {

/// The two color occupancies of a well-formed position are disjoint.
proof fn lemma_colors_disjoint_bv(
    wp: u64,
    wn: u64,
    wb: u64,
    wr: u64,
    wq: u64,
    wk: u64,
    bp: u64,
    bn: u64,
    bb: u64,
    br: u64,
    bq: u64,
    bk: u64,
)
    by (bit_vector)
    requires
        wp & bp == 0 && wp & bn == 0 && wp & bb == 0 && wp & br == 0 && wp & bq == 0 && wp & bk
            == 0,
        wn & bp == 0 && wn & bn == 0 && wn & bb == 0 && wn & br == 0 && wn & bq == 0 && wn & bk
            == 0,
        wb & bp == 0 && wb & bn == 0 && wb & bb == 0 && wb & br == 0 && wb & bq == 0 && wb & bk
            == 0,
        wr & bp == 0 && wr & bn == 0 && wr & bb == 0 && wr & br == 0 && wr & bq == 0 && wr & bk
            == 0,
        wq & bp == 0 && wq & bn == 0 && wq & bb == 0 && wq & br == 0 && wq & bq == 0 && wq & bk
            == 0,
        wk & bp == 0 && wk & bn == 0 && wk & bb == 0 && wk & br == 0 && wk & bq == 0 && wk & bk
            == 0,
    ensures
        (wp | wn | wb | wr | wq | wk) & (bp | bn | bb | br | bq | bk) == 0,
{
}

/// With the two occupancies disjoint, the enemy squares and the empty
/// squares partition everything but our own squares.
proof fn lemma_partition_bv(cw: u64, cb: u64)
    by (bit_vector)
    requires
        cw & cb == 0,
    ensures
        cb & !(cw | cb) == 0,
        cb | !(cw | cb) == !cw,
        cw & !(cw | cb) == 0,
        cw | !(cw | cb) == !cb,
{
}

/// The capture target and the quiet target of the side to move are
/// disjoint and together cover the non-evasion target.
proof fn lemma_color_split(pos: Position)
    requires
        pos.wf(),
    ensures
        pos.spec_pieces_c(pos.side.spec_flip()) & !pos.spec_pieces() == 0,
        pos.spec_pieces_c(pos.side.spec_flip()) | !pos.spec_pieces() == !pos.spec_pieces_c(
            pos.side,
        ),
{
    let sq = pos.board_seq();
    assert forall|i: int, j: int| 0 <= i < 6 && 6 <= j < 12 implies #[trigger] sq[i] & #[trigger] sq[j]
        == 0 by {
        assert(sq[i] & sq[j] == 0);
    }
    assert(sq[0] == pos.w_pawns && sq[1] == pos.w_knights && sq[2] == pos.w_bishops && sq[3]
        == pos.w_rooks && sq[4] == pos.w_queens && sq[5] == pos.w_king);
    assert(sq[6] == pos.b_pawns && sq[7] == pos.b_knights && sq[8] == pos.b_bishops && sq[9]
        == pos.b_rooks && sq[10] == pos.b_queens && sq[11] == pos.b_king);
    lemma_colors_disjoint_bv(
        pos.w_pawns,
        pos.w_knights,
        pos.w_bishops,
        pos.w_rooks,
        pos.w_queens,
        pos.w_king,
        pos.b_pawns,
        pos.b_knights,
        pos.b_bishops,
        pos.b_rooks,
        pos.b_queens,
        pos.b_king,
    );
    let cw = pos.spec_pieces_c(Color::White);
    let cb = pos.spec_pieces_c(Color::Black);
    lemma_partition_bv(cw, cb);
    if pos.side == Color::White {
        assert(pos.spec_pieces() == cw | cb);
    } else {
        assert(cb & cw == 0) by (bit_vector)
            requires
                cw & cb == 0,
        ;
        lemma_partition_bv(cb, cw);
        assert(cw | cb == cb | cw) by (bit_vector);
        assert(pos.spec_pieces() == cw | cb);
    }
}

/// Cutting an attack set to two disjoint targets cuts it disjointly, and
/// the two cuts join to the cut by the union.
proof fn lemma_cut_split(a: u64, tc: u64, tq: u64)
    by (bit_vector)
    requires
        tc & tq == 0,
    ensures
        (a & tc) & (a & tq) == 0,
        (a & tc) | (a & tq) == a & (tc | tq),
{
}

/// How often each move occurs among the moves from `from` into `b`: once
/// when its destination is a set bit, never otherwise.
proof fn lemma_target_count(from: Square, b: u64)
    requires
        from < 64,
    ensures
        forall|m: Move|
            #[trigger] spec_target_moves(from, b).to_multiset().count(m) == (if bit(
                b,
                spec_move_to(m),
            ) && m == spec_move_make(from, spec_move_to(m)) {
                1nat
            } else {
                0nat
            }),
    decreases b,
{
    broadcast use vstd::seq_lib::group_to_multiset_ensures;

    if b == 0 {
        assert forall|m: Move| #[trigger] spec_target_moves(from, b).to_multiset().count(m)
            == 0nat by {
            assert(spec_target_moves(from, b).len() == 0);
            assert(!spec_target_moves(from, b).contains(m));
        }
    } else {
        let t = vstd::std_specs::bits::u64_trailing_zeros(b) as u64;
        vstd::std_specs::bits::axiom_u64_trailing_zeros(b);
        lemma_clear_lsb(b);
        let bp = b & ((b - 1) as u64);
        lemma_target_count(from, bp);
        let mt = spec_move_make(from, t);
        crate::types::lemma_move_encoding(from, t, 0, PieceType::Queen);
        vstd::seq_lib::lemma_multiset_commutative(seq![mt], spec_target_moves(from, bp));
        assert(seq![mt] =~= Seq::<Move>::empty().push(mt));
        assert(seq![mt].to_multiset() =~= vstd::multiset::Multiset::<Move>::empty().insert(mt));
        assert forall|m: Move|
            #[trigger] spec_target_moves(from, b).to_multiset().count(m) == (if bit(
                b,
                spec_move_to(m),
            ) && m == spec_move_make(from, spec_move_to(m)) {
                1nat
            } else {
                0nat
            }) by {
            assert(spec_target_moves(from, b).to_multiset().count(m) == seq![
                mt,
            ].to_multiset().count(m) + spec_target_moves(from, bp).to_multiset().count(m));
            if m == mt {
                assert(spec_move_to(m) == t);
                assert(!bit(bp, t));
            } else {
                if bit(b, spec_move_to(m)) && m == spec_move_make(from, spec_move_to(m)) {
                    assert(spec_move_to(m) != t) by {
                        if spec_move_to(m) == t {
                            assert(m == mt);
                        }
                    }
                    assert(bit(bp, spec_move_to(m)));
                }
            }
        }
    }
}

/// The moves into two disjoint destination sets make up, as a multiset,
/// the moves into their union.
proof fn lemma_target_split(from: Square, x: u64, y: u64)
    requires
        from < 64,
        x & y == 0,
    ensures
        spec_target_moves(from, x | y).to_multiset() == spec_target_moves(
            from,
            x,
        ).to_multiset().add(spec_target_moves(from, y).to_multiset()),
{
    lemma_bit_ops();
    lemma_target_count(from, x | y);
    lemma_target_count(from, x);
    lemma_target_count(from, y);
    assert forall|m: Move|
        spec_target_moves(from, x | y).to_multiset().count(m) == spec_target_moves(
            from,
            x,
        ).to_multiset().count(m) + spec_target_moves(from, y).to_multiset().count(m) by {
        if bit(x, spec_move_to(m)) && bit(y, spec_move_to(m)) {
            assert(bit(x & y, spec_move_to(m)));
            assert(!bit(0u64, spec_move_to(m)));
        }
    }
    assert(spec_target_moves(from, x | y).to_multiset() =~= spec_target_moves(
        from,
        x,
    ).to_multiset().add(spec_target_moves(from, y).to_multiset()));
}

} // verus!

verus! {

/// Piece moves against two disjoint targets join, as a multiset, to the
/// moves against the union target.
proof fn lemma_piece_split(pos: Position, pt: PieceType, tc: u64, tq: u64, tn: u64, b: u64)
    requires
        tc & tq == 0,
        (tc | tq) == tn,
    ensures
        spec_piece_moves_from(pos, pt, false, tn, b).to_multiset() == spec_piece_moves_from(
            pos,
            pt,
            false,
            tc,
            b,
        ).to_multiset().add(spec_piece_moves_from(pos, pt, false, tq, b).to_multiset()),
    decreases b,
{
    broadcast use vstd::seq_lib::group_to_multiset_ensures;

    if b == 0 {
        assert(spec_piece_moves_from(pos, pt, false, tn, b).to_multiset() =~= spec_piece_moves_from(
            pos,
            pt,
            false,
            tc,
            b,
        ).to_multiset().add(spec_piece_moves_from(pos, pt, false, tq, b).to_multiset()));
    } else {
        let from = vstd::std_specs::bits::u64_trailing_zeros(b) as u64;
        vstd::std_specs::bits::axiom_u64_trailing_zeros(b);
        lemma_clear_lsb(b);
        let bp = b & ((b - 1) as u64);
        lemma_piece_split(pos, pt, tc, tq, tn, bp);
        reveal(spec_piece_from_moves);
        let a = spec_attacks_bb(pt, from, pos.spec_pieces());
        lemma_cut_split(a, tc, tq);
        lemma_target_split(from, a & tc, a & tq);
        assert(spec_piece_from_moves(pos, pt, false, from, tn) == spec_target_moves(from, a & tn));
        vstd::seq_lib::lemma_multiset_commutative(
            spec_piece_from_moves(pos, pt, false, from, tn),
            spec_piece_moves_from(pos, pt, false, tn, bp),
        );
        vstd::seq_lib::lemma_multiset_commutative(
            spec_piece_from_moves(pos, pt, false, from, tc),
            spec_piece_moves_from(pos, pt, false, tc, bp),
        );
        vstd::seq_lib::lemma_multiset_commutative(
            spec_piece_from_moves(pos, pt, false, from, tq),
            spec_piece_moves_from(pos, pt, false, tq, bp),
        );
        assert(spec_piece_moves_from(pos, pt, false, tn, b).to_multiset() =~= spec_piece_moves_from(
            pos,
            pt,
            false,
            tc,
            b,
        ).to_multiset().add(spec_piece_moves_from(pos, pt, false, tq, b).to_multiset()));
    }
}

/// One promotion destination: the capture selector's queen promotion and
/// the quiet selector's under-promotions join to the non-evasion group.
proof fn lemma_promo_group_split(to: Square, ksq: Square, d: int)
    ensures
        spec_promo_group(GenTag::NonEvasions, to, ksq, d).to_multiset() == spec_promo_group(
            GenTag::Captures,
            to,
            ksq,
            d,
        ).to_multiset().add(spec_promo_group(GenTag::Quiets, to, ksq, d).to_multiset()),
{
    broadcast use vstd::seq_lib::group_to_multiset_ensures;

    let from = ((to - d) as u64);
    let s1 = seq![spec_move_make_prom(from, to, PieceType::Queen)];
    let s2 = seq![
        spec_move_make_prom(from, to, PieceType::Rook),
        spec_move_make_prom(from, to, PieceType::Bishop),
        spec_move_make_prom(from, to, PieceType::Knight),
    ];
    let e = Seq::<Move>::empty();
    vstd::seq_lib::lemma_multiset_commutative(s1, s2);
    vstd::seq_lib::lemma_multiset_commutative(s1 + s2, e);
    vstd::seq_lib::lemma_multiset_commutative(s1, e);
    vstd::seq_lib::lemma_multiset_commutative(s1 + e, e);
    vstd::seq_lib::lemma_multiset_commutative(e, s2);
    vstd::seq_lib::lemma_multiset_commutative(e + s2, e);
    assert(spec_promo_group(GenTag::NonEvasions, to, ksq, d) == (s1 + s2) + e);
    assert(spec_promo_group(GenTag::Captures, to, ksq, d) == (s1 + e) + e);
    assert(spec_promo_group(GenTag::Quiets, to, ksq, d) == (e + s2) + e);
    assert(spec_promo_group(GenTag::NonEvasions, to, ksq, d).to_multiset() =~= spec_promo_group(
        GenTag::Captures,
        to,
        ksq,
        d,
    ).to_multiset().add(spec_promo_group(GenTag::Quiets, to, ksq, d).to_multiset()));
}

/// The same, over every destination of a promotion set.
proof fn lemma_promos_split(b: u64, ksq: Square, d: int)
    ensures
        spec_promos(GenTag::NonEvasions, b, ksq, d).to_multiset() == spec_promos(
            GenTag::Captures,
            b,
            ksq,
            d,
        ).to_multiset().add(spec_promos(GenTag::Quiets, b, ksq, d).to_multiset()),
    decreases b,
{
    broadcast use vstd::seq_lib::group_to_multiset_ensures;

    if b == 0 {
        assert(spec_promos(GenTag::NonEvasions, b, ksq, d).to_multiset() =~= spec_promos(
            GenTag::Captures,
            b,
            ksq,
            d,
        ).to_multiset().add(spec_promos(GenTag::Quiets, b, ksq, d).to_multiset()));
    } else {
        let t = vstd::std_specs::bits::u64_trailing_zeros(b) as u64;
        vstd::std_specs::bits::axiom_u64_trailing_zeros(b);
        lemma_clear_lsb(b);
        let bp = b & ((b - 1) as u64);
        lemma_promos_split(bp, ksq, d);
        lemma_promo_group_split(t, ksq, d);
        vstd::seq_lib::lemma_multiset_commutative(
            spec_promo_group(GenTag::NonEvasions, t, ksq, d),
            spec_promos(GenTag::NonEvasions, bp, ksq, d),
        );
        vstd::seq_lib::lemma_multiset_commutative(
            spec_promo_group(GenTag::Captures, t, ksq, d),
            spec_promos(GenTag::Captures, bp, ksq, d),
        );
        vstd::seq_lib::lemma_multiset_commutative(
            spec_promo_group(GenTag::Quiets, t, ksq, d),
            spec_promos(GenTag::Quiets, bp, ksq, d),
        );
        assert(spec_promos(GenTag::NonEvasions, b, ksq, d).to_multiset() =~= spec_promos(
            GenTag::Captures,
            b,
            ksq,
            d,
        ).to_multiset().add(spec_promos(GenTag::Quiets, b, ksq, d).to_multiset()));
    }
}

/// The pawn moves split likewise: the quiet selector keeps the pushes and
/// under-promotions, the capture selector the captures and the queen
/// promotions, and together they make up the non-evasion pawn moves.
#[verifier::rlimit(100)]
proof fn lemma_pawn_split(pos: Position)
    requires
        pos.wf(),
    ensures
        spec_pawn_moves(pos, GenTag::NonEvasions, !pos.spec_pieces_c(pos.side)).to_multiset()
            == spec_pawn_moves(
            pos,
            GenTag::Captures,
            pos.spec_pieces_c(pos.side.spec_flip()),
        ).to_multiset().add(
            spec_pawn_moves(pos, GenTag::Quiets, !pos.spec_pieces()).to_multiset(),
        ),
{
    broadcast use vstd::seq_lib::group_to_multiset_ensures;

    let us = pos.side;
    let them = us.spec_flip();
    let tc = pos.spec_pieces_c(them);
    let tq = !pos.spec_pieces();
    let tn = !pos.spec_pieces_c(us);
    reveal(spec_pawn_pushes);
    reveal(spec_pawn_promos);
    reveal(spec_pawn_caps);
    let push_n = spec_pawn_pushes(pos, GenTag::NonEvasions, tn);
    let push_q = spec_pawn_pushes(pos, GenTag::Quiets, tq);
    let push_c = spec_pawn_pushes(pos, GenTag::Captures, tc);
    assert(push_c == Seq::<Move>::empty());
    assert(push_n == push_q);
    let caps_n = spec_pawn_caps(pos, GenTag::NonEvasions, tn);
    let caps_c = spec_pawn_caps(pos, GenTag::Captures, tc);
    let caps_q = spec_pawn_caps(pos, GenTag::Quiets, tq);
    assert(caps_q == Seq::<Move>::empty());
    assert(caps_n == caps_c);
    let pr_n = spec_pawn_promos(pos, GenTag::NonEvasions, tn);
    let pr_c = spec_pawn_promos(pos, GenTag::Captures, tc);
    let pr_q = spec_pawn_promos(pos, GenTag::Quiets, tq);
    let on7 = pos.spec_pieces_cp(us, PieceType::Pawn) & trank7_of(us);
    let ksq = pos.spec_king_square(them);
    if on7 != 0 {
        let b1 = spec_shift_up_right(us, on7) & tc;
        let b2 = spec_shift_up_left(us, on7) & tc;
        let b3 = spec_shift_up(us, on7) & tq;
        lemma_promos_split(b1, ksq, right_d(us));
        lemma_promos_split(b2, ksq, left_d(us));
        lemma_promos_split(b3, ksq, up_d(us));
        vstd::seq_lib::lemma_multiset_commutative(
            spec_promos(GenTag::NonEvasions, b1, ksq, right_d(us)),
            spec_promos(GenTag::NonEvasions, b2, ksq, left_d(us)),
        );
        vstd::seq_lib::lemma_multiset_commutative(
            spec_promos(GenTag::NonEvasions, b1, ksq, right_d(us)) + spec_promos(
                GenTag::NonEvasions,
                b2,
                ksq,
                left_d(us),
            ),
            spec_promos(GenTag::NonEvasions, b3, ksq, up_d(us)),
        );
        vstd::seq_lib::lemma_multiset_commutative(
            spec_promos(GenTag::Captures, b1, ksq, right_d(us)),
            spec_promos(GenTag::Captures, b2, ksq, left_d(us)),
        );
        vstd::seq_lib::lemma_multiset_commutative(
            spec_promos(GenTag::Captures, b1, ksq, right_d(us)) + spec_promos(
                GenTag::Captures,
                b2,
                ksq,
                left_d(us),
            ),
            spec_promos(GenTag::Captures, b3, ksq, up_d(us)),
        );
        vstd::seq_lib::lemma_multiset_commutative(
            spec_promos(GenTag::Quiets, b1, ksq, right_d(us)),
            spec_promos(GenTag::Quiets, b2, ksq, left_d(us)),
        );
        vstd::seq_lib::lemma_multiset_commutative(
            spec_promos(GenTag::Quiets, b1, ksq, right_d(us)) + spec_promos(
                GenTag::Quiets,
                b2,
                ksq,
                left_d(us),
            ),
            spec_promos(GenTag::Quiets, b3, ksq, up_d(us)),
        );
        assert(pr_n.to_multiset() =~= pr_c.to_multiset().add(pr_q.to_multiset()));
    } else {
        assert(pr_n.to_multiset() =~= pr_c.to_multiset().add(pr_q.to_multiset()));
    }
    vstd::seq_lib::lemma_multiset_commutative(push_n, pr_n);
    vstd::seq_lib::lemma_multiset_commutative(push_n + pr_n, caps_n);
    vstd::seq_lib::lemma_multiset_commutative(push_c, pr_c);
    vstd::seq_lib::lemma_multiset_commutative(push_c + pr_c, caps_c);
    vstd::seq_lib::lemma_multiset_commutative(push_q, pr_q);
    vstd::seq_lib::lemma_multiset_commutative(push_q + pr_q, caps_q);
    assert(spec_pawn_moves(pos, GenTag::NonEvasions, tn).to_multiset() =~= spec_pawn_moves(
        pos,
        GenTag::Captures,
        tc,
    ).to_multiset().add(spec_pawn_moves(pos, GenTag::Quiets, tq).to_multiset()));
}

/// Against a position not in check, the captures and the quiet moves
/// together are exactly the non-evasions, as a multiset of moves: the
/// selectors partition the pseudo-legal move set, with the queen
/// promotions counted among the captures and the under-promotions among
/// the quiet moves.
#[verifier::rlimit(100)]
pub proof fn lemma_captures_quiets_partition(pos: Position)
    requires
        pos.wf(),
        pos.spec_checkers() == 0,
    ensures
        spec_gen(pos, GenTag::NonEvasions).to_multiset() == spec_gen(
            pos,
            GenTag::Captures,
        ).to_multiset().add(spec_gen(pos, GenTag::Quiets).to_multiset()),
{
    broadcast use vstd::seq_lib::group_to_multiset_ensures;

    let us = pos.side;
    let them = us.spec_flip();
    let tc = pos.spec_pieces_c(them);
    let tq = !pos.spec_pieces();
    let tn = !pos.spec_pieces_c(us);
    lemma_color_split(pos);
    reveal(spec_generate_all);
    let ksq = pos.spec_king_square(us);
    let ka = spec_king_attacks(ksq);
    lemma_cut_split(ka, tc, tq);
    lemma_target_split(ksq, ka & tc, ka & tq);
    vstd::std_specs::bits::axiom_u64_trailing_zeros(pos.spec_pieces_cp(us, PieceType::King));
    lemma_pawn_split(pos);
    lemma_piece_split(pos, PieceType::Knight, tc, tq, tn, pos.spec_pieces_cp(us, PieceType::Knight));
    lemma_piece_split(pos, PieceType::Bishop, tc, tq, tn, pos.spec_pieces_cp(us, PieceType::Bishop));
    lemma_piece_split(pos, PieceType::Rook, tc, tq, tn, pos.spec_pieces_cp(us, PieceType::Rook));
    lemma_piece_split(pos, PieceType::Queen, tc, tq, tn, pos.spec_pieces_cp(us, PieceType::Queen));
    // The castle segments of the quiet and the non-evasion selectors are
    // the same moves.
    let cr_k: u8 = if us == Color::White {
        WHITE_OO
    } else {
        BLACK_OO
    };
    let cr_q: u8 = if us == Color::White {
        WHITE_OOO
    } else {
        BLACK_OOO
    };
    assert(spec_castle_moves(pos, GenTag::NonEvasions, cr_k) == spec_castle_moves(
        pos,
        GenTag::Quiets,
        cr_k,
    )) by {
        reveal(spec_castle_moves);
    }
    assert(spec_castle_moves(pos, GenTag::NonEvasions, cr_q) == spec_castle_moves(
        pos,
        GenTag::Quiets,
        cr_q,
    )) by {
        reveal(spec_castle_moves);
    }
    let a_n = spec_pawn_moves(pos, GenTag::NonEvasions, tn);
    let b_n = spec_piece_moves(pos, PieceType::Knight, false, tn);
    let c_n = spec_piece_moves(pos, PieceType::Bishop, false, tn);
    let d_n = spec_piece_moves(pos, PieceType::Rook, false, tn);
    let e_n = spec_piece_moves(pos, PieceType::Queen, false, tn);
    let q_n = spec_target_moves(ksq, ka & tn);
    let g_n = if pos.spec_castling_rights(us) != 0 {
        spec_castle_moves(pos, GenTag::NonEvasions, cr_k) + spec_castle_moves(
            pos,
            GenTag::NonEvasions,
            cr_q,
        )
    } else {
        Seq::<Move>::empty()
    };
    let a_c = spec_pawn_moves(pos, GenTag::Captures, tc);
    let b_c = spec_piece_moves(pos, PieceType::Knight, false, tc);
    let c_c = spec_piece_moves(pos, PieceType::Bishop, false, tc);
    let d_c = spec_piece_moves(pos, PieceType::Rook, false, tc);
    let e_c = spec_piece_moves(pos, PieceType::Queen, false, tc);
    let q_c = spec_target_moves(ksq, ka & tc);
    let a_q = spec_pawn_moves(pos, GenTag::Quiets, tq);
    let b_q = spec_piece_moves(pos, PieceType::Knight, false, tq);
    let c_q = spec_piece_moves(pos, PieceType::Bishop, false, tq);
    let d_q = spec_piece_moves(pos, PieceType::Rook, false, tq);
    let e_q = spec_piece_moves(pos, PieceType::Queen, false, tq);
    let q_q = spec_target_moves(ksq, ka & tq);
    assert(spec_gen(pos, GenTag::NonEvasions) == a_n + b_n + c_n + d_n + e_n + q_n + g_n);
    assert(spec_gen(pos, GenTag::Captures) == a_c + b_c + c_c + d_c + e_c + q_c
        + Seq::<Move>::empty());
    assert(spec_gen(pos, GenTag::Quiets) == a_q + b_q + c_q + d_q + e_q + q_q + g_n);
    vstd::seq_lib::lemma_multiset_commutative(a_n, b_n);
    vstd::seq_lib::lemma_multiset_commutative(a_n + b_n, c_n);
    vstd::seq_lib::lemma_multiset_commutative(a_n + b_n + c_n, d_n);
    vstd::seq_lib::lemma_multiset_commutative(a_n + b_n + c_n + d_n, e_n);
    vstd::seq_lib::lemma_multiset_commutative(a_n + b_n + c_n + d_n + e_n, q_n);
    vstd::seq_lib::lemma_multiset_commutative(a_n + b_n + c_n + d_n + e_n + q_n, g_n);
    vstd::seq_lib::lemma_multiset_commutative(a_c, b_c);
    vstd::seq_lib::lemma_multiset_commutative(a_c + b_c, c_c);
    vstd::seq_lib::lemma_multiset_commutative(a_c + b_c + c_c, d_c);
    vstd::seq_lib::lemma_multiset_commutative(a_c + b_c + c_c + d_c, e_c);
    vstd::seq_lib::lemma_multiset_commutative(a_c + b_c + c_c + d_c + e_c, q_c);
    vstd::seq_lib::lemma_multiset_commutative(
        a_c + b_c + c_c + d_c + e_c + q_c,
        Seq::<Move>::empty(),
    );
    vstd::seq_lib::lemma_multiset_commutative(a_q, b_q);
    vstd::seq_lib::lemma_multiset_commutative(a_q + b_q, c_q);
    vstd::seq_lib::lemma_multiset_commutative(a_q + b_q + c_q, d_q);
    vstd::seq_lib::lemma_multiset_commutative(a_q + b_q + c_q + d_q, e_q);
    vstd::seq_lib::lemma_multiset_commutative(a_q + b_q + c_q + d_q + e_q, q_q);
    vstd::seq_lib::lemma_multiset_commutative(a_q + b_q + c_q + d_q + e_q + q_q, g_n);
    assert(spec_gen(pos, GenTag::NonEvasions).to_multiset() =~= spec_gen(
        pos,
        GenTag::Captures,
    ).to_multiset().add(spec_gen(pos, GenTag::Quiets).to_multiset()));
}

} // verus!
