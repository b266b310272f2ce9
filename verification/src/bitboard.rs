use vstd::prelude::*;
use crate::bits::bit;
use crate::types::Color;
use crate::types::PieceType;
use crate::types::Square;

verus! {

pub const FILEA_BB: u64 = 0x0101010101010101;

pub const FILEH_BB: u64 = 0x8080808080808080;

pub const RANK1_BB: u64 = 0x00000000000000ff;

pub const RANK2_BB: u64 = 0x000000000000ff00;

pub const RANK3_BB: u64 = 0x0000000000ff0000;

pub const RANK6_BB: u64 = 0x0000ff0000000000;

pub const RANK7_BB: u64 = 0x00ff000000000000;

pub const RANK8_BB: u64 = 0xff00000000000000;

pub const DARK_SQUARES: u64 = 0xaa55aa55aa55aa55;

pub const ALL_SQUARES_BB: u64 = 0xffffffffffffffff;

/// The one-square bitboard of `s`.
pub open spec fn sq_bb(s: Square) -> u64 {
    1u64 << s
}

pub fn bb_of(s: Square) -> (r: u64)
    requires
        s < 64,
    ensures
        r == sq_bb(s),
{
    1u64 << s
}

/// How bitwise operations act on single bits.
pub proof fn lemma_bit_ops()
    by (bit_vector)
    ensures
        forall|x: u64, y: u64, i: u64| #[trigger] bit(x & y, i) <==> bit(x, i) && bit(y, i),
        forall|x: u64, y: u64, i: u64| #[trigger] bit(x | y, i) <==> bit(x, i) || bit(y, i),
        forall|x: u64, y: u64, i: u64| #[trigger] bit(x ^ y, i) <==> bit(x, i) != bit(y, i),
        forall|x: u64, i: u64| #[trigger] bit(!x, i) <==> i < 64 && !bit(x, i),
        forall|i: u64| !bit(0u64, i),
{
}

/// A one-bit board has exactly its one bit.
pub proof fn lemma_single_bit(t: u64)
    by (bit_vector)
    requires
        t < 64,
    ensures
        forall|i: u64| #[trigger] bit(1u64 << t, i) <==> i == t,
{
}

/// How left shift by `k` moves bits.
pub proof fn lemma_shl_bits(b: u64, k: u64)
    by (bit_vector)
    requires
        k < 64,
    ensures
        forall|i: u64|
            i < 64 ==> (#[trigger] (((b << k) >> i) & 1) == 1 <==> i >= k && ((b >> ((i - k)
                as u64)) & 1) == 1),
{
}

/// How right shift by `k` moves bits.
pub proof fn lemma_shr_bits(b: u64, k: u64)
    by (bit_vector)
    requires
        k < 64,
    ensures
        forall|i: u64|
            i < 64 ==> (#[trigger] (((b >> k) >> i) & 1) == 1 <==> i + k < 64 && ((b >> ((i + k)
                as u64)) & 1) == 1),
{
}

/// Which squares lie on the named files and ranks.
pub proof fn lemma_const_bits()
    by (bit_vector)
    ensures
        forall|i: u64| i < 64 ==> (((FILEA_BB >> i) & 1) == 1 <==> #[trigger] (i % 8) == 0),
        forall|i: u64| i < 64 ==> (((FILEH_BB >> i) & 1) == 1 <==> #[trigger] (i % 8) == 7),
        forall|i: u64| i < 64 ==> (((RANK1_BB >> i) & 1) == 1 <==> #[trigger] (i / 8) == 0),
        forall|i: u64| i < 64 ==> (((RANK2_BB >> i) & 1) == 1 <==> #[trigger] (i / 8) == 1),
        forall|i: u64| i < 64 ==> (((RANK3_BB >> i) & 1) == 1 <==> #[trigger] (i / 8) == 2),
        forall|i: u64| i < 64 ==> (((RANK6_BB >> i) & 1) == 1 <==> #[trigger] (i / 8) == 5),
        forall|i: u64| i < 64 ==> (((RANK7_BB >> i) & 1) == 1 <==> #[trigger] (i / 8) == 6),
        forall|i: u64| i < 64 ==> (((RANK8_BB >> i) & 1) == 1 <==> #[trigger] (i / 8) == 7),
{
}

// The eight single-step shifts. Each masks the edge file away before
// stepping sideways, so no bit wraps to the next rank.
pub open spec fn spec_shift_n(b: u64) -> u64 {
    b << 8
}

pub fn shift_n(b: u64) -> (r: u64)
    ensures
        r == spec_shift_n(b),
{
    b << 8
}

pub open spec fn spec_shift_s(b: u64) -> u64 {
    b >> 8
}

pub fn shift_s(b: u64) -> (r: u64)
    ensures
        r == spec_shift_s(b),
{
    b >> 8
}

pub open spec fn spec_shift_e(b: u64) -> u64 {
    (b & !FILEH_BB) << 1
}

pub fn shift_e(b: u64) -> (r: u64)
    ensures
        r == spec_shift_e(b),
{
    (b & !FILEH_BB) << 1
}

pub open spec fn spec_shift_w(b: u64) -> u64 {
    (b & !FILEA_BB) >> 1
}

pub fn shift_w(b: u64) -> (r: u64)
    ensures
        r == spec_shift_w(b),
{
    (b & !FILEA_BB) >> 1
}

pub open spec fn spec_shift_ne(b: u64) -> u64 {
    (b & !FILEH_BB) << 9
}

pub fn shift_ne(b: u64) -> (r: u64)
    ensures
        r == spec_shift_ne(b),
{
    (b & !FILEH_BB) << 9
}

pub open spec fn spec_shift_nw(b: u64) -> u64 {
    (b & !FILEA_BB) << 7
}

pub fn shift_nw(b: u64) -> (r: u64)
    ensures
        r == spec_shift_nw(b),
{
    (b & !FILEA_BB) << 7
}

pub open spec fn spec_shift_se(b: u64) -> u64 {
    (b & !FILEH_BB) >> 7
}

pub fn shift_se(b: u64) -> (r: u64)
    ensures
        r == spec_shift_se(b),
{
    (b & !FILEH_BB) >> 7
}

pub open spec fn spec_shift_sw(b: u64) -> u64 {
    (b & !FILEA_BB) >> 9
}

pub fn shift_sw(b: u64) -> (r: u64)
    ensures
        r == spec_shift_sw(b),
{
    (b & !FILEA_BB) >> 9
}

// Per-color steps: "up" is the direction our pawns move, "up right" and
// "up left" the two capture directions, as seen from the side to move.
pub open spec fn spec_shift_up(c: Color, b: u64) -> u64 {
    if c == Color::White {
        spec_shift_n(b)
    } else {
        spec_shift_s(b)
    }
}

pub fn shift_up(c: Color, b: u64) -> (r: u64)
    ensures
        r == spec_shift_up(c, b),
{
    match c {
        Color::White => shift_n(b),
        Color::Black => shift_s(b),
    }
}

pub open spec fn spec_shift_down(c: Color, b: u64) -> u64 {
    if c == Color::White {
        spec_shift_s(b)
    } else {
        spec_shift_n(b)
    }
}

pub fn shift_down(c: Color, b: u64) -> (r: u64)
    ensures
        r == spec_shift_down(c, b),
{
    match c {
        Color::White => shift_s(b),
        Color::Black => shift_n(b),
    }
}

pub open spec fn spec_shift_up_right(c: Color, b: u64) -> u64 {
    if c == Color::White {
        spec_shift_ne(b)
    } else {
        spec_shift_sw(b)
    }
}

pub fn shift_up_right(c: Color, b: u64) -> (r: u64)
    ensures
        r == spec_shift_up_right(c, b),
{
    match c {
        Color::White => shift_ne(b),
        Color::Black => shift_sw(b),
    }
}

pub open spec fn spec_shift_up_left(c: Color, b: u64) -> u64 {
    if c == Color::White {
        spec_shift_nw(b)
    } else {
        spec_shift_se(b)
    }
}

pub fn shift_up_left(c: Color, b: u64) -> (r: u64)
    ensures
        r == spec_shift_up_left(c, b),
{
    match c {
        Color::White => shift_nw(b),
        Color::Black => shift_se(b),
    }
}

/// The file of squares holding file `f`.
pub open spec fn spec_file_bb(f: u64) -> u64 {
    FILEA_BB << f
}

pub fn file_bb(f: u64) -> (r: u64)
    requires
        f < 8,
    ensures
        r == spec_file_bb(f),
{
    FILEA_BB << f
}

/// The rank of squares holding rank `r`.
pub open spec fn spec_rank_bb(rk: u64) -> u64 {
    RANK1_BB << (8 * rk)
}

pub fn rank_bb(rk: u64) -> (r: u64)
    requires
        rk < 8,
    ensures
        r == spec_rank_bb(rk),
{
    RANK1_BB << (8 * rk)
}

/// The two files beside file `f`.
pub open spec fn spec_adjacent_files_bb(f: u64) -> u64 {
    spec_shift_e(spec_file_bb(f)) | spec_shift_w(spec_file_bb(f))
}

pub fn adjacent_files_bb(f: u64) -> (r: u64)
    requires
        f < 8,
    ensures
        r == spec_adjacent_files_bb(f),
{
    let fb = file_bb(f);
    shift_e(fb) | shift_w(fb)
}

/// All squares on ranks strictly ahead of `s` from `c`'s point of view.
pub open spec fn spec_forward_ranks_bb(c: Color, s: Square) -> u64 {
    if c == Color::White {
        if s / 8 == 7 {
            0u64
        } else {
            ALL_SQUARES_BB << ((8 * (s / 8 + 1)) as u64)
        }
    } else {
        if s / 8 == 0 {
            0u64
        } else {
            ALL_SQUARES_BB >> ((8 * (8 - s / 8)) as u64)
        }
    }
}

pub fn forward_ranks_bb(c: Color, s: Square) -> (r: u64)
    requires
        s < 64,
    ensures
        r == spec_forward_ranks_bb(c, s),
{
    let rk: u64 = s / 8;
    match c {
        Color::White => {
            if rk == 7 {
                0
            } else {
                ALL_SQUARES_BB << (8 * (rk + 1))
            }
        },
        Color::Black => {
            if rk == 0 {
                0
            } else {
                ALL_SQUARES_BB >> (8 * (8 - rk))
            }
        },
    }
}

/// The squares of `s`'s file strictly ahead of `s` from `c`'s point of view.
pub open spec fn spec_forward_file_bb(c: Color, s: Square) -> u64 {
    spec_forward_ranks_bb(c, s) & spec_file_bb(s % 8)
}

pub fn forward_file_bb(c: Color, s: Square) -> (r: u64)
    requires
        s < 64,
    ensures
        r == spec_forward_file_bb(c, s),
{
    forward_ranks_bb(c, s) & file_bb(s % 8)
}

/// The squares a pawn of `c` on `s` could ever attack while advancing:
/// the adjacent files, strictly ahead of `s`.
pub open spec fn spec_pawn_attack_span(c: Color, s: Square) -> u64 {
    spec_forward_ranks_bb(c, s) & spec_adjacent_files_bb(s % 8)
}

pub fn pawn_attack_span(c: Color, s: Square) -> (r: u64)
    requires
        s < 64,
    ensures
        r == spec_pawn_attack_span(c, s),
{
    forward_ranks_bb(c, s) & adjacent_files_bb(s % 8)
}

/// The mask an enemy pawn must be outside of for a pawn of `c` on `s` to
/// be passed: own file and both adjacent files, strictly ahead.
pub open spec fn spec_passed_pawn_mask(c: Color, s: Square) -> u64 {
    spec_pawn_attack_span(c, s) | spec_forward_file_bb(c, s)
}

pub fn passed_pawn_mask(c: Color, s: Square) -> (r: u64)
    requires
        s < 64,
    ensures
        r == spec_passed_pawn_mask(c, s),
{
    pawn_attack_span(c, s) | forward_file_bb(c, s)
}

/// The two squares a pawn of color `c` on `s` attacks.
pub open spec fn spec_pawn_attacks(c: Color, s: Square) -> u64 {
    spec_shift_up_right(c, sq_bb(s)) | spec_shift_up_left(c, sq_bb(s))
}

pub fn pawn_attacks(c: Color, s: Square) -> (r: u64)
    requires
        s < 64,
    ensures
        r == spec_pawn_attacks(c, s),
{
    let b = bb_of(s);
    shift_up_right(c, b) | shift_up_left(c, b)
}

/// The knight's eight candidate destinations from `s`.
pub open spec fn spec_knight_attacks(s: Square) -> u64 {
    let b = sq_bb(s);
    spec_shift_e(spec_shift_ne(b)) | spec_shift_ne(spec_shift_n(b)) | spec_shift_nw(
        spec_shift_n(b),
    ) | spec_shift_w(spec_shift_nw(b)) | spec_shift_w(spec_shift_sw(b)) | spec_shift_sw(
        spec_shift_s(b),
    ) | spec_shift_se(spec_shift_s(b)) | spec_shift_e(spec_shift_se(b))
}

pub fn knight_attacks(s: Square) -> (r: u64)
    requires
        s < 64,
    ensures
        r == spec_knight_attacks(s),
{
    let b = bb_of(s);
    shift_e(shift_ne(b)) | shift_ne(shift_n(b)) | shift_nw(shift_n(b)) | shift_w(shift_nw(b))
        | shift_w(shift_sw(b)) | shift_sw(shift_s(b)) | shift_se(shift_s(b)) | shift_e(shift_se(b))
}

/// The king's eight neighbours of `s`.
pub open spec fn spec_king_attacks(s: Square) -> u64 {
    let b = sq_bb(s);
    spec_shift_n(b) | spec_shift_s(b) | spec_shift_e(b) | spec_shift_w(b) | spec_shift_ne(b)
        | spec_shift_nw(b) | spec_shift_se(b) | spec_shift_sw(b)
}

pub fn king_attacks(s: Square) -> (r: u64)
    requires
        s < 64,
    ensures
        r == spec_king_attacks(s),
{
    let b = bb_of(s);
    shift_n(b) | shift_s(b) | shift_e(b) | shift_w(b) | shift_ne(b) | shift_nw(b) | shift_se(b)
        | shift_sw(b)
}

/// The squares a slider on `(f, rk)` reaches stepping by `(df, dr)` over
/// occupancy `occ`: every empty square along the ray and the first
/// occupied one.
pub open spec fn spec_ray(f: int, rk: int, df: int, dr: int, occ: u64, fuel: nat) -> u64
    decreases fuel,
{
    if fuel == 0 {
        0u64
    } else {
        let nf = f + df;
        let nr = rk + dr;
        if !(0 <= nf < 8 && 0 <= nr < 8) {
            0u64
        } else {
            let sq = (nr * 8 + nf) as u64;
            if bit(occ, sq) {
                sq_bb(sq)
            } else {
                sq_bb(sq) | spec_ray(nf, nr, df, dr, occ, (fuel - 1) as nat)
            }
        }
    }
}

fn ray(f: i64, rk: i64, df: i64, dr: i64, occ: u64, fuel: u64) -> (r: u64)
    requires
        -1 <= f <= 8,
        -1 <= rk <= 8,
        -1 <= df <= 1,
        -1 <= dr <= 1,
        fuel <= 8,
    ensures
        r == spec_ray(f as int, rk as int, df as int, dr as int, occ, fuel as nat),
    decreases fuel,
{
    if fuel == 0 {
        0
    } else {
        let nf = f + df;
        let nr = rk + dr;
        if !(0 <= nf && nf < 8 && 0 <= nr && nr < 8) {
            0
        } else {
            let sq: u64 = (nr * 8 + nf) as u64;
            let sbb = bb_of(sq);
            proof {
                assert(occ & (1u64 << sq) != 0 <==> ((occ >> sq) & 1) == 1) by (bit_vector)
                    requires
                        sq < 64,
                ;
            }
            if occ & sbb != 0 {
                sbb
            } else {
                sbb | ray(nf, nr, df, dr, occ, fuel - 1)
            }
        }
    }
}

/// A bishop's attack set over occupancy `occ`.
pub open spec fn spec_bishop_attacks(s: Square, occ: u64) -> u64 {
    let f = (s % 8) as int;
    let rk = (s / 8) as int;
    spec_ray(f, rk, 1, 1, occ, 8) | spec_ray(f, rk, 1, -1, occ, 8) | spec_ray(f, rk, -1, 1, occ, 8)
        | spec_ray(f, rk, -1, -1, occ, 8)
}

pub fn bishop_attacks(s: Square, occ: u64) -> (r: u64)
    requires
        s < 64,
    ensures
        r == spec_bishop_attacks(s, occ),
{
    let f = (s % 8) as i64;
    let rk = (s / 8) as i64;
    ray(f, rk, 1, 1, occ, 8) | ray(f, rk, 1, -1, occ, 8) | ray(f, rk, -1, 1, occ, 8) | ray(
        f,
        rk,
        -1,
        -1,
        occ,
        8,
    )
}

/// A rook's attack set over occupancy `occ`.
pub open spec fn spec_rook_attacks(s: Square, occ: u64) -> u64 {
    let f = (s % 8) as int;
    let rk = (s / 8) as int;
    spec_ray(f, rk, 1, 0, occ, 8) | spec_ray(f, rk, -1, 0, occ, 8) | spec_ray(f, rk, 0, 1, occ, 8)
        | spec_ray(f, rk, 0, -1, occ, 8)
}

pub fn rook_attacks(s: Square, occ: u64) -> (r: u64)
    requires
        s < 64,
    ensures
        r == spec_rook_attacks(s, occ),
{
    let f = (s % 8) as i64;
    let rk = (s / 8) as i64;
    ray(f, rk, 1, 0, occ, 8) | ray(f, rk, -1, 0, occ, 8) | ray(f, rk, 0, 1, occ, 8) | ray(
        f,
        rk,
        0,
        -1,
        occ,
        8,
    )
}

/// Slider, knight or king attack sets over occupancy `occ`; a pawn has no
/// entry here (its attacks depend on its color).
pub open spec fn spec_attacks_bb(pt: PieceType, s: Square, occ: u64) -> u64 {
    match pt {
        PieceType::Knight => spec_knight_attacks(s),
        PieceType::Bishop => spec_bishop_attacks(s, occ),
        PieceType::Rook => spec_rook_attacks(s, occ),
        PieceType::Queen => spec_bishop_attacks(s, occ) | spec_rook_attacks(s, occ),
        PieceType::King => spec_king_attacks(s),
        PieceType::Pawn => 0u64,
    }
}

pub fn attacks_bb(pt: PieceType, s: Square, occ: u64) -> (r: u64)
    requires
        s < 64,
    ensures
        r == spec_attacks_bb(pt, s, occ),
{
    match pt {
        PieceType::Knight => knight_attacks(s),
        PieceType::Bishop => bishop_attacks(s, occ),
        PieceType::Rook => rook_attacks(s, occ),
        PieceType::Queen => bishop_attacks(s, occ) | rook_attacks(s, occ),
        PieceType::King => king_attacks(s),
        PieceType::Pawn => 0,
    }
}

/// The attack set of `pt` from `s` on an empty board.
pub open spec fn spec_pseudo_attacks(pt: PieceType, s: Square) -> u64 {
    spec_attacks_bb(pt, s, 0u64)
}

pub fn pseudo_attacks(pt: PieceType, s: Square) -> (r: u64)
    requires
        s < 64,
    ensures
        r == spec_pseudo_attacks(pt, s),
{
    attacks_bb(pt, s, 0)
}

/// The signed unit step of a coordinate difference.
pub open spec fn spec_sign(x: int) -> int {
    if x > 0 {
        1
    } else if x < 0 {
        -1
    } else {
        0
    }
}

fn sign(x: i64) -> (r: i64)
    requires
        -8 <= x <= 8,
    ensures
        r == spec_sign(x as int),
{
    if x > 0 {
        1
    } else if x < 0 {
        -1
    } else {
        0
    }
}

/// True iff `a` and `b` share a rank, a file or a diagonal.
pub open spec fn spec_same_line(a: Square, b: Square) -> bool {
    let fd = (b % 8) as int - (a % 8) as int;
    let rd = (b / 8) as int - (a / 8) as int;
    fd == 0 || rd == 0 || fd == rd || fd == -rd
}

/// The squares strictly between `a` and `b` when they share a line,
/// empty otherwise.
pub open spec fn spec_between_bb(a: Square, b: Square) -> u64 {
    if a == b || !spec_same_line(a, b) {
        0u64
    } else {
        let fd = (b % 8) as int - (a % 8) as int;
        let rd = (b / 8) as int - (a / 8) as int;
        spec_ray((a % 8) as int, (a / 8) as int, spec_sign(fd), spec_sign(rd), sq_bb(b), 8) & !sq_bb(
            b,
        )
    }
}

pub fn between_bb(a: Square, b: Square) -> (r: u64)
    requires
        a < 64,
        b < 64,
    ensures
        r == spec_between_bb(a, b),
{
    if a == b {
        return 0;
    }
    let fd: i64 = (b % 8) as i64 - (a % 8) as i64;
    let rd: i64 = (b / 8) as i64 - (a / 8) as i64;
    if !(fd == 0 || rd == 0 || fd == rd || fd == -rd) {
        return 0;
    }
    let w = ray((a % 8) as i64, (a / 8) as i64, sign(fd), sign(rd), bb_of(b), 8);
    w & !bb_of(b)
}

/// The full line through `a` and `b` (both ends to the board edge, `a`
/// and `b` themselves on it) when they share one, empty otherwise.
pub open spec fn spec_line_bb(a: Square, b: Square) -> u64 {
    if a == b || !spec_same_line(a, b) {
        0u64
    } else {
        let fd = (b % 8) as int - (a % 8) as int;
        let rd = (b / 8) as int - (a / 8) as int;
        spec_ray((a % 8) as int, (a / 8) as int, spec_sign(fd), spec_sign(rd), 0u64, 8) | spec_ray(
            (a % 8) as int,
            (a / 8) as int,
            -spec_sign(fd),
            -spec_sign(rd),
            0u64,
            8,
        ) | sq_bb(a)
    }
}

pub fn line_bb(a: Square, b: Square) -> (r: u64)
    requires
        a < 64,
        b < 64,
    ensures
        r == spec_line_bb(a, b),
{
    if a == b {
        return 0;
    }
    let fd: i64 = (b % 8) as i64 - (a % 8) as i64;
    let rd: i64 = (b / 8) as i64 - (a / 8) as i64;
    if !(fd == 0 || rd == 0 || fd == rd || fd == -rd) {
        return 0;
    }
    let sf = sign(fd);
    let sr = sign(rd);
    ray((a % 8) as i64, (a / 8) as i64, sf, sr, 0, 8) | ray(
        (a % 8) as i64,
        (a / 8) as i64,
        -sf,
        -sr,
        0,
        8,
    ) | bb_of(a)
}

/// True iff `c` lies on the line through `a` and `b`.
pub open spec fn spec_aligned(a: Square, b: Square, c: Square) -> bool {
    spec_line_bb(a, b) & sq_bb(c) != 0
}

pub fn aligned(a: Square, b: Square, c: Square) -> (r: bool)
    requires
        a < 64,
        b < 64,
        c < 64,
    ensures
        r == spec_aligned(a, b, c),
{
    line_bb(a, b) & bb_of(c) != 0
}

/// The Chebyshev distance of two squares: king steps from one to the other.
pub open spec fn spec_distance(a: Square, b: Square) -> int {
    let fd = if b % 8 >= a % 8 {
        b % 8 - a % 8
    } else {
        a % 8 - b % 8
    };
    let rd = if b / 8 >= a / 8 {
        b / 8 - a / 8
    } else {
        a / 8 - b / 8
    };
    if fd >= rd {
        fd
    } else {
        rd
    }
}

pub fn distance(a: Square, b: Square) -> (r: u64)
    requires
        a < 64,
        b < 64,
    ensures
        r == spec_distance(a, b),
        r < 8,
{
    let fd: u64 = if b % 8 >= a % 8 {
        b % 8 - a % 8
    } else {
        a % 8 - b % 8
    };
    let rd: u64 = if b / 8 >= a / 8 {
        b / 8 - a / 8
    } else {
        a / 8 - b / 8
    };
    if fd >= rd {
        fd
    } else {
        rd
    }
}

/// The squares whose distance from `s` is exactly `d + 1`, restricted to
/// squares below `n`.
pub open spec fn spec_ring_upto(s: Square, d: int, n: nat) -> u64
    decreases n,
{
    if n == 0 {
        0u64
    } else {
        let t = (n - 1) as u64;
        if spec_distance(s, t) == d + 1 {
            spec_ring_upto(s, d, (n - 1) as nat) | sq_bb(t)
        } else {
            spec_ring_upto(s, d, (n - 1) as nat)
        }
    }
}

/// The squares whose distance from `s` is exactly `d + 1`.
pub open spec fn spec_distance_ring(s: Square, d: int) -> u64 {
    spec_ring_upto(s, d, 64)
}

pub fn distance_ring_bb(s: Square, d: u64) -> (r: u64)
    requires
        s < 64,
        d < 8,
    ensures
        r == spec_distance_ring(s, d as int),
{
    let mut acc: u64 = 0;
    let mut t: u64 = 0;
    while t < 64
        invariant
            t <= 64,
            s < 64,
            d < 8,
            acc == spec_ring_upto(s, d as int, t as nat),
        decreases 64 - t,
    {
        if distance(s, t) == d + 1 {
            acc = acc | bb_of(t);
        }
        t = t + 1;
    }
    acc
}

/// The farthest-advanced square of `c` in `b`, from `c`'s own point of
/// view: the highest set bit for white, the lowest for black.
pub open spec fn spec_frontmost_sq(c: Color, b: u64) -> u64 {
    if c == Color::White {
        (63 - vstd::std_specs::bits::u64_leading_zeros(b)) as u64
    } else {
        vstd::std_specs::bits::u64_trailing_zeros(b) as u64
    }
}

/// The least-advanced square of `c` in `b` from `c`'s own point of view.
pub open spec fn spec_backmost_sq(c: Color, b: u64) -> u64 {
    if c == Color::White {
        vstd::std_specs::bits::u64_trailing_zeros(b) as u64
    } else {
        (63 - vstd::std_specs::bits::u64_leading_zeros(b)) as u64
    }
}

pub fn frontmost_sq(c: Color, b: u64) -> (r: u64)
    requires
        b != 0,
    ensures
        r == spec_frontmost_sq(c, b),
        bit(b, r),
        r < 64,
        c == Color::White ==> forall|i: u64| r < i < 64 ==> !bit(b, i),
        c == Color::Black ==> forall|i: u64| i < r ==> !bit(b, i),
{
    proof {
        vstd::std_specs::bits::axiom_u64_leading_zeros(b);
    }
    match c {
        Color::White => crate::bits::msb(b),
        Color::Black => {
            proof {
                vstd::std_specs::bits::axiom_u64_trailing_zeros(b);
            }
            crate::bits::lsb(b)
        },
    }
}

pub fn backmost_sq(c: Color, b: u64) -> (r: u64)
    requires
        b != 0,
    ensures
        r == spec_backmost_sq(c, b),
        bit(b, r),
        r < 64,
        c == Color::White ==> forall|i: u64| i < r ==> !bit(b, i),
        c == Color::Black ==> forall|i: u64| r < i < 64 ==> !bit(b, i),
{
    proof {
        vstd::std_specs::bits::axiom_u64_leading_zeros(b);
    }
    match c {
        Color::White => {
            proof {
                vstd::std_specs::bits::axiom_u64_trailing_zeros(b);
            }
            crate::bits::lsb(b)
        },
        Color::Black => crate::bits::msb(b),
    }
}

} // verus!
