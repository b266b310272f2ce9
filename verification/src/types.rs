use vstd::prelude::*;

verus! {

/// A bitboard is a set of squares: bit `i` is set iff square `i` is in the set.
pub type Bitboard = u64;

/// A square is an integer in `0..64`; `SQ_NONE` (64) stands for "no square".
pub type Square = u64;

/// A move packed into 16 bits: bits 0-5 the origin square, bits 6-11 the
/// destination square, bits 12-13 the move type, bits 14-15 the promotion
/// piece (counted from knight), meaningful only for promotions.
pub type Move = u16;

pub const SQ_NONE: u64 = 64;

pub const MOVE_NONE: u16 = 0;

/// Move types, stored in bits 12-13 of a `Move`.
pub const NORMAL: u16 = 0;

pub const PROMOTION: u16 = 1;

pub const ENPASSANT: u16 = 2;

pub const CASTLING: u16 = 3;

/// Castling rights, one bit each, packed into a `u8` mask.
pub const WHITE_OO: u8 = 1;

pub const WHITE_OOO: u8 = 2;

pub const BLACK_OO: u8 = 4;

pub const BLACK_OOO: u8 = 8;

#[derive(Clone, Copy, PartialEq, Eq, Structural, Debug)]
pub enum Color {
    White,
    Black,
}

impl Color {
    pub open spec fn spec_flip(self) -> Color {
        if self == Color::White {
            Color::Black
        } else {
            Color::White
        }
    }

    pub fn flip(self) -> (r: Color)
        ensures
            r == self.spec_flip(),
    {
        match self {
            Color::White => Color::Black,
            Color::Black => Color::White,
        }
    }
}

#[derive(Clone, Copy, PartialEq, Eq, Structural, Debug)]
pub enum PieceType {
    Pawn,
    Knight,
    Bishop,
    Rook,
    Queen,
    King,
}

/// The file (column) of a square, in `0..8`.
pub open spec fn spec_file_of(s: Square) -> u64 {
    s % 8
}

pub fn file_of(s: Square) -> (r: u64)
    requires
        s < 64,
    ensures
        r == spec_file_of(s),
        r < 8,
{
    s % 8
}

/// The rank (row) of a square, in `0..8`; rank 0 is white's back rank.
pub open spec fn spec_rank_of(s: Square) -> u64 {
    s / 8
}

pub fn rank_of(s: Square) -> (r: u64)
    requires
        s < 64,
    ensures
        r == spec_rank_of(s),
        r < 8,
{
    s / 8
}

/// The rank of `s` as seen from side `c`: white ranks count from white's
/// back rank, black ranks from black's.
pub open spec fn spec_relative_rank(c: Color, s: Square) -> u64 {
    if c == Color::White {
        spec_rank_of(s)
    } else {
        (7 - spec_rank_of(s)) as u64
    }
}

pub fn relative_rank(c: Color, s: Square) -> (r: u64)
    requires
        s < 64,
    ensures
        r == spec_relative_rank(c, s),
        r < 8,
{
    match c {
        Color::White => s / 8,
        Color::Black => 7 - s / 8,
    }
}

/// The square that plays for side `c` the role `s` plays for white: the
/// board flipped across the middle of the ranks.
pub open spec fn spec_relative_square(c: Color, s: Square) -> u64 {
    if c == Color::White {
        s
    } else {
        (8 * (7 - spec_rank_of(s)) + spec_file_of(s)) as u64
    }
}

pub fn relative_square(c: Color, s: Square) -> (r: u64)
    requires
        s < 64,
    ensures
        r == spec_relative_square(c, s),
        r < 64,
{
    match c {
        Color::White => s,
        Color::Black => 8 * (7 - s / 8) + s % 8,
    }
}

/// The origin square of a move.
pub open spec fn spec_move_from(m: Move) -> u64 {
    (m & 0x3f) as u64
}

pub fn move_from(m: Move) -> (r: u64)
    ensures
        r == spec_move_from(m),
        r < 64,
{
    proof {
        assert((m & 0x3f) < 64) by (bit_vector);
    }
    (m & 0x3f) as u64
}

/// The destination square of a move.
pub open spec fn spec_move_to(m: Move) -> u64 {
    ((m >> 6) & 0x3f) as u64
}

pub fn move_to(m: Move) -> (r: u64)
    ensures
        r == spec_move_to(m),
        r < 64,
{
    proof {
        assert(((m >> 6) & 0x3f) < 64) by (bit_vector);
    }
    ((m >> 6) & 0x3f) as u64
}

/// The move type: `NORMAL`, `PROMOTION`, `ENPASSANT` or `CASTLING`.
pub open spec fn spec_move_type(m: Move) -> u16 {
    (m >> 12) & 3
}

pub fn move_type(m: Move) -> (r: u16)
    ensures
        r == spec_move_type(m),
        r <= 3,
{
    proof {
        assert(((m >> 12) & 3) <= 3) by (bit_vector);
    }
    (m >> 12) & 3
}

pub open spec fn promo_code(pt: PieceType) -> u16 {
    match pt {
        PieceType::Knight => 0,
        PieceType::Bishop => 1,
        PieceType::Rook => 2,
        _ => 3,
    }
}

/// The piece a promotion move promotes to.
pub open spec fn spec_promotion_type(m: Move) -> PieceType {
    match (m >> 14) & 3 {
        0u16 => PieceType::Knight,
        1u16 => PieceType::Bishop,
        2u16 => PieceType::Rook,
        _ => PieceType::Queen,
    }
}

pub fn promotion_type(m: Move) -> (r: PieceType)
    ensures
        r == spec_promotion_type(m),
{
    proof {
        assert(((m >> 14) & 3) <= 3) by (bit_vector);
    }
    match (m >> 14) & 3 {
        0u16 => PieceType::Knight,
        1u16 => PieceType::Bishop,
        2u16 => PieceType::Rook,
        _ => PieceType::Queen,
    }
}

/// A normal move from `from` to `to`.
pub open spec fn spec_move_make(from: Square, to: Square) -> Move {
    (from as u16) | ((to as u16) << 6)
}

pub fn move_make(from: Square, to: Square) -> (r: Move)
    requires
        from < 64,
        to < 64,
    ensures
        r == spec_move_make(from, to),
{
    (from as u16) | ((to as u16) << 6)
}

/// A special move (`PROMOTION`, `ENPASSANT` or `CASTLING`); a castling move
/// carries the rook's origin square as `to`.
pub open spec fn spec_move_make_special(tp: u16, from: Square, to: Square) -> Move {
    (from as u16) | ((to as u16) << 6) | (tp << 12)
}

pub fn move_make_special(tp: u16, from: Square, to: Square) -> (r: Move)
    requires
        tp <= 3,
        from < 64,
        to < 64,
    ensures
        r == spec_move_make_special(tp, from, to),
{
    (from as u16) | ((to as u16) << 6) | (tp << 12)
}

/// A promotion move from `from` to `to` promoting to `pt`.
pub open spec fn spec_move_make_prom(from: Square, to: Square, pt: PieceType) -> Move {
    (from as u16) | ((to as u16) << 6) | (1u16 << 12) | (promo_code(pt) << 14)
}

pub fn move_make_prom(from: Square, to: Square, pt: PieceType) -> (r: Move)
    requires
        from < 64,
        to < 64,
    ensures
        r == spec_move_make_prom(from, to, pt),
{
    let code: u16 = match pt {
        PieceType::Knight => 0,
        PieceType::Bishop => 1,
        PieceType::Rook => 2,
        _ => 3,
    };
    (from as u16) | ((to as u16) << 6) | (1u16 << 12) | (code << 14)
}

/// The move encoding round trips: the fields of a packed move are the
/// values it was packed from.
pub proof fn lemma_move_encoding(from: Square, to: Square, tp: u16, pt: PieceType)
    requires
        from < 64,
        to < 64,
        tp <= 3,
        pt != PieceType::Pawn,
        pt != PieceType::King,
    ensures
        spec_move_from(spec_move_make(from, to)) == from,
        spec_move_to(spec_move_make(from, to)) == to,
        spec_move_type(spec_move_make(from, to)) == NORMAL,
        spec_move_from(spec_move_make_special(tp, from, to)) == from,
        spec_move_to(spec_move_make_special(tp, from, to)) == to,
        spec_move_type(spec_move_make_special(tp, from, to)) == tp,
        spec_move_from(spec_move_make_prom(from, to, pt)) == from,
        spec_move_to(spec_move_make_prom(from, to, pt)) == to,
        spec_move_type(spec_move_make_prom(from, to, pt)) == PROMOTION,
        spec_promotion_type(spec_move_make_prom(from, to, pt)) == pt,
{
    let fr = from as u16;
    let td = to as u16;
    let code = promo_code(pt);
    assert(fr < 64 && td < 64 && code <= 3) by {
        assert(promo_code(pt) <= 3);
    }
    assert(((fr | (td << 6)) & 0x3f) == fr && (((fr | (td << 6)) >> 6) & 0x3f) == td
        && (((fr | (td << 6)) >> 12) & 3) == 0) by (bit_vector)
        requires
            fr < 64 && td < 64,
    ;
    let ms = fr | (td << 6) | (tp << 12);
    assert((ms & 0x3f) == fr && ((ms >> 6) & 0x3f) == td && ((ms >> 12) & 3) == tp)
        by (bit_vector)
        requires
            fr < 64 && td < 64 && tp <= 3 && ms == (fr | (td << 6) | (tp << 12)),
    ;
    let mp = fr | (td << 6) | (1u16 << 12) | (code << 14);
    assert((mp & 0x3f) == fr && ((mp >> 6) & 0x3f) == td && ((mp >> 12) & 3) == 1
        && ((mp >> 14) & 3) == code) by (bit_vector)
        requires
            fr < 64 && td < 64 && code <= 3 && mp == (fr | (td << 6) | (1u16 << 12) | (
            code << 14)),
    ;
}

} // verus!
