use vstd::prelude::*;
use crate::bitboard::bb_of;
use crate::bitboard::between_bb;
use crate::bitboard::bishop_attacks;
use crate::bitboard::king_attacks;
use crate::bitboard::knight_attacks;
use crate::bitboard::pawn_attacks;
use crate::bitboard::pseudo_attacks;
use crate::bitboard::rook_attacks;
use crate::bitboard::spec_between_bb;
use crate::bitboard::spec_bishop_attacks;
use crate::bitboard::spec_king_attacks;
use crate::bitboard::spec_knight_attacks;
use crate::bitboard::spec_pawn_attacks;
use crate::bitboard::spec_pseudo_attacks;
use crate::bitboard::spec_rook_attacks;
use crate::bitboard::sq_bb;
use crate::bitboard::RANK1_BB;
use crate::bitboard::RANK8_BB;
use crate::bitboard::aligned;
use crate::bitboard::attacks_bb;
use crate::bitboard::spec_aligned;
use crate::bitboard::spec_attacks_bb;
use crate::types::move_from;
use crate::types::move_to;
use crate::types::move_type;
use crate::types::promotion_type;
use crate::types::relative_square;
use crate::types::spec_move_from;
use crate::types::spec_move_to;
use crate::types::spec_move_type;
use crate::types::spec_promotion_type;
use crate::types::spec_relative_square;
use crate::types::Move;
use crate::types::CASTLING;
use crate::types::ENPASSANT;
use crate::types::NORMAL;
use crate::types::PROMOTION;
use crate::bits::bit;
use crate::bits::bits;
use crate::bits::lsb;
use crate::types::spec_relative_rank;
use crate::types::Color;
use crate::types::PieceType;
use crate::types::Square;
use crate::types::BLACK_OO;
use crate::types::BLACK_OOO;
use crate::types::SQ_NONE;
use crate::types::WHITE_OO;
use crate::types::WHITE_OOO;

verus! {

/// A chess position, held as one bitboard per color and piece type plus
/// the side to move, the castling state and the en-passant square. This is
/// the read-only query interface the move generator and the pawn evaluator
/// consume.
pub struct Position {
    pub side: Color,
    pub w_pawns: u64,
    pub w_knights: u64,
    pub w_bishops: u64,
    pub w_rooks: u64,
    pub w_queens: u64,
    pub w_king: u64,
    pub b_pawns: u64,
    pub b_knights: u64,
    pub b_bishops: u64,
    pub b_rooks: u64,
    pub b_queens: u64,
    pub b_king: u64,
    /// Mask of `WHITE_OO | WHITE_OOO | BLACK_OO | BLACK_OOO` bits.
    pub castle: u8,
    /// Rook origin squares for the four castling rights; `SQ_NONE` if unset.
    pub rook_wk: u64,
    pub rook_wq: u64,
    pub rook_bk: u64,
    pub rook_bq: u64,
    /// En-passant capture square, `SQ_NONE` when none.
    pub ep: u64,
    pub chess960: bool,
}

impl Position {
    /// The twelve piece boards in a fixed order.
    pub open spec fn board_seq(self) -> Seq<u64> {
        seq![
            self.w_pawns,
            self.w_knights,
            self.w_bishops,
            self.w_rooks,
            self.w_queens,
            self.w_king,
            self.b_pawns,
            self.b_knights,
            self.b_bishops,
            self.b_rooks,
            self.b_queens,
            self.b_king,
        ]
    }

    pub open spec fn spec_pieces_cp(self, c: Color, pt: PieceType) -> u64 {
        if c == Color::White {
            match pt {
                PieceType::Pawn => self.w_pawns,
                PieceType::Knight => self.w_knights,
                PieceType::Bishop => self.w_bishops,
                PieceType::Rook => self.w_rooks,
                PieceType::Queen => self.w_queens,
                PieceType::King => self.w_king,
            }
        } else {
            match pt {
                PieceType::Pawn => self.b_pawns,
                PieceType::Knight => self.b_knights,
                PieceType::Bishop => self.b_bishops,
                PieceType::Rook => self.b_rooks,
                PieceType::Queen => self.b_queens,
                PieceType::King => self.b_king,
            }
        }
    }

    pub open spec fn spec_pieces_c(self, c: Color) -> u64 {
        if c == Color::White {
            self.w_pawns | self.w_knights | self.w_bishops | self.w_rooks | self.w_queens
                | self.w_king
        } else {
            self.b_pawns | self.b_knights | self.b_bishops | self.b_rooks | self.b_queens
                | self.b_king
        }
    }

    pub open spec fn spec_pieces(self) -> u64 {
        self.spec_pieces_c(Color::White) | self.spec_pieces_c(Color::Black)
    }

    pub open spec fn spec_pieces_p(self, pt: PieceType) -> u64 {
        self.spec_pieces_cp(Color::White, pt) | self.spec_pieces_cp(Color::Black, pt)
    }

    pub open spec fn spec_king_square(self, c: Color) -> u64 {
        vstd::std_specs::bits::u64_trailing_zeros(self.spec_pieces_cp(c, PieceType::King)) as u64
    }

    /// The well-formedness the generator and the evaluator rely on: the
    /// twelve boards are pairwise disjoint, each side has exactly one king,
    /// no pawn stands on a back rank, an en-passant square lies on the
    /// relative sixth rank, and each castling right names a rook of its
    /// color on the back rank the king also stands on.
    pub open spec fn wf(self) -> bool {
        &&& forall|i: int, j: int|
            0 <= i < j < 12 ==> (#[trigger] self.board_seq()[i]) & (#[trigger] self.board_seq()[j])
                == 0
        &&& self.w_king != 0
        &&& self.w_king & ((self.w_king - 1) as u64) == 0
        &&& self.b_king != 0
        &&& self.b_king & ((self.b_king - 1) as u64) == 0
        &&& (self.w_pawns | self.b_pawns) & (RANK1_BB | RANK8_BB) == 0
        &&& (self.ep == SQ_NONE || (self.ep < 64 && spec_relative_rank(self.side, self.ep) == 5))
        &&& (self.castle & WHITE_OO != 0 ==> self.rook_wk < 64 && bit(self.w_rooks, self.rook_wk)
            && self.rook_wk / 8 == 0 && self.spec_king_square(Color::White) / 8 == 0)
        &&& (self.castle & WHITE_OOO != 0 ==> self.rook_wq < 64 && bit(self.w_rooks, self.rook_wq)
            && self.rook_wq / 8 == 0 && self.spec_king_square(Color::White) / 8 == 0)
        &&& (self.castle & BLACK_OO != 0 ==> self.rook_bk < 64 && bit(self.b_rooks, self.rook_bk)
            && self.rook_bk / 8 == 7 && self.spec_king_square(Color::Black) / 8 == 7)
        &&& (self.castle & BLACK_OOO != 0 ==> self.rook_bq < 64 && bit(self.b_rooks, self.rook_bq)
            && self.rook_bq / 8 == 7 && self.spec_king_square(Color::Black) / 8 == 7)
    }

    /// The side to move.
    pub fn side_to_move(&self) -> (r: Color)
        ensures
            r == self.side,
    {
        self.side
    }

    /// All occupied squares.
    pub fn pieces(&self) -> (r: u64)
        ensures
            r == self.spec_pieces(),
    {
        self.pieces_c(Color::White) | self.pieces_c(Color::Black)
    }

    /// The squares occupied by side `c`.
    pub fn pieces_c(&self, c: Color) -> (r: u64)
        ensures
            r == self.spec_pieces_c(c),
    {
        match c {
            Color::White => self.w_pawns | self.w_knights | self.w_bishops | self.w_rooks
                | self.w_queens | self.w_king,
            Color::Black => self.b_pawns | self.b_knights | self.b_bishops | self.b_rooks
                | self.b_queens | self.b_king,
        }
    }

    /// The squares occupied by pieces of type `pt`, either color.
    pub fn pieces_p(&self, pt: PieceType) -> (r: u64)
        ensures
            r == self.spec_pieces_p(pt),
    {
        self.pieces_cp(Color::White, pt) | self.pieces_cp(Color::Black, pt)
    }

    /// The squares occupied by pieces of type `pt1` or `pt2`, either color.
    pub fn pieces_pp(&self, pt1: PieceType, pt2: PieceType) -> (r: u64)
        ensures
            r == self.spec_pieces_p(pt1) | self.spec_pieces_p(pt2),
    {
        self.pieces_p(pt1) | self.pieces_p(pt2)
    }

    /// The squares occupied by pieces of color `c` and type `pt`.
    pub fn pieces_cp(&self, c: Color, pt: PieceType) -> (r: u64)
        ensures
            r == self.spec_pieces_cp(c, pt),
    {
        match c {
            Color::White => match pt {
                PieceType::Pawn => self.w_pawns,
                PieceType::Knight => self.w_knights,
                PieceType::Bishop => self.w_bishops,
                PieceType::Rook => self.w_rooks,
                PieceType::Queen => self.w_queens,
                PieceType::King => self.w_king,
            },
            Color::Black => match pt {
                PieceType::Pawn => self.b_pawns,
                PieceType::Knight => self.b_knights,
                PieceType::Bishop => self.b_bishops,
                PieceType::Rook => self.b_rooks,
                PieceType::Queen => self.b_queens,
                PieceType::King => self.b_king,
            },
        }
    }

    /// The squares of `c`'s pieces of type `pt1` or `pt2`.
    pub fn pieces_cpp(&self, c: Color, pt1: PieceType, pt2: PieceType) -> (r: u64)
        ensures
            r == self.spec_pieces_cp(c, pt1) | self.spec_pieces_cp(c, pt2),
    {
        self.pieces_cp(c, pt1) | self.pieces_cp(c, pt2)
    }

    /// The square of `c`'s king.
    pub fn king_square(&self, c: Color) -> (r: u64)
        requires
            self.wf(),
        ensures
            r == self.spec_king_square(c),
            r < 64,
            bit(self.spec_pieces_cp(c, PieceType::King), r),
    {
        match c {
            Color::White => lsb(self.w_king),
            Color::Black => lsb(self.b_king),
        }
    }

    /// The en-passant square, `SQ_NONE` when there is none.
    pub fn ep_square(&self) -> (r: u64)
        ensures
            r == self.ep,
    {
        self.ep
    }

    pub fn is_chess960(&self) -> (r: bool)
        ensures
            r == self.chess960,
    {
        self.chess960
    }

    /// The castling-rights bits of side `c`.
    pub open spec fn spec_castling_rights(self, c: Color) -> u8 {
        if c == Color::White {
            self.castle & (WHITE_OO | WHITE_OOO)
        } else {
            self.castle & (BLACK_OO | BLACK_OOO)
        }
    }

    pub fn castling_rights(&self, c: Color) -> (r: u8)
        ensures
            r == self.spec_castling_rights(c),
    {
        match c {
            Color::White => self.castle & (WHITE_OO | WHITE_OOO),
            Color::Black => self.castle & (BLACK_OO | BLACK_OOO),
        }
    }

    pub fn has_castling_right(&self, cr: u8) -> (r: bool)
        ensures
            r == (self.castle & cr != 0),
    {
        self.castle & cr != 0
    }

    pub fn can_castle(&self, c: Color) -> (r: bool)
        ensures
            r == (self.spec_castling_rights(c) != 0),
    {
        self.castling_rights(c) != 0
    }

    /// The rook origin square of single castling right `cr`.
    pub open spec fn spec_castling_rook_square(self, cr: u8) -> u64 {
        if cr == WHITE_OO {
            self.rook_wk
        } else if cr == WHITE_OOO {
            self.rook_wq
        } else if cr == BLACK_OO {
            self.rook_bk
        } else {
            self.rook_bq
        }
    }

    pub fn castling_rook_square(&self, cr: u8) -> (r: u64)
        requires
            cr == WHITE_OO || cr == WHITE_OOO || cr == BLACK_OO || cr == BLACK_OOO,
        ensures
            r == self.spec_castling_rook_square(cr),
    {
        if cr == WHITE_OO {
            self.rook_wk
        } else if cr == WHITE_OOO {
            self.rook_wq
        } else if cr == BLACK_OO {
            self.rook_bk
        } else {
            self.rook_bq
        }
    }

    /// The piece type standing on `s`, if any.
    pub open spec fn spec_piece_type_on(self, s: Square) -> Option<PieceType> {
        if bit(self.w_pawns | self.b_pawns, s) {
            Some(PieceType::Pawn)
        } else if bit(self.w_knights | self.b_knights, s) {
            Some(PieceType::Knight)
        } else if bit(self.w_bishops | self.b_bishops, s) {
            Some(PieceType::Bishop)
        } else if bit(self.w_rooks | self.b_rooks, s) {
            Some(PieceType::Rook)
        } else if bit(self.w_queens | self.b_queens, s) {
            Some(PieceType::Queen)
        } else if bit(self.w_king | self.b_king, s) {
            Some(PieceType::King)
        } else {
            None
        }
    }

    pub fn piece_type_on(&self, s: Square) -> (r: Option<PieceType>)
        requires
            s < 64,
        ensures
            r == self.spec_piece_type_on(s),
    {
        proof {
            lemma_test_bit();
        }
        let m = bb_of(s);
        if (self.w_pawns | self.b_pawns) & m != 0 {
            Some(PieceType::Pawn)
        } else if (self.w_knights | self.b_knights) & m != 0 {
            Some(PieceType::Knight)
        } else if (self.w_bishops | self.b_bishops) & m != 0 {
            Some(PieceType::Bishop)
        } else if (self.w_rooks | self.b_rooks) & m != 0 {
            Some(PieceType::Rook)
        } else if (self.w_queens | self.b_queens) & m != 0 {
            Some(PieceType::Queen)
        } else if (self.w_king | self.b_king) & m != 0 {
            Some(PieceType::King)
        } else {
            None
        }
    }
}

/// Testing a bit by masking with its one-square board is testing the bit.
pub proof fn lemma_test_bit()
    by (bit_vector)
    ensures
        forall|b: u64, s: u64|
            s < 64 ==> (#[trigger] (b & (1u64 << s)) != 0 <==> ((b >> s) & 1) == 1),
{
}

impl Position {
    /// An empty board: white to move, no pieces, no rights.
    pub fn empty() -> (r: Position)
        ensures
            r.side == Color::White,
            r.spec_pieces() == 0,
            r.castle == 0,
            r.ep == SQ_NONE,
            r.chess960 == false,
            r.board_seq() =~= seq![0u64, 0, 0, 0, 0, 0, 0, 0, 0, 0, 0, 0],
    {
        proof {
            assert(0u64 | 0u64 == 0u64) by (bit_vector);
        }
        Position {
            side: Color::White,
            w_pawns: 0,
            w_knights: 0,
            w_bishops: 0,
            w_rooks: 0,
            w_queens: 0,
            w_king: 0,
            b_pawns: 0,
            b_knights: 0,
            b_bishops: 0,
            b_rooks: 0,
            b_queens: 0,
            b_king: 0,
            castle: 0,
            rook_wk: SQ_NONE,
            rook_wq: SQ_NONE,
            rook_bk: SQ_NONE,
            rook_bq: SQ_NONE,
            ep: SQ_NONE,
            chess960: false,
        }
    }

    /// Puts a piece of color `c` and type `pt` on the empty square `s`.
    pub fn put_piece(&mut self, c: Color, pt: PieceType, s: Square)
        requires
            s < 64,
            !bit(old(self).spec_pieces(), s),
        ensures
            final(self).spec_pieces_cp(c, pt) == old(self).spec_pieces_cp(c, pt) | sq_bb(s),
            forall|c2: Color, p2: PieceType|
                !(c2 == c && p2 == pt) ==> #[trigger] final(self).spec_pieces_cp(c2, p2) == old(
                    self,
                ).spec_pieces_cp(c2, p2),
            final(self).side == old(self).side,
            final(self).castle == old(self).castle,
            final(self).ep == old(self).ep,
            final(self).chess960 == old(self).chess960,
            final(self).rook_wk == old(self).rook_wk,
            final(self).rook_wq == old(self).rook_wq,
            final(self).rook_bk == old(self).rook_bk,
            final(self).rook_bq == old(self).rook_bq,
    {
        let m = bb_of(s);
        match (c, pt) {
            (Color::White, PieceType::Pawn) => {
                self.w_pawns = self.w_pawns | m;
            },
            (Color::White, PieceType::Knight) => {
                self.w_knights = self.w_knights | m;
            },
            (Color::White, PieceType::Bishop) => {
                self.w_bishops = self.w_bishops | m;
            },
            (Color::White, PieceType::Rook) => {
                self.w_rooks = self.w_rooks | m;
            },
            (Color::White, PieceType::Queen) => {
                self.w_queens = self.w_queens | m;
            },
            (Color::White, PieceType::King) => {
                self.w_king = self.w_king | m;
            },
            (Color::Black, PieceType::Pawn) => {
                self.b_pawns = self.b_pawns | m;
            },
            (Color::Black, PieceType::Knight) => {
                self.b_knights = self.b_knights | m;
            },
            (Color::Black, PieceType::Bishop) => {
                self.b_bishops = self.b_bishops | m;
            },
            (Color::Black, PieceType::Rook) => {
                self.b_rooks = self.b_rooks | m;
            },
            (Color::Black, PieceType::Queen) => {
                self.b_queens = self.b_queens | m;
            },
            (Color::Black, PieceType::King) => {
                self.b_king = self.b_king | m;
            },
        }
    }
}

} // verus!

verus! {

impl Position {
    /// Every piece of either color that attacks `s` over occupancy `occ`.
    pub open spec fn spec_attackers_to_occ(self, s: Square, occ: u64) -> u64 {
        (spec_pawn_attacks(Color::Black, s) & self.w_pawns) | (spec_pawn_attacks(Color::White, s)
            & self.b_pawns) | (spec_knight_attacks(s) & self.spec_pieces_p(PieceType::Knight)) | (
        spec_king_attacks(s) & self.spec_pieces_p(PieceType::King)) | (spec_bishop_attacks(s, occ)
            & (self.spec_pieces_p(PieceType::Bishop) | self.spec_pieces_p(PieceType::Queen))) | (
        spec_rook_attacks(s, occ) & (self.spec_pieces_p(PieceType::Rook) | self.spec_pieces_p(
            PieceType::Queen,
        )))
    }

    pub fn attackers_to_occ(&self, s: Square, occ: u64) -> (r: u64)
        requires
            s < 64,
        ensures
            r == self.spec_attackers_to_occ(s, occ),
    {
        (pawn_attacks(Color::Black, s) & self.w_pawns) | (pawn_attacks(Color::White, s)
            & self.b_pawns) | (knight_attacks(s) & self.pieces_p(PieceType::Knight)) | (
        king_attacks(s) & self.pieces_p(PieceType::King)) | (bishop_attacks(s, occ) & (
        self.pieces_p(PieceType::Bishop) | self.pieces_p(PieceType::Queen))) | (rook_attacks(s, occ)
            & (self.pieces_p(PieceType::Rook) | self.pieces_p(PieceType::Queen)))
    }

    pub open spec fn spec_attackers_to(self, s: Square) -> u64 {
        self.spec_attackers_to_occ(s, self.spec_pieces())
    }

    /// Every piece of either color that attacks `s` on the current board.
    pub fn attackers_to(&self, s: Square) -> (r: u64)
        requires
            s < 64,
        ensures
            r == self.spec_attackers_to(s),
    {
        self.attackers_to_occ(s, self.pieces())
    }

    pub open spec fn spec_checkers(self) -> u64 {
        self.spec_attackers_to(self.spec_king_square(self.side)) & self.spec_pieces_c(
            self.side.spec_flip(),
        )
    }

    /// The enemy pieces now giving check to the side to move.
    pub fn checkers(&self) -> (r: u64)
        requires
            self.wf(),
        ensures
            r == self.spec_checkers(),
    {
        self.attackers_to(self.king_square(self.side)) & self.pieces_c(self.side.flip())
    }

    /// The sniper sliders of `sliders` whose empty-board attack reaches `s`.
    pub open spec fn spec_snipers(self, sliders: u64, s: Square) -> u64 {
        ((spec_pseudo_attacks(PieceType::Rook, s) & (self.spec_pieces_p(PieceType::Rook)
            | self.spec_pieces_p(PieceType::Queen))) | (spec_pseudo_attacks(PieceType::Bishop, s) & (
        self.spec_pieces_p(PieceType::Bishop) | self.spec_pieces_p(PieceType::Queen)))) & sliders
    }

    /// The blockers contributed by each sniper in `sn`: the piece standing
    /// alone between a sniper and `s`, over all snipers.
    pub open spec fn spec_blockers_rec(self, sn: u64, s: Square) -> u64
        decreases sn,
        when sn >= 0
        via Position::blockers_rec_decreases
    {
        if sn == 0 {
            0u64
        } else {
            let t = vstd::std_specs::bits::u64_trailing_zeros(sn) as u64;
            let b = spec_between_bb(s, t) & self.spec_pieces();
            (if b != 0 && bits(b).len() < 2 {
                b
            } else {
                0u64
            }) | self.spec_blockers_rec(sn & ((sn - 1) as u64), s)
        }
    }

    #[via_fn]
    proof fn blockers_rec_decreases(self, sn: u64, s: Square) {
        assert(sn != 0 ==> sn & ((sn - 1) as u64) < sn) by (bit_vector);
    }

    fn blockers_walk(&self, sn: u64, s: Square) -> (r: u64)
        requires
            s < 64,
        ensures
            r == self.spec_blockers_rec(sn, s),
        decreases sn,
    {
        if sn == 0 {
            0
        } else {
            let t = lsb(sn);
            let b = between_bb(s, t) & self.pieces();
            let head: u64 = if b != 0 && !crate::bits::more_than_one(b) {
                b
            } else {
                0
            };
            proof {
                assert(sn != 0 ==> sn & ((sn - 1) as u64) < sn) by (bit_vector);
            }
            head | self.blockers_walk(sn & (sn - 1), s)
        }
    }

    pub open spec fn spec_slider_blockers(self, sliders: u64, s: Square) -> u64 {
        self.spec_blockers_rec(self.spec_snipers(sliders, s), s)
    }

    /// The pieces (of either color) that alone shield `s` from a slider
    /// among `sliders`.
    pub fn slider_blockers(&self, sliders: u64, s: Square) -> (r: u64)
        requires
            s < 64,
        ensures
            r == self.spec_slider_blockers(sliders, s),
    {
        let snipers = ((pseudo_attacks(PieceType::Rook, s) & (self.pieces_p(PieceType::Rook)
            | self.pieces_p(PieceType::Queen))) | (pseudo_attacks(PieceType::Bishop, s) & (
        self.pieces_p(PieceType::Bishop) | self.pieces_p(PieceType::Queen)))) & sliders;
        self.blockers_walk(snipers, s)
    }

    pub open spec fn spec_pinned_pieces(self, c: Color) -> u64 {
        self.spec_slider_blockers(
            self.spec_pieces_c(c.spec_flip()),
            self.spec_king_square(c),
        ) & self.spec_pieces_c(c)
    }

    /// The pieces of `c` pinned to their own king.
    pub fn pinned_pieces(&self, c: Color) -> (r: u64)
        requires
            self.wf(),
        ensures
            r == self.spec_pinned_pieces(c),
    {
        self.slider_blockers(self.pieces_c(c.flip()), self.king_square(c)) & self.pieces_c(c)
    }

    pub open spec fn spec_discovered_check_candidates(self) -> u64 {
        self.spec_slider_blockers(
            self.spec_pieces_c(self.side),
            self.spec_king_square(self.side.spec_flip()),
        ) & self.spec_pieces_c(self.side)
    }

    /// The pieces of the side to move whose moving away may discover a
    /// check on the enemy king.
    pub fn discovered_check_candidates(&self) -> (r: u64)
        requires
            self.wf(),
        ensures
            r == self.spec_discovered_check_candidates(),
    {
        self.slider_blockers(self.pieces_c(self.side), self.king_square(self.side.flip()))
            & self.pieces_c(self.side)
    }

    /// The squares from which a piece of type `pt` of the side to move
    /// would give direct check.
    pub open spec fn spec_check_squares(self, pt: PieceType) -> u64 {
        let ksq = self.spec_king_square(self.side.spec_flip());
        match pt {
            PieceType::Pawn => spec_pawn_attacks(self.side.spec_flip(), ksq),
            PieceType::Knight => spec_knight_attacks(ksq),
            PieceType::Bishop => spec_bishop_attacks(ksq, self.spec_pieces()),
            PieceType::Rook => spec_rook_attacks(ksq, self.spec_pieces()),
            PieceType::Queen => spec_bishop_attacks(ksq, self.spec_pieces()) | spec_rook_attacks(
                ksq,
                self.spec_pieces(),
            ),
            PieceType::King => 0u64,
        }
    }

    pub fn check_squares(&self, pt: PieceType) -> (r: u64)
        requires
            self.wf(),
        ensures
            r == self.spec_check_squares(pt),
    {
        let ksq = self.king_square(self.side.flip());
        match pt {
            PieceType::Pawn => pawn_attacks(self.side.flip(), ksq),
            PieceType::Knight => knight_attacks(ksq),
            PieceType::Bishop => bishop_attacks(ksq, self.pieces()),
            PieceType::Rook => rook_attacks(ksq, self.pieces()),
            PieceType::Queen => bishop_attacks(ksq, self.pieces()) | rook_attacks(
                ksq,
                self.pieces(),
            ),
            PieceType::King => 0,
        }
    }

    /// The color a single castling-right bit belongs to.
    pub open spec fn spec_cr_color(cr: u8) -> Color {
        if cr == WHITE_OO || cr == WHITE_OOO {
            Color::White
        } else {
            Color::Black
        }
    }

    /// The squares that must be empty for castling right `cr`: every
    /// square the king or the rook crosses, their destinations counted,
    /// their own two origin squares not.
    pub open spec fn spec_castling_path(self, cr: u8) -> u64 {
        let c = Position::spec_cr_color(cr);
        let kfrom = self.spec_king_square(c);
        let rfrom = self.spec_castling_rook_square(cr);
        let king_side = cr == WHITE_OO || cr == BLACK_OO;
        let kto = spec_relative_square(
            c,
            if king_side {
                6u64
            } else {
                2u64
            },
        );
        let rto = spec_relative_square(
            c,
            if king_side {
                5u64
            } else {
                3u64
            },
        );
        ((spec_between_bb(rfrom, rto) | spec_between_bb(kfrom, kto)) | (sq_bb(rto) | sq_bb(kto)))
            & !(sq_bb(kfrom) | sq_bb(rfrom))
    }

    /// True iff a piece stands in the way of castling right `cr`.
    pub fn castling_impeded(&self, cr: u8) -> (r: bool)
        requires
            self.wf(),
            cr == WHITE_OO || cr == WHITE_OOO || cr == BLACK_OO || cr == BLACK_OOO,
            self.castle & cr != 0,
        ensures
            r == (self.spec_castling_path(cr) & self.spec_pieces() != 0),
    {
        let c = if cr == WHITE_OO || cr == WHITE_OOO {
            Color::White
        } else {
            Color::Black
        };
        let kfrom = self.king_square(c);
        let rfrom = self.castling_rook_square(cr);
        let king_side = cr == WHITE_OO || cr == BLACK_OO;
        let kto = relative_square(
            c,
            if king_side {
                6
            } else {
                2
            },
        );
        let rto = relative_square(
            c,
            if king_side {
                5
            } else {
                3
            },
        );
        let path = ((between_bb(rfrom, rto) | between_bb(kfrom, kto)) | (bb_of(rto) | bb_of(kto)))
            & !(bb_of(kfrom) | bb_of(rfrom));
        path & self.pieces() != 0
    }

    /// A hash of the pawn configuration alone: equal pawn boards give
    /// equal keys.
    pub open spec fn spec_pawn_key(self) -> u64 {
        (self.w_pawns ^ ((self.b_pawns << 32) | (self.b_pawns >> 32))) ^ 0x9e3779b97f4a7c15
    }

    pub fn pawn_key(&self) -> (r: u64)
        ensures
            r == self.spec_pawn_key(),
    {
        (self.w_pawns ^ ((self.b_pawns << 32) | (self.b_pawns >> 32))) ^ 0x9e3779b97f4a7c15
    }
}

} // verus!

verus! {

impl Position {
    /// Whether the pseudo-legal move `m` leaves the mover's own king out
    /// of check, tested the fast way: en-passant and king moves get an
    /// occupancy rebuild, everything else rides on the pin test.
    pub open spec fn spec_legal(self, m: Move) -> bool {
        let us = self.side;
        let them = us.spec_flip();
        let from = spec_move_from(m);
        let to = spec_move_to(m);
        if spec_move_type(m) == ENPASSANT {
            let ksq = self.spec_king_square(us);
            let capsq = if us == Color::White {
                (to - 8) as u64
            } else {
                (to + 8) as u64
            };
            let occupied = ((self.spec_pieces() ^ sq_bb(from)) ^ sq_bb(capsq)) | sq_bb(to);
            (spec_rook_attacks(ksq, occupied) & (self.spec_pieces_cp(them, PieceType::Rook)
                | self.spec_pieces_cp(them, PieceType::Queen))) == 0 && (spec_bishop_attacks(
                ksq,
                occupied,
            ) & (self.spec_pieces_cp(them, PieceType::Bishop) | self.spec_pieces_cp(
                them,
                PieceType::Queen,
            ))) == 0
        } else if bit(self.spec_pieces_cp(us, PieceType::King), from) {
            spec_move_type(m) == CASTLING || (self.spec_attackers_to(to) & self.spec_pieces_c(them))
                == 0
        } else {
            !bit(self.spec_pinned_pieces(us), from) || spec_aligned(
                from,
                to,
                self.spec_king_square(us),
            )
        }
    }

    /// True iff the pseudo-legal move `m` does not leave the mover's king
    /// in check.
    pub fn legal(&self, m: Move) -> (r: bool)
        requires
            self.wf(),
            spec_move_type(m) == ENPASSANT ==> self.ep != SQ_NONE && spec_move_to(m) == self.ep,
        ensures
            r == self.spec_legal(m),
    {
        let us = self.side;
        let them = us.flip();
        let from = move_from(m);
        let to = move_to(m);
        if move_type(m) == ENPASSANT {
            let ksq = self.king_square(us);
            let capsq: u64 = match us {
                Color::White => to - 8,
                Color::Black => to + 8,
            };
            let occupied = ((self.pieces() ^ bb_of(from)) ^ bb_of(capsq)) | bb_of(to);
            (rook_attacks(ksq, occupied) & (self.pieces_cp(them, PieceType::Rook) | self.pieces_cp(
                them,
                PieceType::Queen,
            ))) == 0 && (bishop_attacks(ksq, occupied) & (self.pieces_cp(them, PieceType::Bishop)
                | self.pieces_cp(them, PieceType::Queen))) == 0
        } else if self.pieces_cp(us, PieceType::King) & bb_of(from) != 0 {
            proof {
                lemma_test_bit();
            }
            move_type(m) == CASTLING || (self.attackers_to(to) & self.pieces_c(them)) == 0
        } else {
            proof {
                lemma_test_bit();
            }
            (self.pinned_pieces(us) & bb_of(from)) == 0 || aligned(from, to, self.king_square(us))
        }
    }

    /// Whether move `m` of the side to move gives check to the enemy
    /// king: a direct check from the destination, a discovered check from
    /// the vacated square, or the special checks of promotion, en passant
    /// and castling.
    pub open spec fn spec_gives_check(self, m: Move) -> bool {
        let us = self.side;
        let them = us.spec_flip();
        let from = spec_move_from(m);
        let to = spec_move_to(m);
        let ksq = self.spec_king_square(them);
        let direct = match self.spec_piece_type_on(from) {
            Some(pt) => bit(self.spec_check_squares(pt), to),
            None => false,
        };
        if direct {
            true
        } else if bit(self.spec_discovered_check_candidates(), from) && !spec_aligned(
            from,
            to,
            ksq,
        ) {
            true
        } else if spec_move_type(m) == NORMAL {
            false
        } else if spec_move_type(m) == PROMOTION {
            spec_attacks_bb(spec_promotion_type(m), to, self.spec_pieces() ^ sq_bb(from)) & sq_bb(
                ksq,
            ) != 0
        } else if spec_move_type(m) == ENPASSANT {
            let capsq = ((from / 8) * 8 + to % 8) as u64;
            let b = ((self.spec_pieces() ^ sq_bb(from)) ^ sq_bb(capsq)) | sq_bb(to);
            (spec_rook_attacks(ksq, b) & (self.spec_pieces_cp(us, PieceType::Rook)
                | self.spec_pieces_cp(us, PieceType::Queen))) != 0 || (spec_bishop_attacks(ksq, b)
                & (self.spec_pieces_cp(us, PieceType::Bishop) | self.spec_pieces_cp(
                us,
                PieceType::Queen,
            ))) != 0
        } else {
            let kfrom = from;
            let rfrom = to;
            let king_side = rfrom > kfrom;
            let kto = spec_relative_square(
                us,
                if king_side {
                    6u64
                } else {
                    2u64
                },
            );
            let rto = spec_relative_square(
                us,
                if king_side {
                    5u64
                } else {
                    3u64
                },
            );
            (spec_pseudo_attacks(PieceType::Rook, rto) & sq_bb(ksq)) != 0 && (spec_rook_attacks(
                rto,
                ((self.spec_pieces() ^ sq_bb(kfrom)) ^ sq_bb(rfrom)) | (sq_bb(rto) | sq_bb(kto)),
            ) & sq_bb(ksq)) != 0
        }
    }

    /// True iff move `m` gives check.
    pub fn gives_check(&self, m: Move) -> (r: bool)
        requires
            self.wf(),
        ensures
            r == self.spec_gives_check(m),
    {
        proof {
            lemma_test_bit();
        }
        let us = self.side;
        let them = us.flip();
        let from = move_from(m);
        let to = move_to(m);
        let ksq = self.king_square(them);
        let direct = match self.piece_type_on(from) {
            Some(pt) => self.check_squares(pt) & bb_of(to) != 0,
            None => false,
        };
        if direct {
            true
        } else if (self.discovered_check_candidates() & bb_of(from)) != 0 && !aligned(
            from,
            to,
            ksq,
        ) {
            true
        } else if move_type(m) == NORMAL {
            false
        } else if move_type(m) == PROMOTION {
            attacks_bb(promotion_type(m), to, self.pieces() ^ bb_of(from)) & bb_of(ksq) != 0
        } else if move_type(m) == ENPASSANT {
            let capsq: u64 = (from / 8) * 8 + to % 8;
            let b = ((self.pieces() ^ bb_of(from)) ^ bb_of(capsq)) | bb_of(to);
            (rook_attacks(ksq, b) & (self.pieces_cp(us, PieceType::Rook) | self.pieces_cp(
                us,
                PieceType::Queen,
            ))) != 0 || (bishop_attacks(ksq, b) & (self.pieces_cp(us, PieceType::Bishop)
                | self.pieces_cp(us, PieceType::Queen))) != 0
        } else {
            let kfrom = from;
            let rfrom = to;
            let king_side = rfrom > kfrom;
            let kto = relative_square(
                us,
                if king_side {
                    6
                } else {
                    2
                },
            );
            let rto = relative_square(
                us,
                if king_side {
                    5
                } else {
                    3
                },
            );
            (pseudo_attacks(PieceType::Rook, rto) & bb_of(ksq)) != 0 && (rook_attacks(
                rto,
                ((self.pieces() ^ bb_of(kfrom)) ^ bb_of(rfrom)) | (bb_of(rto) | bb_of(kto)),
            ) & bb_of(ksq)) != 0
        }
    }
}

} // verus!
