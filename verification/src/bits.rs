use vstd::prelude::*;
use vstd::std_specs::bits::axiom_u64_leading_zeros;
use vstd::std_specs::bits::axiom_u64_trailing_zeros;
use vstd::std_specs::bits::u64_leading_zeros;
use vstd::std_specs::bits::u64_trailing_zeros;

verus! {

/// True iff bit `i` of `b` is set.
pub open spec fn bit(b: u64, i: u64) -> bool {
    i < 64 && (b >> i) & 1 == 1
}

/// The set bits of `b` as a sequence of square indices, lowest bit first.
/// This is the order in which every loop of the generator and of the
/// evaluator visits a bitboard.
pub open spec fn bits(b: u64) -> Seq<u64>
    decreases b,
    when b >= 0
    via bits_decreases
{
    if b == 0 {
        Seq::empty()
    } else {
        seq![u64_trailing_zeros(b) as u64] + bits(b & ((b - 1) as u64))
    }
}

#[via_fn]
proof fn bits_decreases(b: u64) {
    assert(b != 0 ==> b & ((b - 1) as u64) < b) by (bit_vector);
}

proof fn lemma_lsb_clear(b: u64, t: u64)
    by (bit_vector)
    requires
        b != 0,
        t < 64,
        (b >> t) & 1 == 1,
        b << ((64 - t) as u64) == 0,
    ensures
        b & ((b - 1) as u64) < b,
        forall|i: u64|
            i < 64 ==> #[trigger] (((b & ((b - 1) as u64)) >> i) & 1) == (if i == t {
                0u64
            } else {
                (b >> i) & 1
            }),
        forall|j: u64| j <= t ==> #[trigger] (((b & ((b - 1) as u64)) >> j) & 1) == 0,
{
}

/// The structure of `bits`: its members are exactly the set bits, it is
/// strictly increasing, and it has at most 64 entries.
pub proof fn lemma_bits_props(b: u64)
    ensures
        bits(b).len() + u64_trailing_zeros(b) <= 64,
        bits(b).len() <= 64,
        forall|k: int| 0 <= k < bits(b).len() ==> bit(b, #[trigger] bits(b)[k]),
        forall|i: u64| bit(b, i) ==> bits(b).contains(i),
        forall|k: int| 0 <= k < bits(b).len() - 1 ==> #[trigger] bits(b)[k] < bits(b)[k + 1],
        forall|k: int| 0 <= k < bits(b).len() ==> u64_trailing_zeros(b) <= #[trigger] bits(b)[k],
    decreases b,
{
    axiom_u64_trailing_zeros(b);
    if b == 0 {
        assert(forall|i: u64| (0u64 >> i) & 1 == 0) by (bit_vector);
    } else {
        let t = u64_trailing_zeros(b) as u64;
        let bp = b & ((b - 1) as u64);
        lemma_lsb_clear(b, t);
        lemma_bits_props(bp);
        axiom_u64_trailing_zeros(bp);
        let s = bits(b);
        let sp = bits(bp);
        assert(s == seq![t] + sp);
        assert(s[0] == t);
        assert(forall|k: int| 0 <= k < sp.len() ==> s[k + 1] == sp[k]);
        // Every member of the tail is a set bit of b above t.
        assert forall|k: int| 0 <= k < sp.len() implies t < sp[k] && bit(b, sp[k]) by {
            assert(bit(bp, sp[k]));
            assert(((bp >> sp[k]) & 1) == (if sp[k] == t {
                0u64
            } else {
                (b >> sp[k]) & 1
            }));
            assert(sp[k] != t) by {
                assert(((bp >> t) & 1) == 0);
            }
            assert(u64_trailing_zeros(bp) <= sp[k]);
            assert(((bp >> u64_trailing_zeros(bp) as u64) & 1) == 1);
            assert(u64_trailing_zeros(bp) as u64 > t) by {
                assert(forall|j: u64| j <= t ==> (bp >> j) & 1 == 0);
            }
        }
        // Completeness: every set bit of b is t or a set bit of bp.
        assert forall|i: u64| bit(b, i) implies s.contains(i) by {
            if i == t {
                assert(s[0] == i);
            } else {
                assert(bit(bp, i));
                let k = choose|k: int| 0 <= k < sp.len() && sp[k] == i;
                assert(sp.contains(i));
                let k2 = choose|k2: int| 0 <= k2 < sp.len() && sp[k2] == i;
                assert(s[k2 + 1] == i);
            }
        }
    }
}

/// Clearing the lowest set bit keeps every other bit.
pub proof fn lemma_clear_lsb(b: u64)
    requires
        b != 0,
    ensures
        b & ((b - 1) as u64) < b,
        forall|i: u64|
            #[trigger] bit(b & ((b - 1) as u64), i) <==> bit(b, i) && i != u64_trailing_zeros(b) as u64,
        !bit(b & ((b - 1) as u64), u64_trailing_zeros(b) as u64),
{
    axiom_u64_trailing_zeros(b);
    lemma_lsb_clear(b, u64_trailing_zeros(b) as u64);
}

/// The lowest set bit of a non-empty bitboard: the first square a loop
/// over the board visits.
pub fn lsb(b: u64) -> (r: u64)
    requires
        b != 0,
    ensures
        r == u64_trailing_zeros(b) as u64,
        r < 64,
        bit(b, r),
        bits(b) == seq![r] + bits(b & ((b - 1) as u64)),
{
    proof {
        axiom_u64_trailing_zeros(b);
    }
    b.trailing_zeros() as u64
}

/// The highest set bit of a non-empty bitboard.
pub fn msb(b: u64) -> (r: u64)
    requires
        b != 0,
    ensures
        r == (63 - u64_leading_zeros(b)) as u64,
        r < 64,
        bit(b, r),
        forall|i: u64| r < i < 64 ==> !bit(b, i),
{
    proof {
        axiom_u64_leading_zeros(b);
    }
    let lz: u32 = b.leading_zeros();
    proof {
        let r = (63 - lz) as u64;
        assert((b >> r) & 1 != 0 ==> (b >> r) & 1 == 1) by (bit_vector);
        assert(r == (63u64 - (u64_leading_zeros(b) as u64)) as u64);
    }
    63 - (lz as u64)
}

/// The number of set bits.
pub fn popcount(b: u64) -> (r: u64)
    ensures
        r == bits(b).len(),
        r <= 64,
{
    proof {
        lemma_bits_props(b);
    }
    let mut x: u64 = b;
    let mut n: u64 = 0;
    while x != 0
        invariant
            n + bits(x).len() == bits(b).len(),
            bits(b).len() <= 64,
        decreases x,
    {
        proof {
            axiom_u64_trailing_zeros(x);
            lemma_lsb_clear(x, u64_trailing_zeros(x) as u64);
        }
        x = x & (x - 1);
        n = n + 1;
    }
    n
}

/// True iff at least two bits are set.
pub fn more_than_one(b: u64) -> (r: bool)
    ensures
        r <==> bits(b).len() >= 2,
{
    proof {
        if b != 0 {
            axiom_u64_trailing_zeros(b);
            lemma_lsb_clear(b, u64_trailing_zeros(b) as u64);
            let t = u64_trailing_zeros(b) as u64;
            let bp = b & ((b - 1) as u64);
            assert(bits(b) == seq![t] + bits(bp));
            if bp != 0 {
                assert(bits(bp).len() >= 1);
            } else {
                assert(bits(bp).len() == 0);
            }
        }
    }
    b != 0 && (b & (b - 1)) != 0
}

} // verus!
