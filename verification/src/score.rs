use vstd::prelude::*;
use vstd::arithmetic::div_mod::lemma_fundamental_div_mod_converse_div;
use vstd::arithmetic::div_mod::lemma_fundamental_div_mod_converse_mod;

verus! {

/// A score packs a middle-game value and an end-game value into one 32-bit
/// word: the end game in the high 16 bits, the middle game in the low 16
/// bits, both signed. Lane-wise addition and negation work on the packed
/// form; `spec_pack` is the mathematical packing both are measured against.
#[derive(Clone, Copy, PartialEq, Eq, Structural, Debug)]
pub struct Score(pub u32);

/// Reads a 16-bit lane as a signed value.
pub open spec fn sign16(x: int) -> int {
    if x >= 32768 {
        x - 65536
    } else {
        x
    }
}

/// The packed word holding middle-game lane `mg` and end-game lane `eg`.
pub open spec fn spec_pack(mg: int, eg: int) -> u32 {
    ((eg * 65536 + mg) % 0x1_0000_0000) as u32
}

/// The middle-game lane of a packed word.
pub open spec fn spec_mg(v: u32) -> int {
    sign16((v as int) % 65536)
}

/// The end-game lane of a packed word.
pub open spec fn spec_eg(v: u32) -> int {
    sign16((((v as int) + 32768) % 0x1_0000_0000) / 65536)
}

proof fn lemma_mod_m32(x: int, q: int, r: int)
    requires
        x == q * 0x1_0000_0000 + r,
        0 <= r < 0x1_0000_0000,
    ensures
        x % 0x1_0000_0000 == r,
{
    lemma_fundamental_div_mod_converse_mod(x, 0x1_0000_0000, q, r);
}

proof fn lemma_mod_lane(x: int, q: int, r: int)
    requires
        x == q * 65536 + r,
        0 <= r < 65536,
    ensures
        x % 65536 == r,
        x / 65536 == q,
{
    lemma_fundamental_div_mod_converse_mod(x, 65536, q, r);
    lemma_fundamental_div_mod_converse_div(x, 65536, q, r);
}

/// Packing puts each lane where its reader finds it: unpacking the packed
/// word gives both lanes back, for any values a 16-bit lane can hold.
pub proof fn lemma_pack_unpack(mg: int, eg: int)
    requires
        -32768 <= mg < 32768,
        -32768 <= eg < 32768,
    ensures
        spec_mg(spec_pack(mg, eg)) == mg,
        spec_eg(spec_pack(mg, eg)) == eg,
{
    let x = eg * 65536 + mg;
    let v = spec_pack(mg, eg) as int;
    if x >= 0 {
        lemma_mod_m32(x, 0, x);
        assert(v == x);
    } else {
        lemma_mod_m32(x, -1, x + 0x1_0000_0000);
        assert(v == x + 0x1_0000_0000);
    }
    // The middle-game lane.
    if mg >= 0 {
        if x >= 0 {
            lemma_mod_lane(v, eg, mg);
        } else {
            lemma_mod_lane(v, eg + 65536, mg);
        }
    } else {
        if x >= 0 {
            lemma_mod_lane(v, eg - 1, mg + 65536);
        } else {
            lemma_mod_lane(v, eg + 65536 - 1, mg + 65536);
        }
    }
    // The end-game lane.
    let w = v + 32768;
    let c = mg + 32768;
    if eg >= 0 {
        if x >= 0 {
            lemma_mod_m32(w, 0, eg * 65536 + c);
        } else {
            lemma_mod_m32(w, 1, eg * 65536 + c);
        }
        lemma_mod_lane(eg * 65536 + c, eg, c);
    } else {
        assert(x < 0);
        lemma_mod_m32(w, 0, (eg + 65536) * 65536 + c);
        lemma_mod_lane((eg + 65536) * 65536 + c, eg + 65536, c);
    }
}

/// Every packed word is the packing of its own lanes.
pub proof fn lemma_repack(v: u32)
    ensures
        spec_pack(spec_mg(v), spec_eg(v)) == v,
{
    let lo = (v as int) % 65536;
    let hi = (v as int) / 65536;
    lemma_mod_lane(v as int, hi, lo);
    let mg = spec_mg(v);
    let eg = spec_eg(v);
    if lo < 32768 {
        assert(mg == lo);
        lemma_mod_m32(v as int + 32768, 0, hi * 65536 + (lo + 32768));
        lemma_mod_lane(hi * 65536 + (lo + 32768), hi, lo + 32768);
        if hi >= 32768 {
            assert(eg == hi - 65536);
            lemma_mod_m32((hi - 65536) * 65536 + lo, -1, v as int);
        } else {
            assert(eg == hi);
            lemma_mod_m32(hi * 65536 + lo, 0, v as int);
        }
    } else {
        assert(mg == lo - 65536);
        if hi == 65535 {
            lemma_mod_m32(v as int + 32768, 1, lo - 32768);
            lemma_mod_lane(lo - 32768, 0, lo - 32768);
            assert(eg == 0);
            lemma_mod_m32(lo - 65536, -1, v as int);
        } else {
            lemma_mod_m32(v as int + 32768, 0, (hi + 1) * 65536 + (lo - 32768));
            lemma_mod_lane((hi + 1) * 65536 + (lo - 32768), hi + 1, lo - 32768);
            if hi + 1 >= 32768 {
                assert(eg == hi + 1 - 65536);
                lemma_mod_m32((hi + 1 - 65536) * 65536 + (lo - 65536), -1, v as int);
            } else {
                assert(eg == hi + 1);
                lemma_mod_m32((hi + 1) * 65536 + (lo - 65536), 0, v as int);
            }
        }
    }
}

/// Packed addition is lane-wise: adding two packed words modulo 2^32 packs
/// the sums of their lanes, with no constraint on the lanes.
pub proof fn lemma_pack_add(a: int, b: int, c: int, d: int)
    ensures
        ((spec_pack(a, b) + spec_pack(c, d)) % 0x1_0000_0000) as u32 == spec_pack(a + c, b + d),
{
    let x1 = b * 65536 + a;
    let x2 = d * 65536 + c;
    vstd::arithmetic::div_mod::lemma_add_mod_noop(x1, x2, 0x1_0000_0000);
    vstd::arithmetic::div_mod::lemma_mod_twice(x1, 0x1_0000_0000);
    vstd::arithmetic::div_mod::lemma_mod_twice(x2, 0x1_0000_0000);
    vstd::arithmetic::div_mod::lemma_mod_bound(x1, 0x1_0000_0000);
    vstd::arithmetic::div_mod::lemma_mod_bound(x2, 0x1_0000_0000);
    assert((b * 65536 + a) + (d * 65536 + c) == (b + d) * 65536 + (a + c)) by (nonlinear_arith);
}

/// Negation modulo 2^32 negates both lanes.
pub proof fn lemma_pack_neg(a: int, b: int)
    ensures
        ((0x1_0000_0000 - spec_pack(a, b)) % 0x1_0000_0000) as u32 == spec_pack(-a, -b),
{
    let x = b * 65536 + a;
    let v = spec_pack(a, b) as int;
    vstd::arithmetic::div_mod::lemma_mod_bound(x, 0x1_0000_0000);
    let q = (x - v) / 0x1_0000_0000;
    vstd::arithmetic::div_mod::lemma_fundamental_div_mod(x, 0x1_0000_0000);
    assert(x == 0x1_0000_0000 * (x / 0x1_0000_0000) + v);
    if v == 0 {
        lemma_mod_m32(0x1_0000_0000, 1, 0);
        lemma_mod_m32(-x, -(x / 0x1_0000_0000), 0);
    } else {
        lemma_mod_m32(0x1_0000_0000 - v, 0, 0x1_0000_0000 - v);
        lemma_mod_m32(-x, -(x / 0x1_0000_0000) - 1, 0x1_0000_0000 - v);
    }
    assert(-(b * 65536 + a) == (-b) * 65536 + (-a)) by (nonlinear_arith);
}

impl Score {
    /// The zero score: both lanes zero.
    pub fn zero() -> (r: Score)
        ensures
            r.0 == spec_pack(0, 0),
            r.0 == 0,
    {
        proof {
            lemma_mod_m32(0, 0, 0);
        }
        Score(0)
    }

    /// Packs the two lanes into one word.
    pub fn make(mg: i32, eg: i32) -> (r: Score)
        requires
            -32768 <= mg < 32768,
            -32768 <= eg < 32768,
        ensures
            r.0 == spec_pack(mg as int, eg as int),
            spec_mg(r.0) == mg,
            spec_eg(r.0) == eg,
    {
        proof {
            lemma_pack_unpack(mg as int, eg as int);
        }
        let t: i64 = (eg as i64) * 65536 + (mg as i64);
        if t >= 0 {
            proof {
                lemma_mod_m32(t as int, 0, t as int);
            }
            Score(t as u32)
        } else {
            proof {
                lemma_mod_m32(t as int, -1, t + 0x1_0000_0000);
            }
            Score((t + 0x1_0000_0000) as u32)
        }
    }

    /// The middle-game lane.
    pub fn mg_value(self) -> (r: i32)
        ensures
            r == spec_mg(self.0),
            -32768 <= r < 32768,
    {
        let lo: u32 = self.0 % 65536;
        if lo >= 32768 {
            (lo as i32) - 65536
        } else {
            lo as i32
        }
    }

    /// The end-game lane.
    pub fn eg_value(self) -> (r: i32)
        ensures
            r == spec_eg(self.0),
            -32768 <= r < 32768,
    {
        let w: u64 = ((self.0 as u64) + 32768) % 0x1_0000_0000;
        let hi: u64 = w / 65536;
        proof {
            vstd::arithmetic::div_mod::lemma_mod_bound((self.0 as int) + 32768, 0x1_0000_0000);
        }
        if hi >= 32768 {
            (hi as i32) - 65536
        } else {
            hi as i32
        }
    }

    /// Lane-wise addition modulo 2^32.
    pub fn add(self, o: Score) -> (r: Score)
        ensures
            r.0 == spec_pack(spec_mg(self.0) + spec_mg(o.0), spec_eg(self.0) + spec_eg(o.0)),
    {
        proof {
            lemma_repack(self.0);
            lemma_repack(o.0);
            lemma_pack_add(spec_mg(self.0), spec_eg(self.0), spec_mg(o.0), spec_eg(o.0));
        }
        Score((((self.0 as u64) + (o.0 as u64)) % 0x1_0000_0000) as u32)
    }

    /// Lane-wise negation modulo 2^32.
    pub fn neg(self) -> (r: Score)
        ensures
            r.0 == spec_pack(-spec_mg(self.0), -spec_eg(self.0)),
    {
        proof {
            lemma_repack(self.0);
            lemma_pack_neg(spec_mg(self.0), spec_eg(self.0));
        }
        Score(((0x1_0000_0000u64 - (self.0 as u64)) % 0x1_0000_0000) as u32)
    }

    /// Lane-wise subtraction modulo 2^32.
    pub fn sub(self, o: Score) -> (r: Score)
        ensures
            r.0 == spec_pack(spec_mg(self.0) - spec_mg(o.0), spec_eg(self.0) - spec_eg(o.0)),
    {
        let n = o.neg();
        let r = self.add(n);
        proof {
            let ms = spec_mg(self.0);
            let es = spec_eg(self.0);
            let mo = spec_mg(o.0);
            let eo = spec_eg(o.0);
            lemma_repack(n.0);
            lemma_pack_add(ms, es, spec_mg(n.0), spec_eg(n.0));
            lemma_pack_add(ms, es, -mo, -eo);
        }
        r
    }
}

/// The packing law on the range evaluation uses: unpacking recovers both
/// lanes, and addition of packed scores packs the lane sums.
pub proof fn lemma_score_laws(a: int, b: int, c: int, d: int)
    requires
        -30000 <= a <= 30000,
        -30000 <= b <= 30000,
        -30000 <= c <= 30000,
        -30000 <= d <= 30000,
    ensures
        spec_mg(spec_pack(a, b)) == a,
        spec_eg(spec_pack(a, b)) == b,
        ((spec_pack(a, b) + spec_pack(c, d)) % 0x1_0000_0000) as u32 == spec_pack(a + c, b + d),
{
    lemma_pack_unpack(a, b);
    lemma_pack_add(a, b, c, d);
}

} // verus!
