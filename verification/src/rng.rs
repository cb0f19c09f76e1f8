use vstd::prelude::*;
use crate::rounding::{
    lemma_range_within, lemma_round_sig24_le_double, round_f32, round_sig24_u64, scaled_offset,
};

verus! {

/// One step of the xorshift64 generator with shifts 13, 7, 17.
pub open spec fn xorshift(x: u64) -> u64 {
    let a = x ^ (x << 13u64);
    let b = a ^ (a >> 7u64);
    b ^ (b << 17u64)
}

/// xorshift never maps a non-zero state to zero.
pub proof fn lemma_xorshift_nonzero(x: u64)
    requires
        x != 0,
    ensures
        xorshift(x) != 0,
{
    assert(x != 0 ==> xorshift(x) != 0) by (bit_vector);
}

/// The 24 random bits drawn from state `s`: the top 24 bits of the next
/// state. As a fraction of 2^24 they are the `f32` in `[0, 1)` that the
/// generator hands out.
pub open spec fn draw_bits(s: u64) -> u32 {
    (xorshift(s) >> 40u64) as u32
}

/// The integer that `range_i32(low, high)` returns for the drawn bits `k`.
pub open spec fn range_i32_value(k: int, low: int, high: int) -> int {
    low + scaled_offset(k, high - low)
}

/// The drawn bits always fit 24 bits.
pub proof fn lemma_draw_bits_bound(s: u64)
    ensures
        draw_bits(s) < 0x100_0000,
{
    let y = xorshift(s);
    assert(y >> 40u64 < 0x100_0000) by (bit_vector);
}

/// Deterministic xorshift generator, so the arena spawns the same way every
/// run. Its state is never zero, the one state xorshift cannot leave.
pub struct Rng(u64);

impl Rng {
    #[verifier::type_invariant]
    spec fn inv(self) -> bool {
        self.0 != 0
    }

    /// The generator's current state.
    pub closed spec fn state(self) -> u64 {
        self.0
    }

    /// A generator seeded with `seed`, its lowest bit forced on so that the
    /// state is not zero.
    pub fn new(seed: u64) -> (r: Self)
        ensures
            r.state() == seed | 1,
    {
        assert((seed | 1) != 0) by (bit_vector);
        Rng(seed | 1)
    }

    /// Advances the state one xorshift step and returns its top 24 bits:
    /// the numerator `k` of the draw `k / 2^24`, a fraction in `[0, 1)`.
    pub fn next_u24(&mut self) -> (k: u32)
        ensures
            final(self).state() == xorshift(old(self).state()),
            k == draw_bits(old(self).state()),
            k < 0x100_0000,
    {
        proof { use_type_invariant(&*self); }
        let mut x = self.0;
        x ^= x << 13;
        x ^= x >> 7;
        x ^= x << 17;
        proof { lemma_xorshift_nonzero(self.0); }
        self.0 = x;
        let k = (x >> 40) as u32;
        assert(x >> 40u64 < 0x100_0000) by (bit_vector);
        k
    }

    /// An integer drawn from the span between `low` and `high`: `low` plus
    /// the drawn fraction of `high - low`, truncated toward zero, with every
    /// product rounded as `f32` arithmetic rounds it.
    pub fn range_i32(&mut self, low: i32, high: i32) -> (v: i32)
        requires
            i32::MIN <= high - low <= i32::MAX,
            -0x100_0000 <= high - low <= 0x100_0000 || i32::MIN <= range_i32_value(
                draw_bits(old(self).state()) as int,
                low as int,
                high as int,
            ) <= i32::MAX,
        ensures
            final(self).state() == xorshift(old(self).state()),
            v == range_i32_value(draw_bits(old(self).state()) as int, low as int, high as int),
    {
        proof {
            lemma_draw_bits_bound(old(self).state());
            if -0x100_0000 <= high - low <= 0x100_0000 {
                lemma_range_within(draw_bits(old(self).state()) as int, low as int, high as int);
            }
        }
        let k = self.next_u24();
        let d: i32 = high - low;
        let dmag: u64 = if d < 0 { (0i64 - d as i64) as u64 } else { d as u64 };
        proof { lemma_round_sig24_le_double(dmag as nat); }
        let dr = round_sig24_u64(dmag);
        assert(k as u64 * dr < 0x4000_0000_0000_0000) by (nonlinear_arith)
            requires k < 0x100_0000, dr <= 0x1_0000_0000;
        let pm: u64 = k as u64 * dr;
        proof { lemma_round_sig24_le_double(pm as nat); }
        let pr = round_sig24_u64(pm);
        let t: u64 = pr / 0x100_0000;
        let off: i64 = if d < 0 { 0i64 - t as i64 } else { t as i64 };
        proof {
            let dd = d as int;
            if d < 0 {
                assert(round_f32(dd) == -(dr as int));
                assert(k as int * round_f32(dd) == -(pm as int)) by (nonlinear_arith)
                    requires round_f32(dd) == -(dr as int), pm == k as int * dr as int;
                if pm == 0 {
                    assert(round_f32(0) == 0) by { lemma_round_sig24_le_double(0); }
                }
            } else {
                assert(round_f32(dd) == dr as int);
                assert(k as int * round_f32(dd) == pm as int);
            }
        }
        let v: i64 = low as i64 + off;
        v as i32
    }
}

} // verus!
