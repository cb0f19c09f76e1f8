use vstd::prelude::*;
use vstd::arithmetic::div_mod::*;

verus! {

/// 2^24: one more than the largest 24-bit significand.
pub open spec fn two24() -> nat {
    0x100_0000
}

/// The power of two `p` by which a magnitude must be scaled down so that
/// `m / p` fits a 24-bit significand (1 when `m` already fits).
pub open spec fn scale_of(m: nat) -> nat
    decreases m,
{
    if m < two24() {
        1
    } else {
        2 * scale_of(m / 2)
    }
}

/// `m` rounded to the nearest multiple of `p`, ties to the even multiple.
pub open spec fn round_at(m: nat, p: nat) -> nat {
    if p <= 1 {
        m
    } else {
        let q = m / p;
        let r = m % p;
        let h = p / 2;
        if r > h || (r == h && q % 2 == 1) {
            (q + 1) * p
        } else {
            q * p
        }
    }
}

/// A non-negative integer rounded to the nearest value with at most 24
/// significant bits, ties to even: the value that an `f32` takes on.
pub open spec fn round_sig24(m: nat) -> nat {
    round_at(m, scale_of(m))
}

/// An integer rounded as a conversion to `f32` rounds it.
pub open spec fn round_f32(m: int) -> int {
    if m < 0 {
        -(round_sig24((-m) as nat) as int)
    } else {
        round_sig24(m as nat) as int
    }
}

/// Bounds that pin down `scale_of(m)`.
pub proof fn lemma_scale_bounds(m: nat)
    ensures
        scale_of(m) >= 1,
        m < two24() * scale_of(m),
        scale_of(m) == 1 ==> m < two24(),
        scale_of(m) > 1 ==> scale_of(m) % 2 == 0 && (two24() / 2) * scale_of(m) <= m,
    decreases m,
{
    if m >= two24() {
        let s = scale_of(m / 2);
        lemma_scale_bounds(m / 2);
        assert(m / 2 < two24() * s);
        assert(m < two24() * (2 * s)) by (nonlinear_arith)
            requires
                m / 2 < two24() * s,
        ;
        if s > 1 {
            assert((two24() / 2) * (2 * s) <= m) by (nonlinear_arith)
                requires
                    (two24() / 2) * s <= m / 2,
            ;
        } else {
            assert((two24() / 2) * (2 * s) <= m);
        }
    }
}

/// Rounding to a multiple of `p` moves a value by at most `p / 2`.
pub proof fn lemma_round_at_bounds(m: nat, p: nat)
    requires
        p >= 1,
        p == 1 || p % 2 == 0,
    ensures
        round_at(m, p) + p / 2 >= m,
        round_at(m, p) <= m + p / 2,
        round_at(m, p) % p == 0,
{
    if p > 1 {
        let q = m / p;
        let r = m % p;
        lemma_fundamental_div_mod(m as int, p as int);
        lemma_mod_bound(m as int, p as int);
        assert(m == p * q + r);
        if r > p / 2 || (r == p / 2 && q % 2 == 1) {
            assert((q + 1) * p == p * q + p) by (nonlinear_arith);
            lemma_mod_multiples_basic((q + 1) as int, p as int);
        } else {
            assert(q * p == p * q) by (nonlinear_arith);
            lemma_mod_multiples_basic(q as int, p as int);
        }
    }
}

/// Computes `round_sig24(m)`.
pub fn round_sig24_u64(m: u64) -> (r: u64)
    requires
        m < 0x4000_0000_0000_0000,
    ensures
        r == round_sig24(m as nat),
{
    let mut p: u64 = 1;
    proof {
        lemma_scale_bounds(m as nat);
    }
    while m / p >= 0x100_0000
        invariant
            1 <= p,
            p <= m + 1,
            scale_of(m as nat) == p * scale_of((m / p) as nat),
            p == 1 || p % 2 == 0,
            m < 0x4000_0000_0000_0000,
        decreases m / p,
    {
        let ghost old_p = p;
        proof {
            lemma_div_denominator(m as int, p as int, 2);
            lemma_fundamental_div_mod(m as int, p as int);
            assert(p * 2 <= m) by (nonlinear_arith)
                requires
                    m / p >= 0x100_0000,
                    p >= 1,
                    m == p * (m / p) + m % p,
                    m % p >= 0,
            ;
            lemma_div_is_ordered_by_denominator(m as int, p as int, (p * 2) as int);
            assert((m / p) / 2 < m / p);
        }
        p = p * 2;
        assert(scale_of((m / old_p) as nat) == 2 * scale_of(((m / old_p) / 2) as nat));
        assert(scale_of(m as nat) == p * scale_of((m / p) as nat)) by (nonlinear_arith)
            requires
                scale_of(m as nat) == old_p * scale_of((m / old_p) as nat),
                scale_of((m / old_p) as nat) == 2 * scale_of(((m / old_p) / 2) as nat),
                (m / old_p) / 2 == m / p,
                p == old_p * 2,
        ;
    }
    assert(scale_of((m / p) as nat) == 1);
    assert(scale_of(m as nat) == p) by (nonlinear_arith)
        requires
            scale_of(m as nat) == p * scale_of((m / p) as nat),
            scale_of((m / p) as nat) == 1,
    ;
    if p == 1 {
        return m;
    }
    let q = m / p;
    let r = m % p;
    let h = p / 2;
    proof {
        lemma_fundamental_div_mod(m as int, p as int);
        assert(q < 0x100_0000);
        assert((q + 1) * p <= m + p) by (nonlinear_arith)
            requires
                q * p <= m,
                m == p * q + r,
        ;
    }
    if r > h || (r == h && q % 2 == 1) {
        (q + 1) * p
    } else {
        q * p
    }
}


/// Rounding at most doubles a magnitude, and never turns it negative.
pub proof fn lemma_round_sig24_le_double(m: nat)
    ensures
        round_sig24(m) <= 2 * m,
        m < two24() ==> round_sig24(m) == m,
{
    lemma_scale_bounds(m);
    lemma_round_at_bounds(m, scale_of(m));
    let p = scale_of(m);
    if p > 1 {
        assert(p / 2 <= m) by (nonlinear_arith)
            requires
                (two24() / 2) * p <= m,
                p > 1,
        ;
    }
}

/// A multiple of 2^24 no larger than 2^48 is representable exactly.
pub proof fn lemma_round_sig24_two24()
    ensures
        round_sig24(two24()) == two24(),
{
    assert(scale_of(two24() / 2) == 1);
    assert(scale_of(two24()) == 2);
}

/// `round_f32` is odd: rounding commutes with negation.
pub proof fn lemma_round_f32_odd(x: int)
    ensures
        round_f32(-x) == -round_f32(x),
{
    if x == 0 {
        assert(round_sig24(0) == 0) by {
            lemma_round_sig24_le_double(0);
        }
    }
}

/// `(k / 2^24 as f32) * (d as f32)`, computed in `f32` and then converted to
/// an integer with `as i32` (truncation toward zero), for a 24-bit `k`.
pub open spec fn scaled_offset(k: int, d: int) -> int {
    let prod = round_f32(k * round_f32(d));
    if prod < 0 {
        -((-prod) / (two24() as int))
    } else {
        prod / (two24() as int)
    }
}

/// For a positive span of at most 2^24, the offset stays in `[0, d)`.
pub proof fn lemma_scaled_offset_positive(k: int, d: int)
    requires
        0 <= k < two24(),
        0 < d <= two24(),
    ensures
        0 <= scaled_offset(k, d) < d,
{
    if d < two24() {
        lemma_round_sig24_le_double(d as nat);
    } else {
        lemma_round_sig24_two24();
    }
    assert(round_f32(d) == d);
    let m = k * d;
    assert(0 <= m <= two24() * d - d) by (nonlinear_arith)
        requires
            0 <= k < two24(),
            0 < d,
            m == k * d,
    ;
    let mn = m as nat;
    lemma_scale_bounds(mn);
    let p = scale_of(mn);
    lemma_round_at_bounds(mn, p);
    let rr = round_sig24(mn);
    if p > 1 {
        assert(p / 2 < d) by (nonlinear_arith)
            requires
                (two24() / 2) * p <= mn,
                mn < two24() * d,
                p % 2 == 0,
                p > 1,
        ;
    }
    assert(rr < two24() * d);
    assert(round_f32(m) == rr);
    assert((rr as int) / (two24() as int) < d) by (nonlinear_arith)
        requires
            0 <= rr < two24() * d,
    ;
}

/// Negating the span negates the offset.
pub proof fn lemma_scaled_offset_neg(k: int, d: int)
    ensures
        scaled_offset(k, -d) == -scaled_offset(k, d),
{
    lemma_round_f32_odd(d);
    assert(k * round_f32(-d) == -(k * round_f32(d))) by (nonlinear_arith)
        requires
            round_f32(-d) == -round_f32(d),
    ;
    lemma_round_f32_odd(k * round_f32(d));
}

/// Drawing in a span of at most 2^24 stays between the two bounds: in
/// `[low, high)` when `low < high`, in `(high, low]` when `high < low`, and
/// exactly `low` when they coincide.
pub proof fn lemma_range_within(k: int, low: int, high: int)
    requires
        0 <= k < two24(),
        -(two24() as int) <= high - low <= two24(),
    ensures
        low < high ==> low <= low + scaled_offset(k, high - low) < high,
        low == high ==> low + scaled_offset(k, high - low) == low,
        high < low ==> high < low + scaled_offset(k, high - low) <= low,
{
    if low < high {
        lemma_scaled_offset_positive(k, high - low);
    } else if high < low {
        lemma_scaled_offset_positive(k, low - high);
        lemma_scaled_offset_neg(k, low - high);
    } else {
        assert(round_f32(0) == 0) by {
            lemma_round_sig24_le_double(0);
        }
        assert(k * 0 == 0);
    }
}

} // verus!
