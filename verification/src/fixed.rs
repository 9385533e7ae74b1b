//! Fixed-point helpers: values scaled by one million, and a natural
//! logarithm on them.

use vstd::prelude::*;
use vstd::arithmetic::div_mod::{lemma_div_is_ordered, lemma_div_multiples_vanish};
use vstd::arithmetic::mul::lemma_mul_inequality;
use vstd::arithmetic::power2::{
    lemma2_to64, lemma2_to64_rest, lemma_pow2_adds, lemma_pow2_unfold, pow2,
};

verus! {

/// One, in millionths.
pub const MICRO: u64 = 1_000_000;

/// The natural logarithm of two, in millionths (rounded down).
pub const LN_2_MICRO: u64 = 693_147;

/// Largest argument that [`ln_micro_of`] accepts: two to the power of 100.
pub const LN_ARG_MAX: u128 = 0x10_0000_0000_0000_0000_0000_0000;

/// Upper bound of every logarithm that [`ln_micro_of`] returns.
pub const LN_MICRO_MAX: u64 = 75_000_000;

/// The largest `m * 2^k` that does not exceed `x`.
pub open spec fn octave_floor(x: int, m: int) -> int
    decreases x - m,
{
    if 0 < m && 2 * m <= x {
        octave_floor(x, 2 * m)
    } else {
        m
    }
}

/// How often `m` can be doubled without exceeding `x`.
pub open spec fn octave_count(x: int, m: int) -> int
    decreases x - m,
{
    if 0 < m && 2 * m <= x {
        1 + octave_count(x, 2 * m)
    } else {
        0
    }
}

/// `z + z^3/3 + z^5/5 + z^7/7` on millionths, each product rounded down.
pub open spec fn atanh_series_micro(z: int) -> int {
    let z2 = z * z / 1_000_000;
    let z3 = z * z2 / 1_000_000;
    let z5 = z3 * z2 / 1_000_000;
    let z7 = z5 * z2 / 1_000_000;
    z + z3 / 3 + z5 / 5 + z7 / 7
}

/// Natural logarithm of `x / 1_000_000`, in millionths, for `x` of at least
/// one million; zero below that.
///
/// With `m` the largest `2^k` millions not above `x` and
/// `z = (x - m) / (x + m)`, the value is `k ln 2 + 2 artanh z`, the area
/// tangent cut off after its fourth term. As `z < 1/3` the cut costs less
/// than 2e-5.
pub open spec fn ln_micro(x: int) -> int {
    if x <= 1_000_000 {
        0
    } else {
        let m = octave_floor(x, 1_000_000);
        let k = octave_count(x, 1_000_000);
        let z = (x - m) * 1_000_000 / (x + m);
        k * 693_147 + 2 * atanh_series_micro(z)
    }
}

proof fn lemma_ratio_at_most_one(a: int, b: int, c: int)
    requires
        0 <= a <= b,
        0 < b,
        0 <= c,
    ensures
        0 <= a * c / b <= c,
{
    lemma_mul_inequality(a, b, c);
    assert(0 <= a * c) by (nonlinear_arith)
        requires
            0 <= a,
            0 <= c,
    ;
    lemma_div_is_ordered(a * c, b * c, b);
    lemma_div_is_ordered(0, a * c, b);
    lemma_div_multiples_vanish(c, b);
    assert(b * c == c * b) by (nonlinear_arith);
}

proof fn lemma_series_bounds(z: int)
    requires
        0 <= z <= 1_000_000,
    ensures
        0 <= z * z / 1_000_000 <= 1_000_000,
        0 <= atanh_series_micro(z) <= 1_700_000,
{
    let z2 = z * z / 1_000_000;
    lemma_ratio_at_most_one(z, 1_000_000, z);
    let z3 = z * z2 / 1_000_000;
    lemma_ratio_at_most_one(z, 1_000_000, z2);
    let z5 = z3 * z2 / 1_000_000;
    lemma_ratio_at_most_one(z3, 1_000_000, z2);
    let z7 = z5 * z2 / 1_000_000;
    lemma_ratio_at_most_one(z5, 1_000_000, z2);
}

proof fn lemma_octave_bounds(x: int, m: int)
    requires
        0 < m <= x,
    ensures
        m <= octave_floor(x, m) <= x,
        0 <= octave_count(x, m),
    decreases x - m,
{
    if 2 * m <= x {
        lemma_octave_bounds(x, 2 * m);
    }
}

/// A logarithm of [`ln_micro`] is never negative.
pub proof fn lemma_ln_micro_nonnegative(x: int)
    ensures
        0 <= ln_micro(x),
{
    if x > 1_000_000 {
        lemma_octave_bounds(x, 1_000_000);
        let m = octave_floor(x, 1_000_000);
        let k = octave_count(x, 1_000_000);
        lemma_ratio_at_most_one(x - m, x + m, 1_000_000);
        lemma_series_bounds((x - m) * 1_000_000 / (x + m));
        assert(0 <= k * 693_147) by (nonlinear_arith)
            requires
                0 <= k,
        ;
    }
}

proof fn lemma_pow2_100()
    ensures
        pow2(100) == 0x10_0000_0000_0000_0000_0000_0000,
{
    lemma2_to64();
    lemma2_to64_rest();
    lemma_pow2_adds(64, 36);
}

/// Computes [`ln_micro`].
pub fn ln_micro_of(x: u128) -> (r: u64)
    requires
        x <= LN_ARG_MAX,
    ensures
        r == ln_micro(x as int),
        r <= LN_MICRO_MAX,
{
    if x <= 1_000_000 {
        return 0;
    }
    let mut m: u128 = 1_000_000;
    let mut k: u64 = 0;
    proof {
        lemma2_to64();
    }
    while m <= x / 2
        invariant
            1_000_000 <= m <= x <= LN_ARG_MAX,
            k <= 100,
            m as int == 1_000_000 * pow2(k as nat),
            octave_floor(x as int, 1_000_000) == octave_floor(x as int, m as int),
            octave_count(x as int, 1_000_000) == k + octave_count(x as int, m as int),
        decreases x - m,
    {
        proof {
            lemma_pow2_unfold((k + 1) as nat);
            if k == 100 {
                lemma_pow2_100();
            }
        }
        m = m * 2;
        k = k + 1;
    }
    let z: u128 = (x - m) * 1_000_000 / (x + m);
    proof {
        lemma_ratio_at_most_one((x - m) as int, (x + m) as int, 1_000_000);
        lemma_series_bounds(z as int);
    }
    let z2: u128 = z * z / 1_000_000;
    proof {
        lemma_ratio_at_most_one(z as int, 1_000_000, z2 as int);
    }
    let z3: u128 = z * z2 / 1_000_000;
    proof {
        lemma_ratio_at_most_one(z3 as int, 1_000_000, z2 as int);
    }
    let z5: u128 = z3 * z2 / 1_000_000;
    proof {
        lemma_ratio_at_most_one(z5 as int, 1_000_000, z2 as int);
    }
    let z7: u128 = z5 * z2 / 1_000_000;
    let series: u128 = z + z3 / 3 + z5 / 5 + z7 / 7;
    let total: u128 = (k as u128) * 693_147 + 2 * series;
    total as u64
}

} // verus!
