//! Integer square root and sign-aware truncating scaling: the arithmetic
//! kernel of the normalization steps in the avoidance and speed-limiting
//! stages.

use vstd::prelude::*;
use vstd::arithmetic::div_mod::{lemma_div_by_multiple, lemma_div_is_ordered, lemma_fundamental_div_mod, lemma_mod_bound};
use vstd::arithmetic::mul::{lemma_mul_inequality, lemma_mul_upper_bound};

verus! {

/// Magnitudes handed to `scale_i64` stay below this (2^60).
pub const SPAN: i64 = 0x1000_0000_0000_0000;

/// Ratio numerators handed to `scale_i64` stay below this (2^32).
pub const NUM_LIMIT: i64 = 0x1_0000_0000;

/// The floor of the square root of `n` (0 for negative `n`).
pub open spec fn sqrt_floor(n: int) -> int
    decreases n,
{
    if n <= 0 {
        0
    } else {
        let r = sqrt_floor(n - 1);
        if (r + 1) * (r + 1) <= n {
            r + 1
        } else {
            r
        }
    }
}

/// Squaring is monotone on nonnegative integers.
pub proof fn lemma_sq_le(a: int, b: int)
    by (nonlinear_arith)
    requires
        0 <= a <= b,
    ensures
        a * a <= b * b,
{
}

/// Squaring is strictly monotone on nonnegative integers.
pub proof fn lemma_sq_lt(a: int, b: int)
    by (nonlinear_arith)
    requires
        0 <= a < b,
    ensures
        a * a < b * b,
{
}

/// Binomial expansion of `(a + 1)^2`.
pub proof fn lemma_sq_expand(a: int)
    by (nonlinear_arith)
    ensures
        (a + 1) * (a + 1) == a * a + 2 * a + 1,
{
}

/// `sqrt_floor(n)` really is the floor of the square root.
pub proof fn lemma_sqrt_floor(n: int)
    requires
        n >= 0,
    ensures
        0 <= sqrt_floor(n),
        sqrt_floor(n) * sqrt_floor(n) <= n,
        n < (sqrt_floor(n) + 1) * (sqrt_floor(n) + 1),
    decreases n,
{
    if n == 0 {
        assert(sqrt_floor(0) == 0);
    } else {
        lemma_sqrt_floor(n - 1);
        let r = sqrt_floor(n - 1);
        if (r + 1) * (r + 1) <= n {
            // n - 1 < (r + 1) * (r + 1) <= n forces n == (r + 1) * (r + 1).
            assert(n == (r + 1) * (r + 1));
            lemma_sq_lt(r + 1, r + 2);
        }
    }
}

/// The floor square root is unique.
pub proof fn lemma_sqrt_floor_unique(n: int, r: int)
    requires
        0 <= r,
        r * r <= n,
        n < (r + 1) * (r + 1),
    ensures
        r == sqrt_floor(n),
{
    lemma_sqrt_floor(n);
    let s = sqrt_floor(n);
    if r < s {
        lemma_sq_le(r + 1, s);
        assert(false);
    }
    if s < r {
        lemma_sq_le(s + 1, r);
        assert(false);
    }
}

/// A component of a vector is no longer than the floor square root of the
/// vector's squared magnitude.
pub proof fn lemma_comp_le_sqrt(x: int, s: int, m: int)
    requires
        0 <= x,
        0 <= s,
        x * x <= m,
        m < (s + 1) * (s + 1),
    ensures
        x <= s,
{
    if x > s {
        lemma_sq_le(s + 1, x);
        assert(false);
    }
}

/// Binary-search integer square root over the full `u128` range.
pub fn isqrt_u128(n: u128) -> (r: u128)
    ensures
        r * r <= n < (r + 1) * (r + 1),
        r == sqrt_floor(n as int),
{
    let mut lo: u128 = 0;
    let mut hi: u128 = 0x1_0000_0000_0000_0000;
    proof {
        assert(n < 0x1_0000_0000_0000_0000u128 * 0x1_0000_0000_0000_0000u128) by (nonlinear_arith)
            requires
                n <= u128::MAX,
        ;
    }
    while lo + 1 < hi
        invariant
            lo < hi <= 0x1_0000_0000_0000_0000u128,
            lo * lo <= n,
            n < hi * hi,
        decreases hi - lo,
    {
        let mid = lo + (hi - lo) / 2;
        proof {
            assert(mid * mid <= u128::MAX) by (nonlinear_arith)
                requires
                    mid < 0x1_0000_0000_0000_0000u128,
            ;
        }
        if mid * mid <= n {
            lo = mid;
        } else {
            hi = mid;
        }
    }
    proof {
        lemma_sqrt_floor_unique(n as int, lo as int);
    }
    lo
}

/// Truncating (round-toward-zero) division of a signed value by a
/// positive one, as the hardware performs it.
pub open spec fn div_trunc(a: int, d: int) -> int
    recommends
        d > 0,
{
    if a >= 0 {
        a / d
    } else {
        -((-a) / d)
    }
}

/// `a * num / den`, truncated toward zero: the fixed-point form of
/// scaling a component by the ratio `num / den`.
pub open spec fn scaled(a: int, num: int, den: int) -> int
    recommends
        num >= 0,
        den > 0,
{
    div_trunc(a * num, den)
}

/// Division brackets: `q * d <= a < (q + 1) * d` for `q == a / d`.
pub proof fn lemma_div_brackets(a: int, d: int)
    requires
        0 <= a,
        0 < d,
    ensures
        (a / d) * d <= a,
        a < (a / d + 1) * d,
        0 <= a / d,
{
    lemma_fundamental_div_mod(a, d);
    lemma_mod_bound(a, d);
    assert((a / d) * d == d * (a / d)) by (nonlinear_arith);
    assert((a / d + 1) * d == d * (a / d) + d) by (nonlinear_arith);
    if a / d < 0 {
        assert(d * (a / d) <= -d) by (nonlinear_arith)
            requires
                0 < d,
                a / d <= -1,
        ;
        assert(false);
    }
}

/// Scaling a magnitude that is at most `s` by `t / s` yields at most `t`.
pub proof fn lemma_scaled_le(a: int, t: int, s: int)
    requires
        0 <= a <= s,
        0 <= t,
        0 < s,
    ensures
        0 <= (a * t) / s <= t,
{
    lemma_mul_upper_bound(a, s, t, t);
    assert(a * t >= 0) by (nonlinear_arith)
        requires
            0 <= a,
            0 <= t,
    ;
    lemma_div_is_ordered(a * t, s * t, s);
    lemma_div_by_multiple(t, s);
    assert(s * t == t * s) by (nonlinear_arith);
    lemma_div_brackets(a * t, s);
}

/// Truncating division cannot leave `[-b, b]` when the numerator lies in
/// `[-(n * b), n * b]`.
pub proof fn lemma_div_trunc_bound(a: int, n: int, b: int)
    requires
        0 < n,
        0 <= b,
        -(n * b) <= a <= n * b,
    ensures
        -b <= div_trunc(a, n) <= b,
{
    vstd::arithmetic::div_mod::lemma_div_multiples_vanish(b, n);
    if a >= 0 {
        lemma_div_is_ordered(a, n * b, n);
        lemma_div_brackets(a, n);
    } else {
        lemma_div_is_ordered(-a, n * b, n);
        lemma_div_brackets(-a, n);
    }
}

/// Exec form of `scaled(a, num, den)` for nonnegative ratios, with the
/// guarantees that a ratio at most 1 cannot grow the magnitude and that
/// a magnitude at most `den` scales to at most `num`.
pub fn scale_i64(a: i64, num: i64, den: i64) -> (r: i64)
    requires
        0 <= num <= NUM_LIMIT,
        0 < den,
        -SPAN <= a <= SPAN,
        vstd::math::abs(a as int) <= den || num <= den,
    ensures
        r as int == scaled(a as int, num as int, den as int),
        vstd::math::abs(a as int) <= den ==> vstd::math::abs(r as int) <= num,
        num <= den ==> vstd::math::abs(r as int) <= vstd::math::abs(a as int),
{
    let mag: u128 = if a >= 0 {
        a as u128
    } else {
        (-(a as i128)) as u128
    };
    proof {
        assert(mag == vstd::math::abs(a as int));
        lemma_mul_upper_bound(mag as int, SPAN as int, num as int, NUM_LIMIT as int);
        assert((SPAN as int) * (NUM_LIMIT as int) <= u128::MAX) by (nonlinear_arith);
    }
    let q: u128 = mag * (num as u128) / (den as u128);
    proof {
        if mag as int <= den as int {
            lemma_scaled_le(mag as int, num as int, den as int);
        }
        if num <= den {
            lemma_scaled_le(num as int, mag as int, den as int);
            assert((num as int) * (mag as int) == (mag as int) * (num as int)) by (nonlinear_arith);
        }
        assert(q <= SPAN);
        if a < 0 {
            assert((a as int) * (num as int) == -((mag as int) * (num as int))) by (nonlinear_arith)
                requires
                    a < 0,
                    mag as int == -(a as int),
            ;
        }
    }
    if a >= 0 {
        q as i64
    } else {
        -(q as i64)
    }
}

} // verus!
