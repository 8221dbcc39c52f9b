//! Fixed-point arithmetic in parts per million.
//!
//! Every fractional quantity of the engine (trust estimates, thresholds,
//! rates) is an integer count of millionths, so all estimator rules are
//! exact integer formulas. Division rounds to the nearest integer, with
//! halves rounding up.

use vstd::prelude::*;

verus! {

/// One whole, expressed in parts per million.
pub const PPM: u64 = 1000000;

/// Quotient of `n` by `d`, rounded to nearest, halves up.
pub open spec fn div_round(n: int, d: int) -> int
    recommends
        n >= 0,
        d > 0,
{
    (n + d / 2) / d
}

/// Saturating subtraction: the delta between a new cumulative counter
/// and the last one seen, clamped at zero.
pub open spec fn sat_sub(a: int, b: int) -> int {
    if a >= b {
        a - b
    } else {
        0
    }
}

/// Saturating addition of two counters capped at the largest 64-bit value.
pub open spec fn sat_add_u64(a: int, b: int) -> int {
    if a + b <= u64::MAX {
        a + b
    } else {
        u64::MAX as int
    }
}

/// Add two counters, saturating at the largest 64-bit value.
pub fn sat_add64(a: u64, b: u64) -> (r: u64)
    ensures
        r == sat_add_u64(a as int, b as int),
{
    if a <= u64::MAX - b {
        a + b
    } else {
        u64::MAX
    }
}

/// Rounding division never overshoots: if `n <= d * c` then the rounded
/// quotient of `n` by `d` is at most `c`.
pub proof fn lemma_div_round_le(n: int, d: int, c: int)
    requires
        0 <= n,
        0 < d,
        0 <= c,
        n <= d * c,
    ensures
        div_round(n, d) <= c,
{
    assert(n + d / 2 < d * (c + 1)) by {
        assert(d * (c + 1) == d * c + d) by (nonlinear_arith);
    }
    assert((n + d / 2) / d < c + 1) by {
        vstd::arithmetic::div_mod::lemma_multiply_divide_lt(n + d / 2, d, c + 1);
    }
}

/// The share `num` of `den`, expressed on a scale of `scale` parts,
/// rounded to nearest; zero when the denominator is zero.
pub open spec fn ratio_scaled_spec(num: int, den: int, scale: int) -> int {
    if den > 0 {
        div_round(num * scale, den)
    } else {
        0
    }
}

/// The share `num` of `den` on a scale of `scale` parts.
pub fn ratio_scaled(num: u64, den: u64, scale: u64) -> (r: u64)
    requires
        num <= den,
        scale <= PPM,
    ensures
        r == ratio_scaled_spec(num as int, den as int, scale as int),
        r <= scale,
{
    if den == 0 {
        0
    } else {
        proof {
            vstd::arithmetic::mul::lemma_mul_upper_bound(
                num as int,
                u64::MAX as int,
                scale as int,
                PPM as int,
            );
            vstd::arithmetic::mul::lemma_mul_nonnegative(num as int, scale as int);
            vstd::arithmetic::mul::lemma_mul_inequality(num as int, den as int, scale as int);
            lemma_div_round_le(num as int * scale as int, den as int, scale as int);
        }
        div_round_u128(num as u128 * scale as u128, den as u128) as u64
    }
}

/// Quotient of `n` by `d`, rounded to nearest, halves up.
pub fn div_round_u128(n: u128, d: u128) -> (r: u128)
    requires
        d > 0,
        n + d / 2 <= u128::MAX,
    ensures
        r == div_round(n as int, d as int),
{
    (n + d / 2) / d
}

} // verus!
