//! Small arithmetic helpers shared by the simulation and the estimators:
//! truncating (round-toward-zero) division as Rust's `/` performs it on
//! signed integers, saturation, and bound lemmas for products and quotients.

use vstd::prelude::*;

verus! {

/// Division rounding toward zero, the semantics of Rust's `/` on signed
/// integers (spec `/` alone is Euclidean).
pub open spec fn tdiv(a: int, b: int) -> int {
    if a >= 0 {
        a / b
    } else {
        -((-a) / b)
    }
}

/// `x` saturated into the interval [lo, hi].
pub open spec fn clip(x: int, lo: int, hi: int) -> int {
    if x < lo {
        lo
    } else if x > hi {
        hi
    } else {
        x
    }
}

/// Saturate an i64 into [lo, hi].
pub fn clamp_i64(x: i64, lo: i64, hi: i64) -> (r: i64)
    requires
        lo <= hi,
    ensures
        r as int == clip(x as int, lo as int, hi as int),
{
    if x < lo {
        lo
    } else if x > hi {
        hi
    } else {
        x
    }
}

/// A product of bounded factors is bounded by the product of the bounds.
pub proof fn lemma_mul_bound(a: int, b: int, am: int, bm: int)
    by (nonlinear_arith)
    requires
        -am <= a <= am,
        -bm <= b <= bm,
    ensures
        -(am * bm) <= a * b <= am * bm,
{
}

/// A product of factors at least one is at least either factor.
pub proof fn lemma_mul_pos(a: int, b: int)
    by (nonlinear_arith)
    requires
        a >= 1,
        b >= 1,
    ensures
        a * b >= a,
        a * b >= b,
{
}

/// Truncating division by a positive divisor never grows the magnitude.
pub proof fn lemma_tdiv_bound(a: int, b: int, am: int)
    by (nonlinear_arith)
    requires
        b >= 1,
        -am <= a <= am,
    ensures
        -am <= tdiv(a, b) <= am,
{
}

/// Squares are nonnegative.
pub proof fn lemma_square_nonneg(a: int)
    by (nonlinear_arith)
    ensures
        a * a >= 0,
{
}

/// Multiplying a nonnegative factor by a larger value gives a larger
/// product.
pub proof fn lemma_mul_mono(c: int, b: int, bmin: int)
    by (nonlinear_arith)
    requires
        c >= 0,
        b >= bmin,
    ensures
        c * b >= c * bmin,
{
}

/// AM-GM at the million scale: x * 10^12 <= 5*10^5 * (10^12 + x^2) for
/// nonnegative x.
pub proof fn lemma_amgm_million(x: int)
    by (nonlinear_arith)
    requires
        x >= 0,
    ensures
        x * 1_000_000_000_000 <= 500_000 * (1_000_000_000_000 + x * x),
{
}

/// A product of nonnegative factors is nonnegative.
pub proof fn lemma_mul_nonneg(a: int, b: int)
    by (nonlinear_arith)
    requires
        a >= 0,
        b >= 0,
    ensures
        a * b >= 0,
{
}

/// Adding `c` whole divisors shifts a nonnegative truncating quotient by
/// exactly `c`.
pub proof fn lemma_tdiv_shift(a: int, b: int, c: int)
    by (nonlinear_arith)
    requires
        a >= 0,
        b >= 1,
        c >= 0,
    ensures
        tdiv(a + c * b, b) == tdiv(a, b) + c,
{
}

/// Truncating division of a nonnegative value is nonnegative and bounded
/// by the value.
pub proof fn lemma_tdiv_nonneg(a: int, b: int)
    by (nonlinear_arith)
    requires
        a >= 0,
        b >= 1,
    ensures
        0 <= tdiv(a, b) <= a,
{
}

/// Truncating division is monotone in a nonnegative numerator.
pub proof fn lemma_tdiv_mono_num(a1: int, a2: int, b: int)
    by (nonlinear_arith)
    requires
        0 <= a1 <= a2,
        b >= 1,
    ensures
        tdiv(a1, b) <= tdiv(a2, b),
{
}

/// A nonnegative number whose square is under b^2 is under b.
pub proof fn lemma_sqrt_bound(r: int, x: int, b: int)
    by (nonlinear_arith)
    requires
        r >= 0,
        b >= 0,
        r * r <= x,
        x < b * b,
    ensures
        r < b,
{
}

/// Negating a positive divisor negates the truncating quotient.
pub proof fn lemma_tdiv_neg(a: int, b: int)
    by (nonlinear_arith)
    requires
        b >= 1,
    ensures
        tdiv(a, -b) == -tdiv(a, b),
{
}

/// Truncating division shrinks a bound by the divisor: if |a| <= q*b then
/// |a/b| <= q.
pub proof fn lemma_tdiv_quotient_bound(a: int, b: int, q: int)
    by (nonlinear_arith)
    requires
        b >= 1,
        q >= 0,
        -(q * b) <= a <= q * b,
    ensures
        -q <= tdiv(a, b) <= q,
{
}

} // verus!
