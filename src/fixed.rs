//! Fixed-point scalars: an `i64` counts millionths of a unit.
use vstd::prelude::*;
use vstd::arithmetic::div_mod::{lemma_div_by_multiple, lemma_div_is_ordered};

verus! {

/// Number of raw steps in one unit (metre, second, metre per second, ...).
pub const SCALE: i64 = 1_000_000;

/// Largest magnitude accepted for any fixed-point quantity handed to the library.
pub const MAX_MAGNITUDE: i64 = 1_000_000_000_000;

/// Whether a raw value lies in the range the library accepts.
pub open spec fn in_range(x: int) -> bool {
    -MAX_MAGNITUDE <= x <= MAX_MAGNITUDE
}

/// Integer division rounding toward zero, for a positive divisor.
pub open spec fn div_tz(n: int, d: int) -> int {
    if n >= 0 {
        n / d
    } else {
        -((-n) / d)
    }
}

/// Product of two fixed-point values, rounded toward zero.
pub open spec fn fmul(a: int, b: int) -> int {
    div_tz(a * b, SCALE as int)
}

/// Division rounding toward zero on wide integers.
pub fn div_toward_zero(n: i128, d: i128) -> (r: i128)
    requires
        d > 0,
        n > i128::MIN,
    ensures
        r == div_tz(n as int, d as int),
{
    if n >= 0 {
        n / d
    } else {
        let m: i128 = -n;
        -(m / d)
    }
}

/// Integer division rounding up, for a non-negative dividend and a positive divisor.
pub open spec fn div_up(n: int, d: int) -> int {
    (n + d - 1) / d
}

/// Product of two fixed-point values, rounded toward zero.
pub fn fx_mul(a: i64, b: i64) -> (r: i64)
    requires
        in_range(a as int),
        in_range(b as int),
    ensures
        r == fmul(a as int, b as int),
{
    proof {
        lemma_mul_bound(a as int, b as int, MAX_MAGNITUDE as int, MAX_MAGNITUDE as int);
    }
    let p: i128 = (a as i128) * (b as i128);
    let q = div_toward_zero(p, SCALE as i128);
    assert(-1_000_000_000_000_000_000 <= q <= 1_000_000_000_000_000_000);
    q as i64
}

/// Bounds on two factors bound their product.
pub proof fn lemma_mul_bound(a: int, b: int, ba: int, bb: int)
    requires
        -ba <= a <= ba,
        -bb <= b <= bb,
    ensures
        -(ba * bb) <= a * b <= ba * bb,
{
    assert(-(ba * bb) <= a * b <= ba * bb) by (nonlinear_arith)
        requires
            -ba <= a <= ba,
            -bb <= b <= bb,
    ;
}

/// A fixed-point product of two in-range values stays within 10^18 raw steps.
pub proof fn lemma_fmul_bound(a: int, b: int)
    requires
        in_range(a),
        in_range(b),
    ensures
        -1_000_000_000_000_000_000 <= fmul(a, b) <= 1_000_000_000_000_000_000,
        a >= 0 && b >= 0 ==> fmul(a, b) >= 0,
        fmul(-a, b) == -fmul(a, b),
{
    lemma_mul_bound(a, b, MAX_MAGNITUDE as int, MAX_MAGNITUDE as int);
    assert(a >= 0 && b >= 0 ==> a * b >= 0) by (nonlinear_arith);
    assert((-a) * b == -(a * b)) by (nonlinear_arith);
}

/// A raw product bounded by `bound` units gives a fixed-point product bounded by `bound`.
pub proof fn lemma_fmul_le(a: int, b: int, bound: int)
    requires
        bound >= 0,
        -(bound * SCALE) <= a * b <= bound * SCALE,
    ensures
        -bound <= fmul(a, b) <= bound,
        a * b >= 0 ==> fmul(a, b) >= 0,
{
    lemma_div_by_multiple(bound, SCALE as int);
    if a * b >= 0 {
        lemma_div_is_ordered(a * b, bound * SCALE, SCALE as int);
        lemma_div_is_ordered(0, a * b, SCALE as int);
    } else {
        lemma_div_is_ordered(-(a * b), bound * SCALE, SCALE as int);
        lemma_div_is_ordered(0, -(a * b), SCALE as int);
    }
}

/// Dividing a value bounded by `bound` units by the scale gives at most `bound`.
pub proof fn lemma_div_tz_le(n: int, bound: int)
    requires
        bound >= 0,
        -(bound * SCALE) <= n <= bound * SCALE,
    ensures
        -bound <= div_tz(n, SCALE as int) <= bound,
{
    lemma_div_by_multiple(bound, SCALE as int);
    if n >= 0 {
        lemma_div_is_ordered(n, bound * SCALE, SCALE as int);
        lemma_div_is_ordered(0, n, SCALE as int);
    } else {
        lemma_div_is_ordered(-n, bound * SCALE, SCALE as int);
        lemma_div_is_ordered(0, -n, SCALE as int);
    }
}

/// Rounding toward zero by a positive divisor keeps a bound `m` when `|n| <= d * m`.
pub proof fn lemma_div_tz_bound(n: int, d: int, m: int)
    requires
        d > 0,
        m >= 0,
        -(d * m) <= n <= d * m,
    ensures
        -m <= div_tz(n, d) <= m,
{
    assert(d * m == m * d) by (nonlinear_arith);
    lemma_div_by_multiple(m, d);
    if n >= 0 {
        lemma_div_is_ordered(n, m * d, d);
        lemma_div_is_ordered(0, n, d);
    } else {
        lemma_div_is_ordered(-n, m * d, d);
        lemma_div_is_ordered(0, -n, d);
    }
}

/// Dividing an exact multiple rounds nothing away.
pub proof fn lemma_div_tz_exact(k: int, d: int)
    requires
        d > 0,
    ensures
        div_tz(k * d, d) == k,
        div_tz(d * k, d) == k,
{
    assert(k * d == d * k) by (nonlinear_arith);
    if k >= 0 {
        assert(k * d >= 0) by (nonlinear_arith)
            requires
                k >= 0,
                d > 0,
        ;
        lemma_div_by_multiple(k, d);
    } else {
        assert(k * d < 0) by (nonlinear_arith)
            requires
                k < 0,
                d > 0,
        ;
        assert(-(k * d) == (-k) * d) by (nonlinear_arith);
        lemma_div_by_multiple(-k, d);
    }
}

/// Factors up to a thousand units multiply to at most a million units.
pub proof fn lemma_fmul_factors(a: int, b: int)
    requires
        0 <= a <= 1_000_000_000,
        0 <= b <= 1_000_000_000,
    ensures
        0 <= fmul(a, b) <= 1_000_000_000_000,
{
    lemma_mul_bound(a, b, 1_000_000_000, 1_000_000_000);
    assert(a * b >= 0) by (nonlinear_arith)
        requires
            a >= 0,
            b >= 0,
    ;
    lemma_fmul_le(a, b, 1_000_000_000_000);
}

/// Multiplying by at most one unit never increases a magnitude.
pub proof fn lemma_fmul_unit(a: int, b: int, bound: int)
    requires
        bound >= 0,
        -bound <= a <= bound,
        -SCALE <= b <= SCALE,
    ensures
        -bound <= fmul(a, b) <= bound,
{
    lemma_mul_bound(a, b, bound, SCALE as int);
    assert(bound * SCALE == SCALE * bound) by (nonlinear_arith);
    lemma_fmul_le(a, b, bound);
}

} // verus!
