//! Saturating fixed-point arithmetic on `i64`.
//!
//! A value of one real unit is `SCALE` ticks. Results that leave the
//! symmetric range `[-FX_MAX, FX_MAX]` saturate to the nearest bound, and
//! division truncates toward zero, as the spec functions below state
//! exactly.

use vstd::prelude::*;

verus! {

/// Number of ticks per real unit.
pub const SCALE: i64 = 1_000_000;

/// Largest representable fixed-point value.
pub const FX_MAX: i64 = 9_223_372_036_854_775_807;

/// Smallest representable fixed-point value (symmetric with `FX_MAX`).
pub const FX_MIN: i64 = -9_223_372_036_854_775_807;

/// Saturation of a mathematical integer into the fixed-point range.
pub open spec fn clamp_s(x: int) -> int {
    if x > FX_MAX as int {
        FX_MAX as int
    } else if x < FX_MIN as int {
        FX_MIN as int
    } else {
        x
    }
}

/// Quotient of `a` by a positive `b`, truncated toward zero.
pub open spec fn div_trunc_s(a: int, b: int) -> int
    recommends
        b > 0,
{
    if a >= 0 {
        a / b
    } else {
        -((-a) / b)
    }
}

/// Saturating fixed-point addition.
pub open spec fn fx_add_s(a: int, b: int) -> int {
    clamp_s(a + b)
}

/// Saturating fixed-point subtraction.
pub open spec fn fx_sub_s(a: int, b: int) -> int {
    clamp_s(a - b)
}

/// Saturating fixed-point negation.
pub open spec fn fx_neg_s(a: int) -> int {
    clamp_s(-a)
}

/// Saturating fixed-point multiplication: the product of the tick counts,
/// scaled back down with truncation toward zero.
pub open spec fn fx_mul_s(a: int, b: int) -> int {
    clamp_s(div_trunc_s(a * b, SCALE as int))
}

/// Saturating fixed-point division, truncated toward zero; division by
/// zero is left at zero in the model (the executable version refuses it).
pub open spec fn fx_div_s(a: int, b: int) -> int {
    if b > 0 {
        clamp_s(div_trunc_s(a * (SCALE as int), b))
    } else if b < 0 {
        clamp_s(-div_trunc_s(a * (SCALE as int), -b))
    } else {
        0
    }
}

/// The nonnegative part of a value: `max(0, a)`.
pub open spec fn fx_max0_s(a: int) -> int {
    if a < 0 {
        0
    } else {
        a
    }
}

/// Integer square root: the largest `r` with `r * r <= n`.
pub open spec fn isqrt_s(n: int) -> int
    decreases n,
{
    if n < 1 {
        0
    } else {
        let p = isqrt_s(n - 1);
        if (p + 1) * (p + 1) <= n {
            p + 1
        } else {
            p
        }
    }
}

/// Fixed-point square root of a nonnegative value: since the argument holds
/// `a` ticks, `sqrt(a / SCALE) * SCALE == sqrt(a * SCALE)` ticks.
pub open spec fn fx_sqrt_s(a: int) -> int {
    isqrt_s(a * (SCALE as int))
}

/// Fixed-point power with a natural exponent, by repeated multiplication.
pub open spec fn fx_pow_s(b: int, e: nat) -> int
    decreases e,
{
    if e == 0 {
        SCALE as int
    } else {
        fx_mul_s(b, fx_pow_s(b, (e - 1) as nat))
    }
}

/// A product of a value with itself never scales down below zero.
pub proof fn lemma_fx_mul_self_nonneg(a: int)
    ensures
        fx_mul_s(a, a) >= 0,
{
    assert(a * a >= 0) by (nonlinear_arith);
    vstd::arithmetic::div_mod::lemma_div_pos_is_pos(a * a, SCALE as int);
}

/// Scaling by one full unit is exact on every representable value.
pub proof fn lemma_fx_mul_one(a: int)
    requires
        FX_MIN <= a <= FX_MAX,
    ensures
        fx_mul_s(a, SCALE as int) == a,
        fx_mul_s(SCALE as int, a) == a,
{
    if a >= 0 {
        vstd::arithmetic::div_mod::lemma_div_multiples_vanish(a, SCALE as int);
    } else {
        vstd::arithmetic::div_mod::lemma_div_multiples_vanish(-a, SCALE as int);
    }
}

/// Truncating division maps exact multiples of the scale back to their
/// factor.
pub proof fn lemma_div_trunc_multiple(q: int)
    ensures
        div_trunc_s((SCALE as int) * q, SCALE as int) == q,
{
    if q >= 0 {
        vstd::arithmetic::div_mod::lemma_div_multiples_vanish(q, SCALE as int);
    } else {
        vstd::arithmetic::div_mod::lemma_div_multiples_vanish(-q, SCALE as int);
        assert(-((SCALE as int) * q) == (SCALE as int) * (-q)) by (nonlinear_arith);
    }
}

/// Truncating division of a nonnegative value brackets it between
/// consecutive multiples of the divisor.
pub proof fn lemma_div_trunc_bounds(p: int, d: int)
    requires
        p >= 0,
        d > 0,
    ensures
        div_trunc_s(p, d) >= 0,
        div_trunc_s(p, d) * d <= p,
        p < (div_trunc_s(p, d) + 1) * d,
{
    vstd::arithmetic::div_mod::lemma_div_pos_is_pos(p, d);
    vstd::arithmetic::div_mod::lemma_fundamental_div_mod(p, d);
    vstd::arithmetic::div_mod::lemma_mod_bound(p, d);
    assert(div_trunc_s(p, d) * d == d * (p / d)) by (nonlinear_arith)
        requires
            div_trunc_s(p, d) == p / d,
    ;
    assert((div_trunc_s(p, d) + 1) * d == d * (p / d) + d) by (nonlinear_arith)
        requires
            div_trunc_s(p, d) == p / d,
    ;
}

/// Saturation of an `i128` into the fixed-point range.
fn clamp128(x: i128) -> (r: i64)
    ensures
        r == clamp_s(x as int),
{
    if x > FX_MAX as i128 {
        FX_MAX
    } else if x < FX_MIN as i128 {
        FX_MIN
    } else {
        x as i64
    }
}

/// Quotient truncated toward zero, on `i128` intermediates.
pub(crate) fn div_trunc128(p: i128, d: i128) -> (r: i128)
    requires
        d > 0,
        p > i128::MIN,
    ensures
        r == div_trunc_s(p as int, d as int),
{
    if p >= 0 {
        ((p as u128) / (d as u128)) as i128
    } else {
        let m: u128 = ((-p) as u128) / (d as u128);
        -(m as i128)
    }
}

/// Saturating fixed-point addition.
pub fn fx_add(a: i64, b: i64) -> (r: i64)
    ensures
        r == fx_add_s(a as int, b as int),
{
    clamp128(a as i128 + b as i128)
}

/// Saturating fixed-point subtraction.
pub fn fx_sub(a: i64, b: i64) -> (r: i64)
    ensures
        r == fx_sub_s(a as int, b as int),
{
    clamp128(a as i128 - b as i128)
}

/// Saturating fixed-point negation.
pub fn fx_neg(a: i64) -> (r: i64)
    ensures
        r == fx_neg_s(a as int),
{
    clamp128(-(a as i128))
}

/// Saturating fixed-point multiplication.
pub fn fx_mul(a: i64, b: i64) -> (r: i64)
    ensures
        r == fx_mul_s(a as int, b as int),
{
    proof {
        assert((a as int) * (b as int) <= 0x40000000000000000000000000000000int
            && (a as int) * (b as int) >= -0x40000000000000000000000000000000int)
            by (nonlinear_arith);
    }
    let p: i128 = (a as i128) * (b as i128);
    let q: i128 = div_trunc128(p, SCALE as i128);
    clamp128(q)
}

/// Saturating fixed-point division, truncated toward zero.
pub fn fx_div(a: i64, b: i64) -> (r: i64)
    requires
        b != 0,
    ensures
        r == fx_div_s(a as int, b as int),
{
    proof {
        assert((a as int) * (SCALE as int) < 0x40000000000000000000000000000000int
            && (a as int) * (SCALE as int) > -0x40000000000000000000000000000000int)
            by (nonlinear_arith);
    }
    let p: i128 = (a as i128) * (SCALE as i128);
    if b > 0 {
        clamp128(div_trunc128(p, b as i128))
    } else {
        let q: i128 = div_trunc128(p, -(b as i128));
        clamp128(-q)
    }
}

/// The nonnegative part of a value: `max(0, a)`.
pub fn fx_max0(a: i64) -> (r: i64)
    ensures
        r == fx_max0_s(a as int),
{
    if a < 0 {
        0
    } else {
        a
    }
}

/// `isqrt_s` indeed brackets its argument between consecutive squares.
pub proof fn lemma_isqrt_bounds(n: int)
    requires
        n >= 0,
    ensures
        isqrt_s(n) >= 0,
        isqrt_s(n) * isqrt_s(n) <= n,
        n < (isqrt_s(n) + 1) * (isqrt_s(n) + 1),
    decreases n,
{
    if n == 0 {
    } else {
        lemma_isqrt_bounds(n - 1);
        let p = isqrt_s(n - 1);
        if (p + 1) * (p + 1) <= n {
            assert(n < (p + 2) * (p + 2)) by (nonlinear_arith)
                requires
                    p >= 0,
                    n - 1 < (p + 1) * (p + 1),
                    (p + 1) * (p + 1) <= n,
            ;
        }
    }
}

/// The bracketing property determines the integer square root uniquely.
pub proof fn lemma_isqrt_unique(n: int, r: int)
    requires
        n >= 0,
        r >= 0,
        r * r <= n,
        n < (r + 1) * (r + 1),
    ensures
        r == isqrt_s(n),
{
    lemma_isqrt_bounds(n);
    let q = isqrt_s(n);
    if r < q {
        assert((r + 1) * (r + 1) <= q * q) by (nonlinear_arith)
            requires
                0 <= r,
                r + 1 <= q,
        ;
    } else if q < r {
        assert((q + 1) * (q + 1) <= r * r) by (nonlinear_arith)
            requires
                0 <= q,
                q + 1 <= r,
        ;
    }
}

/// Integer square root on `u128`, by binary search.
fn isqrt_u128(n: u128) -> (r: u128)
    ensures
        (r as int) * (r as int) <= n as int,
        (n as int) < (r as int + 1) * (r as int + 1),
        r < 0x10000000000000000u128,
{
    let mut lo: u128 = 0;
    let mut hi: u128 = 0x10000000000000000u128;
    proof {
        assert((hi as int) * (hi as int) > n as int) by (nonlinear_arith)
            requires
                hi == 0x10000000000000000u128,
                n <= u128::MAX,
        ;
    }
    while lo + 1 < hi
        invariant
            lo < hi,
            hi <= 0x10000000000000000u128,
            (lo as int) * (lo as int) <= n as int,
            (n as int) < (hi as int) * (hi as int),
        decreases hi - lo,
    {
        let mid: u128 = lo + (hi - lo) / 2;
        proof {
            assert((mid as int) * (mid as int) < 0x100000000000000000000000000000000int)
                by (nonlinear_arith)
                requires
                    mid < 0x10000000000000000u128,
            ;
        }
        if mid * mid <= n {
            lo = mid;
        } else {
            hi = mid;
        }
    }
    lo
}

/// Fixed-point square root of a nonnegative value.
pub fn fx_sqrt(a: i64) -> (r: i64)
    requires
        a >= 0,
    ensures
        r == fx_sqrt_s(a as int),
        r >= 0,
{
    proof {
        assert((a as int) * (SCALE as int) <= 0x20000000000000000000000int) by (nonlinear_arith)
            requires
                0 <= a <= FX_MAX,
        ;
    }
    let n: u128 = (a as u128) * (SCALE as u128);
    let s: u128 = isqrt_u128(n);
    proof {
        lemma_isqrt_unique(n as int, s as int);
        assert(s as int <= FX_MAX as int) by (nonlinear_arith)
            requires
                (s as int) * (s as int) <= 0x20000000000000000000000int,
                s >= 0,
        ;
    }
    s as i64
}

/// Fixed-point power with a natural exponent.
pub fn fx_pow(b: i64, e: u32) -> (r: i64)
    ensures
        r == fx_pow_s(b as int, e as nat),
{
    let mut acc: i64 = SCALE;
    let mut i: u32 = 0;
    while i < e
        invariant
            i <= e,
            acc == fx_pow_s(b as int, i as nat),
        decreases e - i,
    {
        acc = fx_mul(b, acc);
        i = i + 1;
    }
    acc
}

} // verus!
