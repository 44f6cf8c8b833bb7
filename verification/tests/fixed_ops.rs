use tinytracer::fixed::{fx_add, fx_div, fx_mul, fx_neg, fx_pow, fx_sqrt, fx_sub, FX_MAX, FX_MIN};
use tinytracer::SCALE;

#[test]
fn mul_is_exact_on_whole_units() {
    assert_eq!(fx_mul(2 * SCALE, 3 * SCALE), 6 * SCALE);
    assert_eq!(fx_mul(-2 * SCALE, 3 * SCALE), -6 * SCALE);
    assert_eq!(fx_mul(5 * SCALE, SCALE), 5 * SCALE);
}

#[test]
fn mul_truncates_toward_zero() {
    // one tick times one tick is far below one tick
    assert_eq!(fx_mul(1, 1), 0);
    // truncation toward zero, not toward minus infinity
    assert_eq!(fx_mul(-1, 1), 0);
    assert_eq!(fx_mul(1_500_000, 1_000), 1_500);
    assert_eq!(fx_mul(-1_500_000, 1_000), -1_500);
}

#[test]
fn add_sub_neg() {
    assert_eq!(fx_add(300_000, 200_000), 500_000);
    assert_eq!(fx_sub(300_000, 500_000), -200_000);
    assert_eq!(fx_neg(250_000), -250_000);
}

#[test]
fn saturation_at_the_range_bounds() {
    assert_eq!(fx_add(FX_MAX, FX_MAX), FX_MAX);
    assert_eq!(fx_sub(FX_MIN, FX_MAX), FX_MIN);
    assert_eq!(fx_mul(FX_MAX, FX_MAX), FX_MAX);
    assert_eq!(fx_mul(FX_MAX, -FX_MAX), FX_MIN);
}

#[test]
fn div_truncates_toward_zero() {
    assert_eq!(fx_div(SCALE, 3 * SCALE), 333_333);
    assert_eq!(fx_div(-SCALE, 3 * SCALE), -333_333);
    assert_eq!(fx_div(SCALE, -3 * SCALE), -333_333);
    assert_eq!(fx_div(4 * SCALE, 2 * SCALE), 2 * SCALE);
}

#[test]
fn sqrt_of_squares_and_in_between() {
    assert_eq!(fx_sqrt(4 * SCALE), 2 * SCALE);
    assert_eq!(fx_sqrt(9 * SCALE), 3 * SCALE);
    assert_eq!(fx_sqrt(0), 0);
    // sqrt(2) in ticks, truncated
    assert_eq!(fx_sqrt(2 * SCALE), 1_414_213);
}

#[test]
fn pow_by_repeated_multiplication() {
    assert_eq!(fx_pow(500_000, 0), SCALE);
    assert_eq!(fx_pow(500_000, 1), 500_000);
    assert_eq!(fx_pow(500_000, 2), 250_000);
    assert_eq!(fx_pow(2 * SCALE, 10), 1024 * SCALE);
    // a tiny base to a large exponent collapses to zero
    assert_eq!(fx_pow(600_000, 50), 0);
}
