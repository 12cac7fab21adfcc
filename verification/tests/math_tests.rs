//! Tests of the fixed-point kernels: square root, hyperbolic tangent,
//! sine, cosine and arctangent.

use geny::fixed::{clamp, isqrt, mul_fp, ONE};
use geny::trig::{atan2_fp, cos_fp, sin_fp, tanh_fp, HALF_PI, PI, QUARTER_PI, TAU};

#[test]
fn integer_square_roots() {
    assert_eq!(isqrt(0), 0);
    assert_eq!(isqrt(1), 1);
    assert_eq!(isqrt(15), 3);
    assert_eq!(isqrt(16), 4);
    assert_eq!(isqrt(1 << 32), 1 << 16);
    assert_eq!(isqrt(u64::MAX), (1 << 32) - 1);
}

#[test]
fn fixed_point_products_truncate_toward_zero() {
    assert_eq!(mul_fp(ONE, ONE), ONE);
    assert_eq!(mul_fp(ONE / 2, ONE / 2), ONE / 4);
    assert_eq!(mul_fp(-ONE / 2, ONE / 2), -ONE / 4);
    assert_eq!(mul_fp(3, 3), 0);
    assert_eq!(mul_fp(-3, 3), 0);
}

#[test]
fn clamp_is_exact() {
    assert_eq!(clamp(5, 0, 3), 3);
    assert_eq!(clamp(-5, 0, 3), 0);
    assert_eq!(clamp(2, 0, 3), 2);
}

#[test]
fn tangent_fixes_zero_and_saturates() {
    assert_eq!(tanh_fp(0), 0);
    assert_eq!(tanh_fp(3 * ONE), ONE - 1);
    assert_eq!(tanh_fp(100 * ONE), ONE - 1);
    assert_eq!(tanh_fp(-100 * ONE), -(ONE - 1));
    // Odd symmetry on the rational stretch.
    assert_eq!(tanh_fp(-ONE), -tanh_fp(ONE));
    // Strictly inside the open unit interval, and growing.
    let half = tanh_fp(ONE / 2);
    let one = tanh_fp(ONE);
    assert!(0 < half && half < one && one < ONE);
}

#[test]
fn sine_and_cosine_hit_the_cardinal_points() {
    assert_eq!(sin_fp(0), 0);
    assert_eq!(sin_fp(HALF_PI), ONE);
    assert_eq!(sin_fp(PI), 0);
    assert_eq!(sin_fp(PI + HALF_PI), -ONE);
    assert_eq!(cos_fp(0), ONE);
    assert_eq!(cos_fp(HALF_PI), 0);
    assert_eq!(cos_fp(PI), -ONE);
    assert_eq!(cos_fp(TAU), ONE);
}

#[test]
fn arctangent_is_exact_on_the_axes() {
    assert_eq!(atan2_fp(0, ONE), 0);
    assert_eq!(atan2_fp(ONE, 0), HALF_PI);
    assert_eq!(atan2_fp(0, -ONE), PI);
    assert_eq!(atan2_fp(-ONE, 0), -HALF_PI);
    assert_eq!(atan2_fp(0, 0), 0);
    // The diagonal lands on the eighth turn exactly: the approximation is
    // exact at both ends of its unit stretch.
    assert_eq!(atan2_fp(ONE, ONE), QUARTER_PI);
}
