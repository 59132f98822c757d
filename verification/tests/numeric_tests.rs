//! Exact-value checks of the fixed-point scalar operations.

use ray_marcher::fx::{Fx, FX_LN2, FX_SCALE};
use ray_marcher::vec4::Vec4;

#[test]
fn from_int_and_ratio() {
    assert_eq!(Fx::from_int(1).bits, FX_SCALE);
    assert_eq!(Fx::from_int(-2).bits, -2 * FX_SCALE);
    assert_eq!(Fx::from_ratio(1, 2).bits, 524288);
    assert_eq!(Fx::from_ratio(3, 4).bits, 786432);
    assert_eq!(Fx::from_ratio(1, 10).bits, 104857);
    assert_eq!(Fx::from_ratio(-1, 2).bits, -524288);
}

#[test]
fn add_sub_saturate() {
    let a = Fx::from_int(3);
    let b = Fx::from_int(4);
    assert_eq!(a.add(b).bits, 7 * FX_SCALE);
    assert_eq!(a.sub(b).bits, -FX_SCALE);
    assert_eq!(Fx::from_bits(i64::MAX).add(Fx::one()).bits, i64::MAX);
    assert_eq!(Fx::from_bits(i64::MIN).sub(Fx::one()).bits, i64::MIN);
    assert_eq!(Fx::from_bits(i64::MIN).neg().bits, i64::MAX);
}

#[test]
fn mul_truncates_toward_zero() {
    let half = Fx::from_ratio(1, 2);
    assert_eq!(half.mul(half).bits, 262144);
    assert_eq!(Fx::from_int(3).mul(Fx::from_int(-2)).bits, -6 * FX_SCALE);
    // 1/3 * 3 loses the last fraction bit, rounding toward zero
    let third = Fx::from_ratio(1, 3);
    assert_eq!(third.bits, 349525);
    assert_eq!(third.mul(Fx::from_int(3)).bits, 1048575);
}

#[test]
fn div_saturates_on_zero() {
    assert_eq!(Fx::from_int(1).div(Fx::zero()).bits, i64::MAX);
    assert_eq!(Fx::from_int(-1).div(Fx::zero()).bits, i64::MIN);
    assert_eq!(Fx::zero().div(Fx::zero()).bits, 0);
    assert_eq!(Fx::from_int(7).div(Fx::from_int(-7)).bits, -FX_SCALE);
}

#[test]
fn sqrt_exact_squares() {
    assert_eq!(Fx::from_int(4).sqrt().bits, 2 * FX_SCALE);
    assert_eq!(Fx::from_int(9).sqrt().bits, 3 * FX_SCALE);
    assert_eq!(Fx::from_ratio(1, 4).sqrt().bits, 524288);
    assert_eq!(Fx::zero().sqrt().bits, 0);
    assert_eq!(Fx::from_int(-5).sqrt().bits, 0);
}

#[test]
fn sqrt_rounds_down() {
    // sqrt(2) = 1.41421356..., on the grid 1482910 bits
    let r = Fx::from_int(2).sqrt();
    assert_eq!(r.bits, 1482910);
}

#[test]
fn log_exact_powers() {
    assert_eq!(Fx::one().log2().bits, 0);
    assert_eq!(Fx::from_int(2).log2().bits, FX_SCALE);
    assert_eq!(Fx::from_int(4).log2().bits, 2 * FX_SCALE);
    assert_eq!(Fx::from_ratio(1, 2).log2().bits, -FX_SCALE);
    assert_eq!(Fx::one().ln().bits, 0);
    assert_eq!(Fx::from_int(2).ln().bits, FX_LN2);
    assert_eq!(Fx::zero().log2().bits, i64::MIN);
    assert_eq!(Fx::from_int(-3).log2().bits, i64::MIN);
}

#[test]
fn pixel_quantization_truncates_reference_constant() {
    // 255.999 per unit, truncated: 0 -> 0, 1 -> 255, one half -> 127,
    // one grid step below the first quantization boundary stays at 0
    let c = |b: i64| Vec4::new(Fx::from_bits(b), Fx::from_bits(b), Fx::from_bits(b), Fx::one());
    assert_eq!(c(0).to_pixel_data(), (0, 0, 0));
    assert_eq!(c(FX_SCALE).to_pixel_data(), (255, 255, 255));
    assert_eq!(c(524288).to_pixel_data(), (127, 127, 127));
    assert_eq!(c(4096).to_pixel_data(), (0, 0, 0));
    assert_eq!(c(FX_SCALE - 1).to_pixel_data(), (255, 255, 255));
    assert_eq!(c(-FX_SCALE).to_pixel_data(), (0, 0, 0));
    assert_eq!(c(2 * FX_SCALE).to_pixel_data(), (255, 255, 255));
}

#[test]
fn min_max_clamp() {
    let a = Fx::from_int(-1);
    let b = Fx::from_int(2);
    assert_eq!(a.min(b).bits, a.bits);
    assert_eq!(a.max(b).bits, b.bits);
    assert_eq!(a.clamp(Fx::zero(), Fx::one()).bits, 0);
    assert_eq!(b.clamp(Fx::zero(), Fx::one()).bits, FX_SCALE);
    assert_eq!(Fx::from_ratio(1, 2).clamp(Fx::zero(), Fx::one()).bits, 524288);
    assert_eq!(Fx::from_int(-3).abs().bits, 3 * FX_SCALE);
}
