use orbit_engine::fixed::{Fx, SCALE, fx_add, fx_div, fx_mul, fx_neg, fx_sqrt, fx_sub};
use orbit_engine::vector::{Vector3, v3_add, v3_norm, v3_scale, v3_sub};

fn fx(raw: i64) -> Fx {
    Fx { raw }
}

#[test]
fn scale_is_ten_to_the_twelfth() {
    assert_eq!(SCALE, 1_000_000_000_000);
}

#[test]
fn mul_exact() {
    // 1.5 * 2.0 == 3.0
    assert_eq!(fx_mul(fx(1_500_000_000_000), fx(2 * SCALE)).raw, 3 * SCALE);
}

#[test]
fn mul_truncates_toward_zero() {
    // (1.5e-6)^2 == 2.25e-12, which truncates to two raw units
    assert_eq!(fx_mul(fx(1_500_000), fx(1_500_000)).raw, 2);
    assert_eq!(fx_mul(fx(-1_500_000), fx(1_500_000)).raw, -2);
}

#[test]
fn mul_saturates() {
    assert_eq!(fx_mul(fx(i64::MAX), fx(i64::MAX)).raw, i64::MAX);
    assert_eq!(fx_mul(fx(i64::MAX), fx(-2 * SCALE)).raw, i64::MIN);
}

#[test]
fn div_exact() {
    // 3.0 / 2.0 == 1.5
    assert_eq!(fx_div(fx(3 * SCALE), fx(2 * SCALE)).raw, 1_500_000_000_000);
    assert_eq!(fx_div(fx(-3 * SCALE), fx(2 * SCALE)).raw, -1_500_000_000_000);
}

#[test]
fn div_by_zero_is_zero() {
    assert_eq!(fx_div(fx(5 * SCALE), fx(0)).raw, 0);
    assert_eq!(fx_div(fx(-5 * SCALE), fx(0)).raw, 0);
}

#[test]
fn sqrt_exact_square() {
    assert_eq!(fx_sqrt(fx(4 * SCALE)).raw, 2 * SCALE);
}

#[test]
fn sqrt_of_two() {
    // floor(sqrt(2) * 10^12)
    assert_eq!(fx_sqrt(fx(2 * SCALE)).raw, 1_414_213_562_373);
}

#[test]
fn sqrt_of_non_positive_is_zero() {
    assert_eq!(fx_sqrt(fx(0)).raw, 0);
    assert_eq!(fx_sqrt(fx(-4 * SCALE)).raw, 0);
}

#[test]
fn add_sub_saturate() {
    assert_eq!(fx_add(fx(i64::MAX), fx(1)).raw, i64::MAX);
    assert_eq!(fx_sub(fx(i64::MIN), fx(1)).raw, i64::MIN);
    assert_eq!(fx_add(fx(2 * SCALE), fx(-5 * SCALE)).raw, -3 * SCALE);
}

#[test]
fn neg_saturates_at_min() {
    assert_eq!(fx_neg(fx(i64::MIN)).raw, i64::MAX);
    assert_eq!(fx_neg(fx(7)).raw, -7);
}

#[test]
fn vector_componentwise_ops() {
    let a = Vector3 { x: fx(SCALE), y: fx(2 * SCALE), z: fx(-SCALE) };
    let b = Vector3 { x: fx(SCALE), y: fx(SCALE), z: fx(SCALE) };
    let s = v3_add(a, b);
    assert_eq!((s.x.raw, s.y.raw, s.z.raw), (2 * SCALE, 3 * SCALE, 0));
    let d = v3_sub(a, b);
    assert_eq!((d.x.raw, d.y.raw, d.z.raw), (0, SCALE, -2 * SCALE));
    let m = v3_scale(fx(2 * SCALE), a);
    assert_eq!((m.x.raw, m.y.raw, m.z.raw), (2 * SCALE, 4 * SCALE, -2 * SCALE));
}

#[test]
fn vector_norm_three_four_five() {
    let v = Vector3 { x: fx(3 * SCALE), y: fx(4 * SCALE), z: fx(0) };
    assert_eq!(v3_norm(v).raw, 5 * SCALE);
}
