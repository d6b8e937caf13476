use impulse::fixed::{cos, sin, Real, HALF_PI_RAW, PI_RAW, RAW_MAX, SCALE};

fn r(x: i64) -> Real {
    Real { raw: x }
}

#[test]
fn whole_and_milli_values() {
    assert_eq!(Real::from_int(5).raw, 5 * SCALE);
    assert_eq!(Real::from_int(-3).raw, -3 * SCALE);
    assert_eq!(Real::from_milli(250).raw, SCALE / 4);
}

#[test]
fn arithmetic_is_exact() {
    let a = Real::from_int(3);
    let b = Real::from_milli(500);
    assert_eq!(a.add(b).raw, 3_500_000_000);
    assert_eq!(a.sub(b).raw, 2_500_000_000);
    assert_eq!(a.mul(b).raw, 1_500_000_000);
    assert_eq!(a.div(b).raw, 6 * SCALE);
    assert_eq!(Real::from_int(1).div(Real::from_int(3)).raw, 333_333_333);
    assert_eq!(Real::from_int(-1).div(Real::from_int(3)).raw, -333_333_333);
    assert_eq!(Real::from_int(1).div(Real::from_int(-3)).raw, -333_333_333);
}

#[test]
fn products_truncate_toward_zero() {
    assert_eq!(r(3).mul(Real::from_milli(500)).raw, 1);
    assert_eq!(r(-3).mul(Real::from_milli(500)).raw, -1);
    assert_eq!(r(7).half().raw, 3);
    assert_eq!(r(-7).half().raw, -3);
}

#[test]
fn results_saturate() {
    let big = r(RAW_MAX);
    assert_eq!(big.add(Real::from_int(1)).raw, RAW_MAX);
    assert_eq!(big.neg().sub(Real::from_int(1)).raw, -RAW_MAX);
    assert_eq!(big.mul(Real::from_int(2)).raw, RAW_MAX);
    assert_eq!(big.mul(Real::from_int(-2)).raw, -RAW_MAX);
    assert_eq!(r(i64::MIN).neg().raw, RAW_MAX);
}

#[test]
fn abs_min_max() {
    assert_eq!(Real::from_int(-4).abs().raw, 4 * SCALE);
    assert_eq!(Real::from_int(4).abs().raw, 4 * SCALE);
    assert_eq!(Real::from_int(2).min(Real::from_int(-1)).raw, -SCALE);
    assert_eq!(Real::from_int(2).max(Real::from_int(-1)).raw, 2 * SCALE);
}

#[test]
fn square_roots_round_down() {
    assert_eq!(Real::from_int(64).sqrt().raw, 8 * SCALE);
    assert_eq!(Real::from_int(100).sqrt().raw, 10 * SCALE);
    assert_eq!(Real::from_int(2).sqrt().raw, 1_414_213_562);
    assert_eq!(Real::zero().sqrt().raw, 0);
    assert_eq!(r(1).sqrt().raw, 31_622);
}

#[test]
fn sine_and_cosine() {
    assert_eq!(sin(Real::zero()).raw, 0);
    assert!((cos(Real::zero()).raw - SCALE).abs() <= 10);
    assert!((sin(r(HALF_PI_RAW)).raw - SCALE).abs() <= 10);
    assert!(sin(r(PI_RAW)).raw.abs() <= 10);
    assert!((sin(r(-HALF_PI_RAW)).raw + SCALE).abs() <= 10);
    // sin(1) = 0.841470985
    assert!((sin(Real::from_int(1)).raw - 841_470_985).abs() <= 10);
    // cos(1) = 0.540302306
    assert!((cos(Real::from_int(1)).raw - 540_302_306).abs() <= 10);
    // whole turns are removed: sin(1 + 4 pi) = sin(1)
    let turned = Real::from_int(1).add(r(2 * 6_283_185_307));
    assert!((sin(turned).raw - 841_470_985).abs() <= 10);
    for k in -20..20 {
        let s = sin(Real::from_milli(k * 400)).raw;
        assert!(s.abs() <= SCALE);
    }
}
