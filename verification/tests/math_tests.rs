use webgl_client::math::{isqrt, mul_div_trunc, sin_fixed, PI_FP, SCALE, TAU_FP};

#[test]
fn isqrt_exact_values() {
    assert_eq!(isqrt(0), 0);
    assert_eq!(isqrt(1), 1);
    assert_eq!(isqrt(35), 5);
    assert_eq!(isqrt(36), 6);
    assert_eq!(isqrt(10_000_000_000_000_000_000_000), 100_000_000_000);
    assert_eq!(isqrt(u128::MAX), u64::MAX as u128);
}

#[test]
fn sin_fixed_special_angles() {
    assert_eq!(sin_fixed(0), 0);
    // the approximation is exact at the peak: sin(pi/2) = 1
    assert!((sin_fixed(PI_FP / 2) - SCALE).abs() <= 2);
    // sin(pi) back to zero, and the second half-turn is negative
    assert!(sin_fixed(PI_FP - 1).abs() < 100);
    assert!((sin_fixed(PI_FP + PI_FP / 2) + SCALE).abs() <= 2);
    // periodic in 2 pi
    assert_eq!(sin_fixed(TAU_FP + 123_456), sin_fixed(123_456));
}

#[test]
fn sin_fixed_tracks_the_real_sine() {
    for k in 0..1000 {
        let phase: i64 = k * 12_345;
        let got = sin_fixed(phase) as f64 / SCALE as f64;
        let want = (phase as f64 / SCALE as f64).sin();
        assert!(
            (got - want).abs() < 0.02,
            "sin at {phase}: got {got}, want {want}"
        );
    }
}

#[test]
fn mul_div_trunc_rounds_toward_zero() {
    assert_eq!(mul_div_trunc(7, 3, 4), 5); // 21/4 = 5.25
    assert_eq!(mul_div_trunc(-7, 3, 4), -5); // -21/4 = -5.25, toward zero
    assert_eq!(mul_div_trunc(0, 5, 9), 0);
    assert_eq!(mul_div_trunc(10, 0, 3), 0);
}
