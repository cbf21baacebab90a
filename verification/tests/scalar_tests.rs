use pathtracer::scalar::{modulo, Scalar, LIMIT_RAW, ONE_RAW};

fn sc(x: f64) -> Scalar {
    Scalar::from_raw((x * 16777216.0).round() as i64)
}

fn val(s: Scalar) -> f64 {
    s.value() as f64 / 16777216.0
}

fn close(a: f64, b: f64, tolerance: f64) -> bool {
    (a - b).abs() <= tolerance
}

#[test]
fn one_plus_one_is_two() {
    let two = Scalar::one().plus(Scalar::one());
    assert_eq!(two.raw, Scalar::from_int(2).raw);
    assert_eq!(two.raw, 2 * ONE_RAW);
}

#[test]
fn minus_and_neg_are_exact() {
    assert_eq!(sc(1.5).minus(sc(4.0)).raw, sc(-2.5).raw);
    assert_eq!(sc(2.25).neg().raw, sc(-2.25).raw);
    assert_eq!(sc(-2.25).abs().raw, sc(2.25).raw);
}

#[test]
fn times_rounds_toward_zero() {
    assert_eq!(sc(3.0).times(sc(4.0)).raw, sc(12.0).raw);
    assert_eq!(sc(-3.0).times(sc(0.5)).raw, sc(-1.5).raw);
    // the smallest positive number squared is below the resolution
    assert_eq!(Scalar::from_raw(1).times(Scalar::from_raw(1)).raw, 0);
    assert_eq!(Scalar::from_raw(-1).times(Scalar::from_raw(1)).raw, 0);
    // 3 * (1 / 2^24) * (1/2) = 1.5 units, toward zero: 1 and -1
    assert_eq!(Scalar::from_raw(3).times(sc(0.5)).raw, 1);
    assert_eq!(Scalar::from_raw(-3).times(sc(0.5)).raw, -1);
}

#[test]
fn over_rounds_toward_zero() {
    assert_eq!(sc(12.0).over(sc(4.0)).raw, sc(3.0).raw);
    assert_eq!(sc(1.0).over(sc(3.0)).raw, 5592405);
    assert_eq!(sc(-1.0).over(sc(3.0)).raw, -5592405);
    assert_eq!(sc(1.0).over(sc(-3.0)).raw, -5592405);
}

#[test]
fn division_by_zero_saturates() {
    assert_eq!(sc(1.0).over(Scalar::zero()).raw, LIMIT_RAW);
    assert_eq!(sc(-1.0).over(Scalar::zero()).raw, -LIMIT_RAW);
    assert_eq!(Scalar::zero().over(Scalar::zero()).raw, 0);
}

#[test]
fn arithmetic_saturates_at_the_limits() {
    let inf = Scalar::infinity();
    assert_eq!(inf.raw, LIMIT_RAW);
    assert_eq!(inf.plus(inf).raw, LIMIT_RAW);
    assert_eq!(inf.neg().minus(inf).raw, -LIMIT_RAW);
    assert_eq!(inf.times(sc(2.0)).raw, LIMIT_RAW);
    assert_eq!(inf.times(sc(-2.0)).raw, -LIMIT_RAW);
    assert_eq!(Scalar::from_raw(i64::MAX).raw, LIMIT_RAW);
    assert_eq!(Scalar::from_raw(i64::MIN).raw, -LIMIT_RAW);
    assert_eq!(Scalar { raw: i64::MIN }.value(), -LIMIT_RAW);
    assert_eq!(Scalar { raw: i64::MIN }.neg().raw, LIMIT_RAW);
}

#[test]
fn from_int_and_from_ratio() {
    assert_eq!(Scalar::from_int(-7).raw, -7 * ONE_RAW);
    assert_eq!(Scalar::from_int(i64::MAX).raw, LIMIT_RAW);
    assert_eq!(Scalar::from_ratio(1, 2).raw, ONE_RAW / 2);
    assert_eq!(Scalar::from_ratio(1, 1000).raw, 16777);
    assert_eq!(Scalar::from_ratio(-1, 1000).raw, -16777);
    assert_eq!(Scalar::from_ratio(999, 1000).raw, 16760438);
    assert_eq!(Scalar::from_ratio(5, 0).raw, LIMIT_RAW);
}

#[test]
fn comparisons_go_by_value() {
    assert!(sc(1.0).lt(sc(1.5)));
    assert!(!sc(1.5).lt(sc(1.5)));
    assert!(sc(1.5).le(sc(1.5)));
    assert!(sc(-2.0).is_negative());
    assert!(!Scalar::zero().is_negative());
    assert!(Scalar::zero().is_zero());
    assert!(Scalar { raw: i64::MAX }.same(Scalar::infinity()));
    assert_eq!(sc(1.0).min(sc(2.0)).raw, sc(1.0).raw);
    assert_eq!(sc(1.0).max(sc(2.0)).raw, sc(2.0).raw);
    assert_eq!(sc(5.0).clamp(sc(0.0), sc(1.0)).raw, sc(1.0).raw);
    assert_eq!(sc(-5.0).clamp(sc(0.0), sc(1.0)).raw, sc(0.0).raw);
    assert_eq!(sc(0.25).clamp(sc(0.0), sc(1.0)).raw, sc(0.25).raw);
}

#[test]
fn floor_and_whole_round_down() {
    assert_eq!(sc(2.75).floor().raw, sc(2.0).raw);
    assert_eq!(sc(-2.75).floor().raw, sc(-3.0).raw);
    assert_eq!(sc(-3.0).floor().raw, sc(-3.0).raw);
    assert_eq!(sc(2.75).whole(), 2);
    assert_eq!(sc(-2.75).whole(), -3);
    assert_eq!(sc(-3.0).whole(), -3);
    assert_eq!(Scalar::zero().whole(), 0);
}

#[test]
fn sqrt_is_the_integer_root() {
    assert_eq!(sc(4.0).sqrt().raw, sc(2.0).raw);
    assert_eq!(sc(1.0).sqrt().raw, sc(1.0).raw);
    assert_eq!(sc(0.25).sqrt().raw, sc(0.5).raw);
    assert_eq!(Scalar::zero().sqrt().raw, 0);
    assert_eq!(sc(-4.0).sqrt().raw, 0);
    // sqrt(2) rounded down at 24 fractional bits
    assert_eq!(sc(2.0).sqrt().raw, 23726566);
    let r = Scalar::infinity().sqrt();
    assert!(close(val(r), (LIMIT_RAW as f64 / 16777216.0).sqrt(), 1e-3));
    for k in 1..200 {
        let x = sc(k as f64 * 0.37);
        let r = x.sqrt().raw as i128;
        let n = (x.raw as i128) << 24;
        assert!(r * r <= n && n < (r + 1) * (r + 1));
    }
}

#[test]
fn modulo_is_never_negative() {
    assert_eq!(modulo(7, 3), 1);
    assert_eq!(modulo(-7, 3), 2);
    assert_eq!(modulo(-6, 3), 0);
    assert_eq!(modulo(-1, 256), 255);
    assert_eq!(modulo(i64::MIN, 256), 0);
    assert_eq!(modulo(i64::MAX, 10), 7);
}

#[test]
fn sine_and_cosine_are_accurate() {
    let mut k = -400;
    while k <= 400 {
        let x = k as f64 * 0.05;
        assert!(close(val(sc(x).sin()), x.sin(), 2e-5), "sin {}", x);
        assert!(close(val(sc(x).cos()), x.cos(), 2e-5), "cos {}", x);
        k += 1;
    }
    assert_eq!(Scalar::zero().sin().raw, 0);
    assert!(close(val(Scalar::zero().cos()), 1.0, 1e-6));
}

#[test]
fn sine_stays_within_one() {
    let mut k = -1000;
    while k <= 1000 {
        let s = sc(k as f64 * 0.731).sin();
        assert!(s.raw >= -ONE_RAW && s.raw <= ONE_RAW);
        k += 1;
    }
    assert!(Scalar::infinity().sin().raw.abs() <= ONE_RAW);
}

#[test]
fn tangent_is_sine_over_cosine() {
    assert!(close(val(sc(0.5).tan()), 0.5f64.tan(), 1e-4));
    assert!(close(val(sc(-1.0).tan()), (-1.0f64).tan(), 1e-4));
    assert!(close(val(sc(20.0).to_radians().tan()), 20f64.to_radians().tan(), 1e-4));
}

#[test]
fn degrees_to_radians() {
    assert!(close(val(sc(180.0).to_radians()), std::f64::consts::PI, 1e-6));
    assert!(close(val(sc(-90.0).to_radians()), -std::f64::consts::FRAC_PI_2, 1e-6));
    assert_eq!(Scalar::zero().to_radians().raw, 0);
}

#[test]
fn arc_tangent_covers_all_quadrants() {
    let points = [
        (1.0, 0.0),
        (1.0, 1.0),
        (0.0, 1.0),
        (-1.0, 1.0),
        (-1.0, 0.0),
        (-1.0, -1.0),
        (0.0, -1.0),
        (1.0, -1.0),
        (0.3, 0.9),
        (-2.5, 0.1),
        (0.001, -7.0),
    ];
    for (x, y) in points {
        let got = val(sc(y).atan2(sc(x)));
        let want = (y as f64).atan2(x);
        assert!(close(got, want, 5e-5), "atan2({}, {}) = {} not {}", y, x, got, want);
    }
    assert_eq!(Scalar::zero().atan2(Scalar::zero()).raw, 0);
}

#[test]
fn arc_sine_is_accurate() {
    let mut k = -10;
    while k <= 10 {
        let y = k as f64 / 10.0;
        assert!(close(val(sc(y).asin()), y.asin(), 5e-4), "asin {}", y);
        k += 1;
    }
}

#[test]
fn logarithm_is_accurate() {
    let xs = [1e-6, 0.001, 0.1, 0.5, 0.75, 0.999, 1.0, 1.5, 2.0, 3.0, 10.0, 12345.0];
    for x in xs {
        let got = val(sc(x).ln());
        let want = (val(sc(x))).ln();
        assert!(close(got, want, 1e-5), "ln {} = {} not {}", x, got, want);
    }
    assert_eq!(Scalar::zero().ln().raw, -LIMIT_RAW);
    assert_eq!(sc(-1.0).ln().raw, -LIMIT_RAW);
    assert_eq!(Scalar::one().ln().raw, 0);
}
