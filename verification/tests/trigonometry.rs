use camera_controller::fixed::ONE;
use camera_controller::trig::{asin, atan2, cos, sin, wrap, HALF_PI, PI, QUARTER_PI, TWO_PI};

fn as_number(a: i64) -> f64 {
    a as f64 / ONE as f64
}

#[test]
fn turn_constants_fit_together() {
    assert_eq!(PI, 2 * HALF_PI);
    assert_eq!(TWO_PI, 2 * PI);
    assert_eq!(QUARTER_PI, HALF_PI / 2);
    assert!((as_number(PI) - std::f64::consts::PI).abs() < 2e-6);
}

#[test]
fn wrap_folds_into_one_turn() {
    assert_eq!(wrap(0), 0);
    assert_eq!(wrap(PI - 1), PI - 1);
    assert_eq!(wrap(PI), -PI);
    assert_eq!(wrap(-PI), -PI);
    assert_eq!(wrap(-PI - 1), PI - 1);
    assert_eq!(wrap(TWO_PI), 0);
    assert_eq!(wrap(-TWO_PI), 0);
    assert_eq!(wrap(-4_000_000), 2_283_184);
    assert_eq!(wrap(4_000_000), -2_283_184);
    assert_eq!(wrap(7 * TWO_PI + 5), 5);
}

#[test]
fn wrap_takes_every_i64() {
    for a in [i64::MIN, i64::MIN + 1, -1, 0, 1, i64::MAX - 1, i64::MAX] {
        let w = wrap(a);
        assert!(-PI <= w && w < PI);
        assert_eq!((a as i128 - w as i128).rem_euclid(TWO_PI as i128), 0);
    }
}

#[test]
fn sine_and_cosine_on_the_axes() {
    assert_eq!(sin(0), 0);
    assert_eq!(cos(0), ONE);
    assert_eq!(sin(HALF_PI), ONE);
    assert_eq!(cos(HALF_PI), 0);
    assert_eq!(sin(-HALF_PI), -ONE);
    assert_eq!(cos(-HALF_PI), 0);
    assert_eq!(sin(-PI), 0);
    assert_eq!(cos(-PI), -ONE);
    assert_eq!(sin(PI), 0);
    assert_eq!(cos(PI), -ONE);
}

#[test]
fn sine_and_cosine_exact_values() {
    assert_eq!(sin(1_000_000), 841_471);
    assert_eq!(cos(1_000_000), 540_302);
    assert_eq!(sin(-2_000_000), -909_296);
    assert_eq!(cos(3_000_000), -989_992);
    assert_eq!(sin(10_000_000), -544_023);
    assert_eq!(cos(-7_000_000), 753_901);
}

#[test]
fn sine_and_cosine_are_close_to_the_real_ones() {
    let mut a = -PI;
    while a < PI {
        let s = as_number(sin(a));
        let c = as_number(cos(a));
        assert!((s - as_number(a).sin()).abs() < 4e-6, "sin({a})");
        assert!((c - as_number(a).cos()).abs() < 4e-6, "cos({a})");
        a += 997;
    }
}

#[test]
fn sine_and_cosine_lie_on_the_unit_circle() {
    let mut a = -PI;
    while a < PI {
        let s = sin(a) as i128;
        let c = cos(a) as i128;
        let sum = s * s + c * c;
        let one = (ONE as i128) * (ONE as i128);
        assert!(sum <= one, "at {a}");
        assert!(sum >= one - 2 * (ONE as i128) - 1, "at {a}");
        a += 499;
    }
}

#[test]
fn sine_and_cosine_stay_within_one() {
    let mut a = -3 * PI;
    while a < 3 * PI {
        assert!(-ONE <= sin(a) && sin(a) <= ONE);
        assert!(-ONE <= cos(a) && cos(a) <= ONE);
        a += 1_009;
    }
}

#[test]
fn sine_is_odd_and_cosine_even() {
    let mut a = 1;
    while a < PI {
        assert_eq!(sin(-a), -sin(a));
        assert_eq!(cos(-a), cos(a));
        a += 7_919;
    }
}

#[test]
fn sine_and_cosine_repeat_every_turn() {
    for a in [0, 1, 123_456, -654_321, 3_000_000] {
        assert_eq!(sin(a + TWO_PI), sin(a));
        assert_eq!(cos(a - 3 * TWO_PI), cos(a));
    }
}

#[test]
fn angle_of_points_on_the_axes() {
    assert_eq!(atan2(0, 0), 0);
    assert_eq!(atan2(0, 5), 0);
    assert_eq!(atan2(5, 0), HALF_PI);
    assert_eq!(atan2(0, -5), PI);
    assert_eq!(atan2(-5, 0), -HALF_PI);
}

#[test]
fn angle_exact_values() {
    assert_eq!(atan2(1, 1), 785_396);
    assert_eq!(atan2(ONE, ONE), 785_396);
    assert_eq!(atan2(3 * ONE, -4 * ONE), 2_498_089);
    assert_eq!(atan2(-3 * ONE, -4 * ONE), -2_498_089);
}

#[test]
fn angle_is_close_to_the_real_one() {
    let mut a = -PI + 500;
    while a < PI {
        let y = (as_number(a).sin() * 1e9) as i64;
        let x = (as_number(a).cos() * 1e9) as i64;
        let got = as_number(atan2(y, x));
        assert!((got - as_number(a)).abs() < 8e-6, "atan2 at {a}: {got}");
        a += 1_013;
    }
}

#[test]
fn angle_takes_every_i64() {
    assert_eq!(atan2(i64::MIN, i64::MIN), -(PI - 785_396));
    assert_eq!(atan2(i64::MAX, i64::MAX), 785_396);
    assert_eq!(atan2(i64::MIN, 0), -HALF_PI);
    assert_eq!(atan2(0, i64::MIN), PI);
    assert_eq!(atan2(1, i64::MAX), 0);
}

#[test]
fn inverse_sine_values() {
    assert_eq!(asin(0), 0);
    assert_eq!(asin(ONE), HALF_PI);
    assert_eq!(asin(-ONE), -HALF_PI);
    assert_eq!(asin(500_000), 523_596);
    assert_eq!(asin(-500_000), -523_596);
}

#[test]
fn inverse_sine_limits_its_argument() {
    assert_eq!(asin(ONE + 1), HALF_PI);
    assert_eq!(asin(i64::MAX), HALF_PI);
    assert_eq!(asin(-ONE - 1), -HALF_PI);
    assert_eq!(asin(i64::MIN), -HALF_PI);
}

#[test]
fn inverse_sine_is_close_to_the_real_one() {
    let mut y = -ONE;
    while y <= ONE {
        let got = as_number(asin(y));
        assert!((got - as_number(y).asin()).abs() < 1e-5, "asin({y}) = {got}");
        y += 1_031;
    }
}
