use camera_controller::fixed::{clamp, fx_mul, int_sqrt, saturate_i128, ONE};

#[test]
fn one_is_a_million() {
    assert_eq!(ONE, 1_000_000);
}

#[test]
fn clamp_holds_a_value_between_its_ends() {
    assert_eq!(clamp(5, 0, 10), 5);
    assert_eq!(clamp(-5, 0, 10), 0);
    assert_eq!(clamp(15, 0, 10), 10);
    assert_eq!(clamp(0, 0, 10), 0);
    assert_eq!(clamp(10, 0, 10), 10);
}

#[test]
fn saturate_cuts_off_at_the_ends_of_i64() {
    assert_eq!(saturate_i128(42), 42);
    assert_eq!(saturate_i128(-42), -42);
    assert_eq!(saturate_i128(i64::MAX as i128 + 1), i64::MAX);
    assert_eq!(saturate_i128(i64::MIN as i128 - 1), i64::MIN);
    assert_eq!(saturate_i128(i128::MAX), i64::MAX);
    assert_eq!(saturate_i128(i128::MIN), i64::MIN);
}

#[test]
fn product_is_rescaled() {
    assert_eq!(fx_mul(1_500_000, 2_000_000), 3_000_000);
    assert_eq!(fx_mul(ONE, 7_654_321), 7_654_321);
    assert_eq!(fx_mul(7_654_321, ONE), 7_654_321);
    assert_eq!(fx_mul(0, 7_654_321), 0);
    assert_eq!(fx_mul(500_000, 500_000), 250_000);
}

#[test]
fn product_rounds_toward_zero() {
    assert_eq!(fx_mul(3, 500_000), 1);
    assert_eq!(fx_mul(-3, 500_000), -1);
    assert_eq!(fx_mul(3, -500_000), -1);
    assert_eq!(fx_mul(-3, -500_000), 1);
    assert_eq!(fx_mul(1, 999_999), 0);
    assert_eq!(fx_mul(-1, 999_999), 0);
}

#[test]
fn product_saturates() {
    assert_eq!(fx_mul(i64::MAX, i64::MAX), i64::MAX);
    assert_eq!(fx_mul(i64::MIN, i64::MAX), i64::MIN);
    assert_eq!(fx_mul(i64::MIN, i64::MIN), i64::MAX);
    assert_eq!(fx_mul(i64::MAX, ONE), i64::MAX);
    assert_eq!(fx_mul(i64::MIN, ONE), i64::MIN);
}

#[test]
fn square_root_is_rounded_down() {
    assert_eq!(int_sqrt(0), 0);
    assert_eq!(int_sqrt(1), 1);
    assert_eq!(int_sqrt(2), 1);
    assert_eq!(int_sqrt(3), 1);
    assert_eq!(int_sqrt(4), 2);
    assert_eq!(int_sqrt(15), 3);
    assert_eq!(int_sqrt(16), 4);
    assert_eq!(int_sqrt(17), 4);
    assert_eq!(int_sqrt(1_000_000_000_000), 1_000_000);
    assert_eq!(int_sqrt(999_999_999_999), 999_999);
}

#[test]
fn square_root_of_the_largest_argument() {
    assert_eq!(int_sqrt(u128::MAX), u64::MAX);
    let r = u64::MAX as u128;
    assert_eq!(int_sqrt(r * r), u64::MAX);
    assert_eq!(int_sqrt(r * r - 1), u64::MAX - 1);
}

#[test]
fn square_root_brackets_its_argument() {
    let mut n: u128 = 1;
    for _ in 0..120 {
        let r = int_sqrt(n) as u128;
        assert!(r * r <= n);
        assert!((r + 1) * (r + 1) > n);
        n = n * 2 + 1;
    }
}
