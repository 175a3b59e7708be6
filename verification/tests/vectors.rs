use camera_controller::fixed::ONE;
use camera_controller::vector::{Vec2, Vec3};

#[test]
fn new_sets_the_coordinates() {
    let v = Vec3::new(1, -2, 3);
    assert_eq!(v, Vec3 { x: 1, y: -2, z: 3 });
    assert_eq!(Vec3::zero(), Vec3 { x: 0, y: 0, z: 0 });
}

#[test]
fn vec2_is_plain_data() {
    let v = Vec2 { x: 4, y: -5 };
    assert_eq!(v.x, 4);
    assert_eq!(v.y, -5);
    assert_eq!(v, v.clone());
}

#[test]
fn clamped_limits_each_coordinate() {
    let v = Vec3::new(5, -50, 500).clamped(10);
    assert_eq!(v, Vec3::new(5, -10, 10));
    assert_eq!(Vec3::new(i64::MIN, i64::MAX, 0).clamped(0), Vec3::zero());
}

#[test]
fn length_of_a_three_four_five_triangle() {
    assert_eq!(Vec3::new(3 * ONE, 4 * ONE, 0).length(), 5_000_000);
    assert_eq!(Vec3::new(0, -3, 4).length(), 5);
    assert_eq!(Vec3::zero().length(), 0);
    assert_eq!(Vec3::new(1, 1, 1).length(), 1);
    assert_eq!(Vec3::new(ONE, ONE, ONE).length(), 1_732_050);
}

#[test]
fn length_of_the_largest_vector() {
    let v = Vec3::new(i64::MIN, i64::MIN, i64::MIN);
    assert_eq!(v.length(), 15_975_348_984_942_515_101);
}

#[test]
fn normalized_has_length_one() {
    assert_eq!(Vec3::new(3 * ONE, 4 * ONE, 0).normalized(), Vec3::new(600_000, 800_000, 0));
    assert_eq!(Vec3::new(0, 0, -7).normalized(), Vec3::new(0, 0, -ONE));
    assert_eq!(Vec3::new(ONE, ONE, ONE).normalized(), Vec3::new(577_350, 577_350, 577_350));
    assert_eq!(Vec3::new(-5, 5, 0).normalized(), Vec3::new(-714_285, 714_285, 0));
}

#[test]
fn normalized_zero_is_zero() {
    assert_eq!(Vec3::zero().normalized(), Vec3::zero());
}

#[test]
fn normalized_takes_every_i64() {
    let v = Vec3::new(i64::MIN, 0, i64::MAX).normalized();
    assert_eq!(v, Vec3::new(-707_106, 0, 707_106));
    let w = Vec3::new(i64::MIN, i64::MIN, i64::MIN).normalized();
    assert_eq!(w, Vec3::new(-577_350, -577_350, -577_350));
}
