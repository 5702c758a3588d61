use camera_rig::scalar::ONE;
use camera_rig::vector::{sum_vec2, Quat, Vec2, Vec3};

#[test]
fn vec2_sum_and_product_go_by_component() {
    let a = Vec2::new(1_000_000, -2_000_000);
    let b = Vec2::new(500_000, 250_000);
    assert_eq!(a.plus(b), Vec2 { x: 1_500_000, y: -1_750_000 });
    assert_eq!(a.times(b), Vec2 { x: 500_000, y: -500_000 });
    assert_eq!(Vec2::zero(), Vec2 { x: 0, y: 0 });
}

#[test]
fn vec2_sequences_add_up() {
    let empty: Vec<Vec2> = Vec::new();
    assert_eq!(sum_vec2(&empty), Vec2::zero());
    let motions = vec![Vec2::new(1, 2), Vec2::new(10, 20), Vec2::new(-100, 200)];
    assert_eq!(sum_vec2(&motions), Vec2 { x: -89, y: 222 });
    let big = vec![Vec2::new(i64::MAX, 0), Vec2::new(1, 0), Vec2::new(-1, 0)];
    assert_eq!(sum_vec2(&big), Vec2 { x: i64::MAX - 1, y: 0 });
}

#[test]
fn vec3_arithmetic_goes_by_component() {
    let a = Vec3::new(1_000_000, 2_000_000, 3_000_000);
    let b = Vec3::new(-500_000, 500_000, 4_000_000);
    assert_eq!(a.plus(b), Vec3 { x: 500_000, y: 2_500_000, z: 7_000_000 });
    assert_eq!(a.minus(b), Vec3 { x: 1_500_000, y: 1_500_000, z: -1_000_000 });
    assert_eq!(a.negated(), Vec3 { x: -1_000_000, y: -2_000_000, z: -3_000_000 });
    assert_eq!(a.scaled(500_000), Vec3 { x: 500_000, y: 1_000_000, z: 1_500_000 });
    assert_eq!(a.dot(b), -500_000 + 1_000_000 + 12_000_000);
}

#[test]
fn cross_product_of_the_axes() {
    assert_eq!(Vec3::unit_x().cross(Vec3::unit_y()), Vec3::unit_z());
    assert_eq!(Vec3::unit_y().cross(Vec3::unit_z()), Vec3::unit_x());
    assert_eq!(Vec3::unit_z().cross(Vec3::unit_x()), Vec3::unit_y());
    assert_eq!(Vec3::unit_y().cross(Vec3::unit_x()), Vec3::unit_z().negated());
}

#[test]
fn length_of_a_three_four_five_triangle() {
    let v = Vec3::new(3_000_000, 4_000_000, 0);
    assert_eq!(v.length(), 5_000_000);
    assert_eq!(v.normalized(), Vec3 { x: 600_000, y: 800_000, z: 0 });
}

#[test]
fn length_is_zero_only_for_the_zero_vector() {
    assert_eq!(Vec3::zero().length(), 0);
    assert_eq!(Vec3::new(0, 0, 1).length(), 1);
    assert_eq!(Vec3::new(1, 1, 1).length(), 2);
    assert_eq!(Vec3::new(0, -1, 0).length(), 1);
}

#[test]
fn length_saturates() {
    assert_eq!(Vec3::new(i64::MAX, i64::MAX, i64::MAX).length(), i64::MAX);
    assert_eq!(Vec3::new(i64::MIN, i64::MIN, i64::MIN).length(), i64::MAX);
}

#[test]
fn the_zero_vector_normalizes_to_itself() {
    assert_eq!(Vec3::zero().normalized(), Vec3::zero());
}

#[test]
fn vec3_mix_goes_by_component() {
    let kept = Vec3::new(10_000_000, -7, 3);
    let fresh = Vec3::new(0, 0, 10);
    assert_eq!(kept.mix(fresh, 500_000), Vec3 { x: 5_000_000, y: -3, z: 7 });
    assert_eq!(kept.mix(fresh, 0), fresh);
    assert_eq!(kept.mix(fresh, ONE), kept);
}

#[test]
fn the_identity_rotation_moves_nothing() {
    let v = Vec3::new(1_250_000, -2_500_000, 3_750_000);
    assert_eq!(Quat::identity().rotate(v), v);
    assert_eq!(Quat::identity(), Quat { x: 0, y: 0, z: 0, w: ONE });
}

#[test]
fn a_quarter_turn_about_the_vertical() {
    let q = Quat { x: 0, y: 707_107, z: 0, w: 707_107 };
    assert_eq!(q.rotate(Vec3::unit_x().negated()), Vec3 { x: 0, y: 0, z: ONE });
    assert_eq!(q.rotate(Vec3::unit_y()), Vec3 { x: 0, y: ONE, z: 0 });
    let image = q.rotate(Vec3::unit_z());
    assert!((image.x - ONE).abs() <= 2 && image.y == 0 && image.z.abs() <= 2);
}

#[test]
fn a_vector_is_brought_to_a_length() {
    let v = Vec3::new(3_000_000, 4_000_000, 0);
    assert_eq!(v.resized(10_000_000), Vec3 { x: 6_000_000, y: 8_000_000, z: 0 });
    assert_eq!(Vec3::new(1, 2, 2).resized(ONE), Vec3 { x: 333_333, y: 666_667, z: 666_667 });
    assert_eq!(Vec3::new(-3, 0, 4).resized(10), Vec3 { x: -6, y: 0, z: 8 });
    assert_eq!(Vec3::zero().resized(ONE), Vec3::zero());
    assert_eq!(Vec3::unit_x().resized(i64::MAX), Vec3 { x: i64::MAX, y: 0, z: 0 });
    assert_eq!(v.resized(0), Vec3::zero());
}

#[test]
fn lengths_are_rounded_to_the_nearest_unit() {
    assert_eq!(Vec3::new(1, 1, 0).length(), 1);
    assert_eq!(Vec3::new(2, 1, 1).length(), 2);
    assert_eq!(Vec3::new(2, 2, 1).length(), 3);
    assert_eq!(Vec3::new(ONE, ONE, ONE).length(), 1_732_051);
}
