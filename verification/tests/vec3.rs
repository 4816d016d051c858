//! Vector arithmetic, encoding and sampling, at the fixed-point scale of
//! 65536 units per 1.0.

use raytracer::fixed::{add_fx, mul_fx, sub_fx, sqrt_fx, SCALE};
use raytracer::vec3::Vec3;
use rand::rngs::SmallRng;
use rand::SeedableRng;

#[test]
fn test_length() {
    let input = Vec3::new(65536, 131072, 196608);
    let actual = input.length();
    let expected = sqrt_fx(add_fx(
        add_fx(mul_fx(input.x(), input.x()), mul_fx(input.y(), input.y())),
        mul_fx(input.z(), input.z()),
    ));
    assert_eq!(actual, expected);
}

#[test]
fn test_default() {
    let actual = Vec3::default();
    let expected = Vec3::new(0, 0, 0);
    assert_eq!(actual, expected);
}

#[test]
fn test_dot() {
    let (a, b) = (Vec3::new(65536, 131072, 196608), Vec3::new(65536, 131072, 196608));
    let actual = a.dot(b);
    let expected = add_fx(
        add_fx(mul_fx(a.x(), b.x()), mul_fx(a.y(), b.y())),
        mul_fx(a.z(), b.z()),
    );
    assert_eq!(actual, expected);
}

#[test]
fn test_cross() {
    let (a, b) = (Vec3::new(65536, 131072, 196608), Vec3::new(65536, 131072, 196608));
    let actual = a.cross(b);
    let expected = Vec3::new(
        sub_fx(mul_fx(a.y(), b.z()), mul_fx(a.z(), b.y())),
        sub_fx(mul_fx(a.z(), b.x()), mul_fx(a.x(), b.z())),
        sub_fx(mul_fx(a.x(), b.y()), mul_fx(a.y(), b.x())),
    );
    assert_eq!(actual, expected)
}

#[test]
fn length_squared_equals_self_dot() {
    let a = Vec3::new(3 * SCALE, -2 * SCALE, 12345);
    assert_eq!(a.length_squared(), a.dot(a));
}

#[test]
fn cross_is_antisymmetric() {
    let a = Vec3::new(SCALE, 2 * SCALE, -3 * SCALE);
    let b = Vec3::new(-7 * SCALE, 13107, 42);
    assert_eq!(a.cross(b), b.cross(a).neg());
}

#[test]
fn unit_of_axis_vector() {
    let v = Vec3::new(0, 5 * SCALE, 0);
    assert_eq!(v.unit(), Vec3::new(0, SCALE, 0));
}

#[test]
fn unit_of_zero_vector_is_zero() {
    let v = Vec3::new(0, 0, 0);
    assert_eq!(v.unit(), Vec3::new(0, 0, 0));
}

#[test]
fn near_zero_detects_only_zero() {
    assert!(Vec3::new(0, 0, 0).near_zero());
    assert!(!Vec3::new(1, 0, 0).near_zero());
    assert!(!Vec3::new(0, 0, -1).near_zero());
}

#[test]
fn reflect_head_on() {
    let v = Vec3::new(0, -SCALE, 0);
    let n = Vec3::new(0, SCALE, 0);
    assert_eq!(v.reflect(n), Vec3::new(0, SCALE, 0));
}

#[test]
fn encode_white_is_opaque_saturated() {
    let white = Vec3::new(SCALE, SCALE, SCALE);
    assert_eq!(white.to_rgba(), vec![255, 255, 255, 255]);
}

#[test]
fn encode_black_is_opaque_zero() {
    let black = Vec3::new(0, 0, 0);
    assert_eq!(black.to_rgba(), vec![0, 0, 0, 255]);
}

#[test]
fn encode_quarter_is_half_gamma() {
    // 0.25 encodes as sqrt(0.25) = 0.5, i.e. byte 128.
    let c = Vec3::new(SCALE / 4, 0, 0);
    assert_eq!(c.to_rgba(), vec![128, 0, 0, 255]);
}

#[test]
fn tint_stays_in_unit_range() {
    let a = Vec3::new(SCALE, SCALE / 3, 12345);
    let b = Vec3::new(SCALE / 2, SCALE, 54321);
    let c = a.mul(b);
    for ch in [c.x(), c.y(), c.z()] {
        assert!((0..=SCALE).contains(&ch));
    }
    assert_eq!(c.x(), SCALE / 2);
}

#[test]
fn random_draws_stay_in_range_and_vary() {
    let mut rng = SmallRng::seed_from_u64(7);
    let a = Vec3::random(&mut rng, -SCALE, SCALE);
    let b = Vec3::random(&mut rng, -SCALE, SCALE);
    for v in [a, b] {
        assert!(-SCALE <= v.x() && v.x() < SCALE);
        assert!(-SCALE <= v.y() && v.y() < SCALE);
        assert!(-SCALE <= v.z() && v.z() < SCALE);
    }
    assert_ne!(a, b);
}

#[test]
fn unit_sphere_samples_are_inside() {
    let mut rng = SmallRng::seed_from_u64(11);
    for _ in 0..32 {
        let p = Vec3::random_in_unit_sphere(&mut rng);
        assert!(p.length_squared() < SCALE);
    }
}

#[test]
fn unit_disk_samples_are_flat_and_inside() {
    let mut rng = SmallRng::seed_from_u64(13);
    for _ in 0..32 {
        let p = Vec3::random_in_unit_disk(&mut rng);
        assert!(p.length_squared() < SCALE);
        assert_eq!(p.z(), 0);
    }
}
