//! Camera construction and ray generation.

use raytracer::camera::Camera;
use raytracer::fixed::SCALE;
use raytracer::vec3::Vec3;
use rand::rngs::SmallRng;
use rand::SeedableRng;

fn pinhole() -> Camera {
    Camera::new(
        Vec3::new(0, 0, 0),
        Vec3::new(0, 0, -SCALE),
        Vec3::new(0, SCALE, 0),
        90 * SCALE,
        SCALE,
        0,
        SCALE,
    )
}

#[test]
fn basis_is_axis_aligned_for_axis_look() {
    let cam = pinhole();
    assert_eq!(cam.w, Vec3::new(0, 0, SCALE));
    assert_eq!(cam.u, Vec3::new(SCALE, 0, 0));
    assert_eq!(cam.v, Vec3::new(0, SCALE, 0));
    assert_eq!(cam.lens_radius, 0);
}

#[test]
fn center_ray_looks_straight_ahead() {
    // Through the middle of the viewport, with no aperture, the ray
    // leaves the eye exactly along the view axis.
    let cam = pinhole();
    let r = cam.ray_with(SCALE / 2, SCALE / 2, Vec3::new(0, 0, 0));
    assert_eq!(r.origin(), Vec3::new(0, 0, 0));
    assert_eq!(r.direction(), Vec3::new(0, 0, -SCALE));
}

#[test]
fn jittered_ray_matches_formula() {
    let cam = pinhole();
    let mut rng = SmallRng::seed_from_u64(17);
    let (s, t) = (12345, 54321);
    let r = cam.ray(s, t, &mut rng);
    // With a zero lens radius the sample cannot shift the ray.
    let expected = cam.ray_with(s, t, Vec3::new(0, 0, 0));
    assert_eq!(r.origin(), expected.origin());
    assert_eq!(r.direction(), expected.direction());
}
