//! The two renderers: byte counts, channel layout, and exact gradient
//! values.

use rand::rngs::SmallRng;
use rand::SeedableRng;
use raytracer::camera::Camera;
use raytracer::fixed::SCALE;
use raytracer::hittable::HittableList;
use raytracer::material::{Lambertian, Material};
use raytracer::sphere::Sphere;
use raytracer::vec3::Vec3;

#[test]
fn sample_image() {
    let got = raytracer::raytracer::render();
    let want = 256 * 256 * 3;
    assert_eq!(got.len(), want)
}

#[test]
fn gradient_pixels_are_exact() {
    let img = raytracer::raytracer::render();
    // Top-left pixel: column 0, source row 255.
    assert_eq!(img[0], 0);
    assert_eq!(img[1], 255);
    assert_eq!(img[2], 63);
    // Top-right pixel: column 255.
    assert_eq!(img[255 * 3], 255);
    // Second row: source row 254.
    assert_eq!(img[768 + 1], 254);
    // Bottom-left pixel: source row 0.
    assert_eq!(img[255 * 768 + 1], 0);
}

#[test]
fn render_emits_four_opaque_bytes_per_pixel() {
    let mut rng = SmallRng::seed_from_u64(2);
    let (width, height) = (2u16, 2u16);
    let img = raytracer::render(width, height, &mut rng);
    assert_eq!(img.len(), width as usize * height as usize * 4);
    for px in img.chunks(4) {
        assert_eq!(px[3], 255);
    }
}

#[test]
fn render_of_empty_extent_is_empty() {
    let mut rng = SmallRng::seed_from_u64(2);
    assert_eq!(raytracer::render(0, 0, &mut rng).len(), 0);
}

#[test]
fn render_scene_takes_custom_scene_and_parameters() {
    let mut rng = SmallRng::seed_from_u64(4);
    let mut world = HittableList::new();
    world.add(Sphere::new(
        Vec3::new(0, 0, -2 * SCALE),
        SCALE,
        Material::Lambertian(Lambertian::new(Vec3::new(SCALE / 2, SCALE / 2, SCALE / 2))),
    ));
    let cam = Camera::new(
        Vec3::new(0, 0, 0),
        Vec3::new(0, 0, -SCALE),
        Vec3::new(0, SCALE, 0),
        90 * SCALE,
        SCALE,
        0,
        SCALE,
    );
    let (width, height) = (3u16, 2u16);
    let img = raytracer::render_scene(&world, &cam, width, height, 4, 3, &mut rng);
    assert_eq!(img.len(), width as usize * height as usize * 4);
    for px in img.chunks(4) {
        assert_eq!(px[3], 255);
    }
}
