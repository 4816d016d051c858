//! Rays, intersections, materials and the color evaluator.

use raytracer::fixed::SCALE;
use raytracer::hittable::{HittableList, Intersection};
use raytracer::material::{Dielectric, Lambertian, Material, Metal};
use raytracer::ray::Ray;
use raytracer::sphere::Sphere;
use raytracer::vec3::Vec3;
use rand::rngs::SmallRng;
use rand::SeedableRng;

fn gray() -> Material {
    Material::Lambertian(Lambertian::new(Vec3::new(SCALE / 2, SCALE / 2, SCALE / 2)))
}

#[test]
fn test_at() {
    let ray = Ray::new(Vec3::new(65536, 131072, 196608), Vec3::new(196608, 131072, 65536));
    let actual = ray.at(131072);
    let expected = Vec3::new(65536, 131072, 196608).add(
        Vec3::new(196608, 131072, 65536).scale(131072),
    );
    assert_eq!(actual, expected);
}

#[test]
fn at_zero_is_origin() {
    let ray = Ray::new(Vec3::new(12345, -678, 90), Vec3::new(SCALE, 2 * SCALE, 3 * SCALE));
    assert_eq!(ray.at(0), ray.origin());
}

#[test]
fn head_on_sphere_hit_and_exit() {
    // A ray aimed straight at a sphere of radius 2 from distance 10 hits
    // the near surface at t = 8 facing out, and exits at t = 12.
    let sphere = Sphere::new(Vec3::new(0, 0, 0), 2 * SCALE, gray());
    let ray = Ray::new(Vec3::new(-10 * SCALE, 0, 0), Vec3::new(SCALE, 0, 0));

    let near = sphere.hit(&ray, 0, i64::MAX).expect("must hit");
    assert_eq!(near.t, 8 * SCALE);
    assert!(near.front_face);
    assert_eq!(near.normal, Vec3::new(-SCALE, 0, 0));

    let far = sphere.hit(&ray, 8 * SCALE + 1, i64::MAX).expect("must exit");
    assert_eq!(far.t, 12 * SCALE);
    assert!(!far.front_face);
}

#[test]
fn miss_outside_range() {
    let sphere = Sphere::new(Vec3::new(0, 0, 0), 2 * SCALE, gray());
    let ray = Ray::new(Vec3::new(-10 * SCALE, 0, 0), Vec3::new(SCALE, 0, 0));
    assert!(sphere.hit(&ray, 0, 7 * SCALE).is_none());
    assert!(sphere.hit(&ray, 13 * SCALE, i64::MAX).is_none());
}

#[test]
fn sideways_ray_misses() {
    let sphere = Sphere::new(Vec3::new(0, 0, 0), SCALE, gray());
    let ray = Ray::new(Vec3::new(-10 * SCALE, 5 * SCALE, 0), Vec3::new(SCALE, 0, 0));
    assert!(sphere.hit(&ray, 0, i64::MAX).is_none());
}

#[test]
fn list_returns_nearest_hit() {
    let mut world = HittableList::new();
    world.add(Sphere::new(Vec3::new(20 * SCALE, 0, 0), SCALE, gray()));
    world.add(Sphere::new(Vec3::new(5 * SCALE, 0, 0), SCALE, gray()));
    let ray = Ray::new(Vec3::new(0, 0, 0), Vec3::new(SCALE, 0, 0));
    let hit = world.hit(&ray, 0, i64::MAX).expect("must hit");
    assert_eq!(hit.t, 4 * SCALE);
}

#[test]
fn empty_scene_hits_nothing() {
    let world = HittableList::new();
    let ray = Ray::new(Vec3::new(0, 0, 0), Vec3::new(SCALE, 0, 0));
    assert!(world.hit(&ray, 0, i64::MAX).is_none());
}

#[test]
fn color_at_depth_zero_is_black() {
    let mut rng = SmallRng::seed_from_u64(3);
    let mut world = HittableList::new();
    world.add(Sphere::new(Vec3::new(0, 0, 0), 2 * SCALE, gray()));
    let ray = Ray::new(Vec3::new(-10 * SCALE, 0, 0), Vec3::new(SCALE, 0, 0));
    assert_eq!(ray.color(&world, 0, &mut rng), Vec3::new(0, 0, 0));
}

#[test]
fn empty_scene_zenith_is_sky_blue() {
    let mut rng = SmallRng::seed_from_u64(3);
    let world = HittableList::new();
    let ray = Ray::new(Vec3::new(0, 0, 0), Vec3::new(0, SCALE, 0));
    assert_eq!(ray.color(&world, 50, &mut rng), Vec3::new(SCALE / 2, 45875, SCALE));
}

#[test]
fn empty_scene_nadir_is_white() {
    let mut rng = SmallRng::seed_from_u64(3);
    let world = HittableList::new();
    let ray = Ray::new(Vec3::new(0, 0, 0), Vec3::new(0, -SCALE, 0));
    assert_eq!(ray.color(&world, 50, &mut rng), Vec3::new(SCALE, SCALE, SCALE));
}

#[test]
fn lambertian_always_scatters() {
    let mut rng = SmallRng::seed_from_u64(5);
    let albedo = Vec3::new(SCALE / 2, SCALE / 4, SCALE / 8);
    let m = Lambertian::new(albedo);
    let i = Intersection::new(
        Vec3::new(0, 0, 0),
        Vec3::new(0, SCALE, 0),
        gray(),
        SCALE,
        true,
    );
    let r_in = Ray::new(Vec3::new(0, 2 * SCALE, 0), Vec3::new(0, -SCALE, 0));
    for _ in 0..16 {
        let (att, sc) = m.scatter(&r_in, &i, &mut rng).expect("never absorbs");
        assert_eq!(att, albedo);
        assert_eq!(sc.origin(), i.p);
    }
}

#[test]
fn metal_scatters_exactly_when_reflection_leaves_surface() {
    let albedo = Vec3::new(SCALE, SCALE, SCALE);
    let i = Intersection::new(
        Vec3::new(0, 0, 0),
        Vec3::new(0, SCALE, 0),
        gray(),
        SCALE,
        true,
    );
    let r_in = Ray::new(Vec3::new(0, 2 * SCALE, 0), Vec3::new(0, -SCALE, 0));

    // Polished metal reflects the head-on ray straight back.
    let polished = Metal::new(albedo, 0);
    let (att, sc) = polished
        .scatter_with(&r_in, &i, Vec3::new(0, 0, 0))
        .expect("reflection points out");
    assert_eq!(att, albedo);
    assert_eq!(sc.direction(), Vec3::new(0, SCALE, 0));

    // Over-fuzzed metal whose perturbation drives the ray back into the
    // surface absorbs it.
    let fuzzed = Metal::new(albedo, 2 * SCALE);
    assert!(fuzzed.scatter_with(&r_in, &i, Vec3::new(0, -SCALE, 0)).is_none());
}

#[test]
fn dielectric_always_scatters_white() {
    let mut rng = SmallRng::seed_from_u64(9);
    let glass = Dielectric::new(98304);
    let i = Intersection::new(
        Vec3::new(0, 0, 0),
        Vec3::new(0, SCALE, 0),
        gray(),
        SCALE,
        true,
    );
    let r_in = Ray::new(Vec3::new(0, 2 * SCALE, 0), Vec3::new(0, -SCALE, 0));
    for _ in 0..16 {
        let (att, sc) = glass.scatter(&r_in, &i, &mut rng).expect("never absorbs");
        assert_eq!(att, Vec3::new(SCALE, SCALE, SCALE));
        assert_eq!(sc.origin(), i.p);
    }
}

#[test]
fn random_scene_has_expected_shape() {
    let mut rng = SmallRng::seed_from_u64(1);
    let world = HittableList::random_scene(&mut rng);
    let n = world.0.len();
    assert!((472..=488).contains(&n));
    assert_eq!(world.0[0].center, Vec3::new(0, -65536000, 0));
    assert_eq!(world.0[0].radius, 65536000);
    assert_eq!(world.0[1].radius, 13107);
    assert_eq!(world.0[1].center.y, 13107);
    assert_eq!(world.0[n - 3].center, Vec3::new(0, SCALE, 0));
    assert_eq!(world.0[n - 2].center, Vec3::new(-4 * SCALE, SCALE, 0));
    assert_eq!(world.0[n - 1].center, Vec3::new(4 * SCALE, SCALE, 0));
}
