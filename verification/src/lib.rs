//! A recursive path tracer over saturating fixed-point arithmetic.
//!
//! Spheres with diffuse, metal or glass surfaces are rendered by firing
//! jittered rays through a thin-lens camera and evaluating light transport
//! recursively, with the result encoded as RGBA bytes. Every geometric
//! quantity is a fixed-point scalar (see `fixed`), so the whole pipeline
//! is expressed over integers and carries exact contracts; randomness
//! enters only through an explicitly threaded `rand` generator.

pub mod camera;
pub mod fixed;
pub mod hittable;
pub mod material;
pub mod ray;
pub mod rng;
pub mod sphere;
pub mod vec3;

use vstd::prelude::*;
use crate::camera::Camera;
use crate::fixed::{SCALE, add_fx, sub_fx, div_fx};
use crate::hittable::HittableList;
use crate::rng::gen_range_i64;
use crate::vec3::Vec3;

verus! {

/// Rays fired per pixel; the pixel color is their average.
pub const SAMPLES_PER_PIXEL: u32 = 100;

/// Recursion bound for the light-transport evaluator.
pub const MAX_DEPTH: u32 = 50;

/// Render a caller-supplied scene through a caller-supplied camera: the
/// general entry point. Four bytes per pixel (RGBA, alpha always opaque),
/// rows emitted from the top, each pixel the average of `samples` rays
/// evaluated to recursion depth `depth`.
pub fn render_scene(
    world: &HittableList,
    cam: &Camera,
    width: u16,
    height: u16,
    samples: u32,
    depth: u32,
    rng: &mut rand::rngs::SmallRng,
) -> (img: Vec<u8>)
    ensures
        img@.len() == width as int * height as int * 4,
        forall|k: int| 0 <= k < img@.len() && k % 4 == 3 ==> img@[k] == 255,
{
    let mut img: Vec<u8> = Vec::new();
    let mut j: u16 = height;
    while j > 0
        invariant
            j <= height,
            img@.len() == width as int * (height - j) as int * 4,
            forall|k: int| 0 <= k < img@.len() && k % 4 == 3 ==> img@[k] == 255,
        decreases j,
    {
        j = j - 1;
        let mut i: u16 = 0;
        while i < width
            invariant
                i <= width,
                j < height,
                img@.len() == width as int * (height - j - 1) as int * 4 + i as int * 4,
                forall|k: int| 0 <= k < img@.len() && k % 4 == 3 ==> img@[k] == 255,
            decreases width - i,
        {
            let mut acc = Vec3::new(0, 0, 0);
            let mut s: u32 = 0;
            while s < samples
                decreases samples - s,
            {
                let u = div_fx(
                    add_fx((i as i64) * SCALE, gen_range_i64(rng, 0, SCALE)),
                    sub_fx((width as i64) * SCALE, SCALE),
                );
                let v = div_fx(
                    add_fx((j as i64) * SCALE, gen_range_i64(rng, 0, SCALE)),
                    sub_fx((height as i64) * SCALE, SCALE),
                );
                let r = cam.ray(u, v, rng);
                acc = acc.add(r.color(world, depth, rng));
                s = s + 1;
            }
            let pixel = acc.div((samples as i64) * SCALE);
            let bytes = pixel.to_rgba();
            img.push(bytes[0]);
            img.push(bytes[1]);
            img.push(bytes[2]);
            img.push(bytes[3]);
            i = i + 1;
        }
        proof {
            let d = (height - j) as int;
            assert(width as int * (d - 1) * 4 + width as int * 4 == width as int * d * 4)
                by (nonlinear_arith);
        }
    }
    img
}

/// Render the showcase scene at the given pixel size, with the standard
/// camera, sample count and recursion depth.
pub fn render(width: u16, height: u16, rng: &mut rand::rngs::SmallRng) -> (img: Vec<u8>)
    ensures
        img@.len() == width as int * height as int * 4,
        forall|k: int| 0 <= k < img@.len() && k % 4 == 3 ==> img@[k] == 255,
{
    let world = HittableList::random_scene(rng);

    let cam = Camera::new(
        Vec3::new(13 * SCALE, 2 * SCALE, 3 * SCALE),
        Vec3::new(0, 0, 0),
        Vec3::new(0, SCALE, 0),
        20 * SCALE,
        div_fx((width as i64) * SCALE, (height as i64) * SCALE),
        6554,
        10 * SCALE,
    );

    render_scene(&world, &cam, width, height, SAMPLES_PER_PIXEL, MAX_DEPTH, rng)
}

} // verus!

pub mod raytracer;
