//! Hit records and the scene container with its nearest-hit query.

use vstd::prelude::*;
use crate::fixed::{SCALE, iabs, add_fx, mul_fx, lemma_fmul_zero, lemma_fmul_lt};
use crate::vec3::{Vec3, Point3, V3, vmul, vsub, vlen, lemma_vlen_unit_lower};
use crate::ray::Ray;
use crate::material::{Material, Lambertian, Metal, Dielectric};
use crate::sphere::{Sphere, spec_sphere_hit, lemma_sphere_hit_narrow};
use crate::rng::gen_range_i64;

verus! {

/// A ray-surface intersection: hit point, adjusted unit normal, the
/// surface's material, the parametric distance, and whether the ray came
/// from outside. Valid only within the query that produced it.
#[derive(Clone, Copy, Debug)]
pub struct Intersection {
    pub p: Point3,
    pub normal: Vec3,
    pub mat: Material,
    pub t: i64,
    pub front_face: bool,
}

/// The mathematical model of an intersection, with the parametric distance
/// as an unbounded integer.
pub ghost struct HitInfo {
    pub t: int,
    pub p: V3,
    pub normal: V3,
    pub front_face: bool,
    pub mat: Material,
}

impl Intersection {
    pub fn new(p: Point3, normal: Vec3, mat: Material, t: i64, front_face: bool) -> (r: Self)
        ensures
            r.p == p,
            r.normal == normal,
            r.mat == mat,
            r.t == t,
            r.front_face == front_face,
    {
        Self { p, normal, mat, t, front_face }
    }
}

/// An ordered collection of spheres, scanned linearly for the nearest hit.
pub struct HittableList(pub Vec<Sphere>);

/// The nearest hit over a sequence of spheres: scan left to right, always
/// narrowing the upper bound to the best parametric distance so far.
pub open spec fn spec_list_hit(spheres: Seq<Sphere>, r: Ray, t_min: int, t_max: int) -> Option<
    HitInfo,
>
    decreases spheres.len(),
{
    if spheres.len() == 0 {
        None
    } else {
        let prefix = spec_list_hit(spheres.drop_last(), r, t_min, t_max);
        let bound = match prefix {
            Some(h) => h.t,
            None => t_max,
        };
        match spec_sphere_hit(spheres.last(), r, t_min, bound) {
            Some(h) => Some(h),
            None => prefix,
        }
    }
}

impl HittableList {
    pub fn new() -> (r: Self)
        ensures
            r.0@.len() == 0,
    {
        Self(Vec::new())
    }

    pub fn add(&mut self, s: Sphere)
        ensures
            final(self).0@ == old(self).0@.push(s),
    {
        self.0.push(s)
    }

    /// The showcase scene: a large gray ground sphere, a grid of small
    /// spheres with randomized positions and materials (mostly diffuse,
    /// some metal, some glass), and three large feature spheres. Every
    /// sphere between the ground and the features satisfies `grid_sphere`,
    /// whichever draws came out.
    pub fn random_scene(rng: &mut rand::rngs::SmallRng) -> (w: Self)
        ensures
            472 <= w.0@.len() <= 488,
            w.0@[0] == ground_sphere(),
            w.0@[w.0@.len() - 3] == glass_feature_sphere(),
            w.0@[w.0@.len() - 2] == diffuse_feature_sphere(),
            w.0@[w.0@.len() - 1] == metal_feature_sphere(),
            forall|k: int| 1 <= k < w.0@.len() - 3 ==> grid_sphere(#[trigger] w.0@[k]),
    {
        let mut world = Self::new();

        world.add(Sphere::new(
            Vec3::new(0, -65536000, 0),
            65536000,
            Material::Lambertian(Lambertian::new(Vec3::new(32768, 32768, 32768))),
        ));

        let mut a: i64 = -11;
        while a < 11
            invariant
                -11 <= a <= 11,
                1 + sure_total(a as int) <= world.0@.len() <= 1 + 22 * (a + 11),
                world.0@[0] == ground_sphere(),
                forall|k: int| 1 <= k < world.0@.len() ==> grid_sphere(#[trigger] world.0@[k]),
            decreases 11 - a,
        {
            let mut b: i64 = -11;
            while b < 11
                invariant
                    -11 <= a < 11,
                    -11 <= b <= 11,
                    1 + sure_total(a as int) + sure_in_row(a as int, b as int) <= world.0@.len()
                        <= 1 + 22 * (a + 11) + (b + 11),
                    world.0@[0] == ground_sphere(),
                    forall|k: int| 1 <= k < world.0@.len() ==> grid_sphere(#[trigger] world.0@[k]),
                decreases 11 - b,
            {
                let cell_u = gen_range_i64(rng, 0, SCALE);
                let cell_v = gen_range_i64(rng, 0, SCALE);
                let jitter_x = mul_fx(58982, cell_u);
                let jitter_z = mul_fx(58982, cell_v);
                proof {
                    lemma_fmul_lt(58982, cell_u as int);
                    lemma_fmul_lt(58982, cell_v as int);
                }
                let center = Vec3::new(
                    add_fx(a * SCALE, jitter_x),
                    13107,
                    add_fx(b * SCALE, jitter_z),
                );

                proof {
                    assert(in_grid_cell(center@.x, a as int));
                    assert(in_grid_cell(center@.z, b as int));
                }

                let feature_gap = center.sub(Vec3::new(262144, 13107, 0)).length();
                if feature_gap > 58982 {
                    let choice = gen_range_i64(rng, 0, SCALE);
                    if choice < 52429 {
                        // diffuse
                        let tint_a = Vec3::random(rng, 0, SCALE);
                        let tint_b = Vec3::random(rng, 0, SCALE);
                        let albedo = tint_a.mul(tint_b);
                        let s = Sphere::new(
                            center,
                            13107,
                            Material::Lambertian(Lambertian::new(albedo)),
                        );
                        proof {
                            lemma_albedo_product_range(tint_a@, tint_b@);
                            assert(grid_sphere(s));
                        }
                        world.add(s);
                    } else if choice < 62259 {
                        // metal
                        let albedo = Vec3::random(rng, 32768, SCALE);
                        let fuzz = gen_range_i64(rng, 0, 32768);
                        let s = Sphere::new(center, 13107, Material::Metal(Metal::new(albedo, fuzz)));
                        proof {
                            assert(grid_sphere(s));
                        }
                        world.add(s);
                    } else {
                        // glass
                        let s = Sphere::new(center, 13107, Material::Dielectric(Dielectric::new(98304)));
                        proof {
                            assert(grid_sphere(s));
                        }
                        world.add(s);
                    }
                } else {
                    proof {
                        // Only a cell adjoining the metal feature sphere can
                        // fail the distance test: elsewhere some coordinate
                        // of the gap is at least a whole unit.
                        if a <= 2 || b <= -2 || b >= 1 {
                            let d = vsub(center@, V3 { x: 262144, y: 13107, z: 0 });
                            assert(iabs(d.x) >= SCALE || iabs(d.z) >= SCALE);
                            lemma_vlen_unit_lower(d);
                            assert(false);
                        }
                    }
                }
                b = b + 1;
            }
            a = a + 1;
        }

        world.add(glass_feature());
        world.add(diffuse_feature());
        world.add(metal_feature());

        world
    }

    /// Scan every surface and keep the closest accepted intersection; the
    /// result is exactly what `spec_list_hit` says.
    pub fn hit(&self, r: &Ray, t_min: i64, t_max: i64) -> (res: Option<Intersection>)
        ensures
            ({
                let h = spec_list_hit(self.0@, *r, t_min as int, t_max as int);
                match res {
                    None => h is None,
                    Some(i) => h == Some(
                        HitInfo {
                            t: i.t as int,
                            p: i.p@,
                            normal: i.normal@,
                            front_face: i.front_face,
                            mat: i.mat,
                        },
                    ),
                }
            }),
    {
        let ghost full = self.0@;
        let mut result: Option<Intersection> = None;
        let mut t_closest: i64 = t_max;
        let mut idx: usize = 0;
        while idx < self.0.len()
            invariant
                0 <= idx <= self.0@.len(),
                self.0@ == full,
                ({
                    let h = spec_list_hit(full.take(idx as int), *r, t_min as int, t_max as int);
                    match result {
                        None => t_closest == t_max && h is None,
                        Some(i) => t_closest == i.t && h == Some(
                            HitInfo {
                                t: i.t as int,
                                p: i.p@,
                                normal: i.normal@,
                                front_face: i.front_face,
                                mat: i.mat,
                            },
                        ),
                    }
                }),
            decreases self.0@.len() - idx,
        {
            let obj = &self.0[idx];
            proof {
                assert(full.take(idx as int + 1).drop_last() =~= full.take(idx as int));
                assert(full.take(idx as int + 1).last() == full[idx as int]);
            }
            match obj.hit(r, t_min, t_closest) {
                Some(rec) => {
                    t_closest = rec.t;
                    result = Some(rec);
                },
                None => {},
            }
            idx = idx + 1;
        }
        proof {
            assert(full.take(full.len() as int) =~= full);
        }
        result
    }
}

/// The coordinate lies in grid cell `c`: at the cell's corner plus a
/// jitter of at most nine tenths of a unit.
pub open spec fn in_grid_cell(x: int, c: int) -> bool {
    c * (SCALE as int) <= x < c * (SCALE as int) + 58982
}

/// A small sphere of the showcase grid: fixed radius, center jittered
/// within a cell of the `-11..11` grid at ground height, clear of the
/// metal feature sphere, and carrying one of the three material kinds
/// with its parameters inside the generator's ranges.
pub open spec fn grid_sphere(s: Sphere) -> bool {
    &&& s.radius == 13107
    &&& s.center@.y == 13107
    &&& exists|c: int| -11 <= c < 11 && in_grid_cell(s.center@.x, c)
    &&& exists|c: int| -11 <= c < 11 && in_grid_cell(s.center@.z, c)
    &&& vlen(vsub(s.center@, V3 { x: 262144, y: 13107, z: 0 })) > 58982
    &&& match s.mat {
        Material::Lambertian(m) => {
            &&& 0 <= m.albedo@.x < SCALE
            &&& 0 <= m.albedo@.y < SCALE
            &&& 0 <= m.albedo@.z < SCALE
        },
        Material::Metal(m) => {
            &&& 32768 <= m.albedo@.x < SCALE
            &&& 32768 <= m.albedo@.y < SCALE
            &&& 32768 <= m.albedo@.z < SCALE
            &&& 0 <= m.fuzz < 32768
        },
        Material::Dielectric(m) => m.ir == 98304,
    }
}

/// A componentwise product of two colors with channels in `[0, 1)` has
/// channels in `[0, 1)`.
proof fn lemma_albedo_product_range(a: V3, b: V3)
    requires
        0 <= a.x < SCALE,
        0 <= a.y < SCALE,
        0 <= a.z < SCALE,
        0 <= b.x < SCALE,
        0 <= b.y < SCALE,
        0 <= b.z < SCALE,
    ensures
        0 <= vmul(a, b).x < SCALE,
        0 <= vmul(a, b).y < SCALE,
        0 <= vmul(a, b).z < SCALE,
{
    if a.x == 0 {
        lemma_fmul_zero(b.x);
    } else {
        lemma_fmul_lt(a.x, b.x);
    }
    if a.y == 0 {
        lemma_fmul_zero(b.y);
    } else {
        lemma_fmul_lt(a.y, b.y);
    }
    if a.z == 0 {
        lemma_fmul_zero(b.z);
    } else {
        lemma_fmul_lt(a.z, b.z);
    }
}

/// How many cells `(a, b')` with `b'` before `b` in row `a` are sure to
/// keep their sphere: every cell except those in rows `3..11` whose `b`
/// is `-1` or `0`, the only cells whose jittered center can fall within
/// nine tenths of the metal feature sphere's center.
spec fn sure_in_row(a: int, b: int) -> int {
    if a <= 2 {
        b + 11
    } else {
        (if b <= -1 { b + 11 } else { 10 }) + (if b >= 1 { b - 1 } else { 0 })
    }
}

/// How many cells in the rows before `a` are sure to keep their sphere.
spec fn sure_total(a: int) -> int {
    if a <= 3 { 22 * (a + 11) } else { 308 + 20 * (a - 3) }
}

/// The ground of the showcase scene: a huge gray diffuse sphere.
pub open spec fn ground_sphere() -> Sphere {
    Sphere {
        center: Vec3 { x: 0, y: -65536000i64, z: 0 },
        radius: 65536000,
        mat: Material::Lambertian(
            Lambertian { albedo: Vec3 { x: 32768, y: 32768, z: 32768 } },
        ),
    }
}

/// The central glass feature sphere of the showcase scene.
pub open spec fn glass_feature_sphere() -> Sphere {
    Sphere {
        center: Vec3 { x: 0, y: 65536, z: 0 },
        radius: 65536,
        mat: Material::Dielectric(Dielectric { ir: 98304 }),
    }
}

/// The brown diffuse feature sphere of the showcase scene.
pub open spec fn diffuse_feature_sphere() -> Sphere {
    Sphere {
        center: Vec3 { x: -262144i64, y: 65536, z: 0 },
        radius: 65536,
        mat: Material::Lambertian(
            Lambertian { albedo: Vec3 { x: 26214, y: 13107, z: 6554 } },
        ),
    }
}

/// The polished metal feature sphere of the showcase scene.
pub open spec fn metal_feature_sphere() -> Sphere {
    Sphere {
        center: Vec3 { x: 262144, y: 65536, z: 0 },
        radius: 65536,
        mat: Material::Metal(
            Metal { albedo: Vec3 { x: 45875, y: 39322, z: 32768 }, fuzz: 0 },
        ),
    }
}

fn glass_feature() -> (s: Sphere)
    ensures
        s == glass_feature_sphere(),
{
    Sphere::new(Vec3::new(0, 65536, 0), 65536, Material::Dielectric(Dielectric::new(98304)))
}

fn diffuse_feature() -> (s: Sphere)
    ensures
        s == diffuse_feature_sphere(),
{
    Sphere::new(
        Vec3::new(-262144, 65536, 0),
        65536,
        Material::Lambertian(Lambertian::new(Vec3::new(26214, 13107, 6554))),
    )
}

fn metal_feature() -> (s: Sphere)
    ensures
        s == metal_feature_sphere(),
{
    Sphere::new(
        Vec3::new(262144, 65536, 0),
        65536,
        Material::Metal(Metal::new(Vec3::new(45875, 39322, 32768), 0)),
    )
}

/// The scan really returns the globally nearest hit: whatever it yields
/// lies within the query range and at a parametric distance no greater
/// than that of any individual sphere's hit, and it misses only when every
/// sphere misses.
#[verifier::rlimit(50)]
pub proof fn lemma_list_hit_nearest(spheres: Seq<Sphere>, r: Ray, t_min: int, t_max: int)
    ensures
        match spec_list_hit(spheres, r, t_min, t_max) {
            Some(h) => t_min <= h.t <= t_max && (forall|k: int|
                0 <= k < spheres.len() ==> ((#[trigger] spec_sphere_hit(
                    spheres[k],
                    r,
                    t_min,
                    t_max,
                )) matches Some(hk) ==> h.t <= hk.t)),
            None => forall|k: int|
                0 <= k < spheres.len() ==> (#[trigger] spec_sphere_hit(
                    spheres[k],
                    r,
                    t_min,
                    t_max,
                )) is None,
        },
    decreases spheres.len(),
{
    if spheres.len() > 0 {
        let pre = spheres.drop_last();
        lemma_list_hit_nearest(pre, r, t_min, t_max);
        let prefix = spec_list_hit(pre, r, t_min, t_max);
        let bound = match prefix {
            Some(h) => h.t,
            None => t_max,
        };
        lemma_sphere_hit_narrow(spheres.last(), r, t_min, bound, t_max);
        assert(forall|k: int| 0 <= k < pre.len() ==> pre[k] == spheres[k]);
        assert(spheres.last() == spheres[spheres.len() - 1]);
    }
}

} // verus!
