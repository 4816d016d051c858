//! Rays: a parametrized half-line, and the recursive color evaluator.

use vstd::prelude::*;
use crate::fixed::{SCALE, fadd, fsub, fmul, add_fx, sub_fx, mul_fx, lemma_fmul_zero, lemma_fmul_one, lemma_fmul_le};
use vstd::arithmetic::div_mod::lemma_div_multiples_vanish_quotient;
use crate::vec3::{Vec3, Color, Point3, V3, vadd, vscale, vmul, vdot, vunit, vlen, vlen_sq, vwf, vec3_of};
use crate::hittable::{HittableList, HitInfo, Intersection, spec_list_hit};
use crate::material::{Material, spec_lambertian_dir, spec_metal_dir, spec_dielectric_dir};
use crate::sphere::Sphere;

verus! {

/// Hits closer than this parametric distance are ignored when shading, to
/// avoid self-intersection acne at a scattering origin.
pub const T_ACNE: i64 = 66;

#[derive(Clone, Copy)]
pub struct Ray {
    pub org: Point3,
    pub dir: Vec3,
}

/// The point reached after travelling `t` along the ray.
pub open spec fn ray_at(r: Ray, t: int) -> V3 {
    vadd(r.org@, vscale(t, r.dir@))
}

/// The sky-blue zenith color, `(0.5, 0.7, 1.0)`, in fixed point.
pub open spec fn sky_blue() -> V3 {
    V3 { x: 32768, y: 45875, z: SCALE as int }
}

pub open spec fn white() -> V3 {
    V3 { x: SCALE as int, y: SCALE as int, z: SCALE as int }
}

pub open spec fn black() -> V3 {
    V3 { x: 0, y: 0, z: 0 }
}

/// The background: a vertical gradient from white at the horizon to sky
/// blue at the zenith, driven by the y component of the unit direction.
pub open spec fn spec_background(r: Ray) -> V3 {
    let unit_dir = vunit(r.dir@);
    let t = fmul(32768, fadd(unit_dir.y, SCALE as int));
    vadd(vscale(fsub(SCALE as int, t), white()), vscale(t, sky_blue()))
}

/// The ray with the given model origin and direction.
pub open spec fn mk_ray(org: V3, dir: V3) -> Ray {
    Ray { org: vec3_of(org), dir: vec3_of(dir) }
}

/// What the light-transport evaluator may return: at depth zero, black;
/// on a miss, the background; on a hit, the recursive color through the
/// struck material's scattering policy, tinted by its attenuation — for
/// *some* admissible random sample, since the samples themselves are
/// drawn afresh on every call. Black on a hit is admissible only for a
/// metal whose perturbed reflection can point into the surface.
pub open spec fn color_ok(r: Ray, spheres: Seq<Sphere>, depth: nat, c: V3) -> bool
    decreases depth,
{
    if depth == 0 {
        c == black()
    } else {
        match spec_list_hit(spheres, r, T_ACNE as int, i64::MAX as int) {
            None => c == spec_background(r),
            Some(h) => match h.mat {
                Material::Lambertian(m) => exists|p: V3, rec: V3|
                    {
                        &&& vlen_sq(p) < SCALE as int
                        &&& color_ok(
                            mk_ray(h.p, spec_lambertian_dir(h.normal, vunit(p))),
                            spheres,
                            (depth - 1) as nat,
                            rec,
                        )
                        &&& c == vmul(m.albedo@, rec)
                    },
                Material::Metal(m) => (exists|p: V3|
                    {
                        &&& vlen_sq(p) < SCALE as int
                        &&& vdot(spec_metal_dir(m, r, h.normal, p), h.normal) <= 0
                        &&& c == black()
                    }) || (exists|p: V3, rec: V3|
                    {
                        &&& vlen_sq(p) < SCALE as int
                        &&& vdot(spec_metal_dir(m, r, h.normal, p), h.normal) > 0
                        &&& color_ok(
                            mk_ray(h.p, spec_metal_dir(m, r, h.normal, p)),
                            spheres,
                            (depth - 1) as nat,
                            rec,
                        )
                        &&& c == vmul(m.albedo@, rec)
                    }),
                Material::Dielectric(m) => exists|draw: int, rec: V3|
                    {
                        &&& 0 <= draw < SCALE as int
                        &&& color_ok(
                            mk_ray(h.p, spec_dielectric_dir(m, r, h.front_face, h.normal, draw)),
                            spheres,
                            (depth - 1) as nat,
                            rec,
                        )
                        &&& c == vmul(white(), rec)
                    },
            },
        }
    }
}

impl Ray {
    pub fn new(org: Point3, dir: Vec3) -> (r: Self)
        ensures
            r.org == org,
            r.dir == dir,
    {
        Self { org, dir }
    }

    pub fn origin(&self) -> (r: Point3)
        ensures
            r == self.org,
    {
        self.org
    }

    pub fn direction(&self) -> (r: Vec3)
        ensures
            r == self.dir,
    {
        self.dir
    }

    pub fn at(&self, t: i64) -> (r: Point3)
        ensures
            r@ == ray_at(*self, t as int),
            vwf(r@),
    {
        self.org.add(self.dir.scale(t))
    }

    /// The recursive light-transport evaluator. At depth zero the ray is
    /// absorbed and contributes black; a ray that misses every surface
    /// contributes the background gradient; a hit defers to the surface's
    /// material and tints the recursive result by its attenuation.
    pub fn color(&self, world: &HittableList, depth: u32, rng: &mut rand::rngs::SmallRng) -> (c: Color)
        ensures
            depth == 0 ==> c@ == black(),
            depth > 0 && spec_list_hit(world.0@, *self, T_ACNE as int, i64::MAX as int) is None
                ==> c@ == spec_background(*self),
            color_ok(*self, world.0@, depth as nat, c@),
        decreases depth,
    {
        if depth == 0 {
            return Vec3::new(0, 0, 0);
        }
        match world.hit(self, T_ACNE, i64::MAX) {
            Some(i) => match i.mat.scatter(self, &i, rng) {
                Some((attenuation, scattered)) => {
                    let rec = scattered.color(world, depth - 1, rng);
                    let out = attenuation.mul(rec);
                    proof {
                        lemma_color_ok_scatter(*self, world.0@, depth as nat, i, attenuation, scattered, rec@, out@);
                    }
                    out
                },
                None => {
                    let out = Vec3::new(0, 0, 0);
                    proof {
                        let h = spec_list_hit(world.0@, *self, T_ACNE as int, i64::MAX as int)->Some_0;
                        let m = i.mat->Metal_0;
                        let p = choose|p: V3|
                            vlen_sq(p) < SCALE && vdot(
                                spec_metal_dir(m, *self, i.normal@, p),
                                i.normal@,
                            ) <= 0;
                        assert(vlen_sq(p) < SCALE as int && vdot(
                            spec_metal_dir(m, *self, h.normal, p),
                            h.normal,
                        ) <= 0 && out@ == black());
                    }
                    out
                },
            },
            None => {
                let unit_dir = self.dir.unit();
                let t = mul_fx(32768, add_fx(unit_dir.y(), SCALE));
                Vec3::new(SCALE, SCALE, SCALE).scale(sub_fx(SCALE, t)).add(
                    Vec3::new(32768, 45875, SCALE).scale(t),
                )
            },
        }
    }
}

/// One scattering step preserves `color_ok`: if the scene hit at `i`
/// scattered into `scattered` with attenuation `attenuation` (as the
/// material contracts state, for some admissible sample), and the
/// recursive evaluation of `scattered` produced `rec`, then tinting `rec`
/// by the attenuation is an admissible color for the incoming ray.
proof fn lemma_color_ok_scatter(
    r: Ray,
    spheres: Seq<Sphere>,
    depth: nat,
    i: Intersection,
    attenuation: Color,
    scattered: Ray,
    rec: V3,
    out: V3,
)
    requires
        depth >= 1,
        spec_list_hit(spheres, r, T_ACNE as int, i64::MAX as int) == Some(
            HitInfo {
                t: i.t as int,
                p: i.p@,
                normal: i.normal@,
                front_face: i.front_face,
                mat: i.mat,
            },
        ),
        scattered.org == i.p,
        match i.mat {
            Material::Lambertian(m) => attenuation == m.albedo && exists|p: V3|
                vlen_sq(p) < SCALE && scattered.dir@ == spec_lambertian_dir(i.normal@, vunit(p)),
            Material::Metal(m) => attenuation == m.albedo && vdot(scattered.dir@, i.normal@) > 0
                && exists|p: V3|
                vlen_sq(p) < SCALE && scattered.dir@ == spec_metal_dir(m, r, i.normal@, p),
            Material::Dielectric(m) => attenuation@ == white() && exists|draw: int|
                0 <= draw < SCALE && scattered.dir@ == spec_dielectric_dir(
                    m,
                    r,
                    i.front_face,
                    i.normal@,
                    draw,
                ),
        },
        color_ok(scattered, spheres, (depth - 1) as nat, rec),
        out == vmul(attenuation@, rec),
    ensures
        color_ok(r, spheres, depth, out),
{
    let h = spec_list_hit(spheres, r, T_ACNE as int, i64::MAX as int)->Some_0;
    assert(vec3_of(i.p@) == i.p);
    match i.mat {
        Material::Lambertian(m) => {
            let p = choose|p: V3|
                vlen_sq(p) < SCALE && scattered.dir@ == spec_lambertian_dir(i.normal@, vunit(p));
            assert(mk_ray(h.p, spec_lambertian_dir(h.normal, vunit(p))) == scattered);
            assert(vlen_sq(p) < SCALE as int && color_ok(
                mk_ray(h.p, spec_lambertian_dir(h.normal, vunit(p))),
                spheres,
                (depth - 1) as nat,
                rec,
            ) && out == vmul(m.albedo@, rec));
        },
        Material::Metal(m) => {
            let p = choose|p: V3|
                vlen_sq(p) < SCALE && scattered.dir@ == spec_metal_dir(m, r, i.normal@, p);
            assert(mk_ray(h.p, spec_metal_dir(m, r, h.normal, p)) == scattered);
            assert(vlen_sq(p) < SCALE as int && vdot(spec_metal_dir(m, r, h.normal, p), h.normal)
                > 0 && color_ok(
                mk_ray(h.p, spec_metal_dir(m, r, h.normal, p)),
                spheres,
                (depth - 1) as nat,
                rec,
            ) && out == vmul(m.albedo@, rec));
        },
        Material::Dielectric(m) => {
            let draw = choose|draw: int|
                0 <= draw < SCALE && scattered.dir@ == spec_dielectric_dir(
                    m,
                    r,
                    i.front_face,
                    i.normal@,
                    draw,
                );
            assert(mk_ray(h.p, spec_dielectric_dir(m, r, h.front_face, h.normal, draw))
                == scattered);
            assert(0 <= draw < SCALE as int && color_ok(
                mk_ray(h.p, spec_dielectric_dir(m, r, h.front_face, h.normal, draw)),
                spheres,
                (depth - 1) as nat,
                rec,
            ) && out == vmul(white(), rec));
        },
    }
}

/// In an empty scene no ray meets any surface, so the evaluator always
/// returns the background gradient at any positive depth.
pub proof fn lemma_empty_scene_misses(spheres: Seq<Sphere>, r: Ray, t_min: int, t_max: int)
    requires
        spheres.len() == 0,
    ensures
        spec_list_hit(spheres, r, t_min, t_max) is None,
{
}

/// The background gradient has channels in `[0, 1]` whenever the unit
/// direction's vertical component itself lies in `[-1, 1]`. (A degenerate
/// direction far shorter than one unit can normalize to a longer vector
/// and push a channel outside; such rays get the documented degraded
/// value, not a fault.)
pub proof fn lemma_background_in_unit_range(r: Ray)
    requires
        -(SCALE as int) <= vunit(r.dir@).y <= SCALE as int,
    ensures
        0 <= spec_background(r).x <= SCALE,
        0 <= spec_background(r).y <= SCALE,
        0 <= spec_background(r).z <= SCALE,
{
    let y = vunit(r.dir@).y;
    let s1 = fadd(y, SCALE as int);
    let t = fmul(32768, s1);
    assert(0 <= 32768 * s1) by (nonlinear_arith)
        requires 0 <= s1;
    lemma_div_multiples_vanish_quotient(32768, s1, 2);
    assert(0 <= t <= SCALE as int);
    lemma_fmul_one(fsub(SCALE as int, t));
    lemma_fmul_one(t);
    lemma_fmul_le(t, 32768);
    lemma_fmul_le(t, 45875);
}

/// Straight up, the background is exactly the sky-blue zenith color.
pub proof fn lemma_background_zenith(r: Ray)
    requires
        r.dir@ == (V3 { x: 0, y: SCALE as int, z: 0 }),
    ensures
        spec_background(r) == sky_blue(),
{
    lemma_background_unit_y(r);
    assert(spec_background(r) == sky_blue());
}

/// Straight down, the background is exactly white.
pub proof fn lemma_background_horizon(r: Ray)
    requires
        r.dir@ == (V3 { x: 0, y: -(SCALE as int), z: 0 }),
    ensures
        spec_background(r) == white(),
{
    lemma_background_unit_y(r);
    assert(spec_background(r) == white());
}

/// Shared evaluation steps for a background looked at along the y axis.
proof fn lemma_background_unit_y(r: Ray)
    requires
        r.dir@ == (V3 { x: 0, y: SCALE as int, z: 0 }) || r.dir@ == (V3 {
            x: 0,
            y: -(SCALE as int),
            z: 0,
        }),
    ensures
        vunit(r.dir@) == r.dir@,
        r.dir@.y == SCALE as int ==> spec_background(r) == sky_blue(),
        r.dir@.y == -(SCALE as int) ==> spec_background(r) == white(),
{
    lemma_fmul_zero(0);
    lemma_fmul_zero(SCALE as int);
    lemma_fmul_zero(32768);
    lemma_fmul_one(SCALE as int);
    lemma_fmul_one(-(SCALE as int));
    lemma_fmul_one(32768);
    lemma_fmul_one(45875);
    assert(65536 * 65536 == 4294967296 && (65536 + 1) * (65536 + 1) == 4295098369
        && -65536 * -65536 == 4294967296 && 32768 * 131072 == 65536 * 65536) by (nonlinear_arith);
    crate::fixed::lemma_isqrt_unique((65536 * 65536) as nat, 65536nat);
    assert(vlen_sq(r.dir@) == 65536);
    assert(vlen(r.dir@) == 65536);
}

/// A ray evaluated at parameter zero stands at its origin, and at any `t`
/// at the origin displaced by `t` times the direction.
pub proof fn lemma_ray_at_origin(r: Ray, t: int)
    requires
        vwf(r.org@),
    ensures
        ray_at(r, 0) == r.org@,
        ray_at(r, t) == vadd(r.org@, vscale(t, r.dir@)),
{
}

} // verus!
