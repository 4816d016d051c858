//! Material scattering policies: diffuse, fuzzy-reflective and refractive.

use vstd::prelude::*;
use crate::fixed::{SCALE, fadd, fsub, fmul, fdiv, fmin, fneg, div_fx, min_fx, mul_fx, neg_fx, sub_fx, add_fx, sqrt_fx, fsqrt};
use crate::vec3::{Vec3, Color, V3, vadd, vscale, vdot, vneg, vunit, vreflect, vrefract, vnear_zero, vlen_sq};
use crate::ray::Ray;
use crate::hittable::Intersection;
use crate::rng::gen_range_i64;

verus! {

/// A diffuse surface: scatters around the normal, tinted by its albedo.
#[derive(Clone, Copy, Debug)]
pub struct Lambertian {
    pub albedo: Color,
}

/// A reflective surface with a fuzz radius perturbing the mirror direction.
#[derive(Clone, Copy, Debug)]
pub struct Metal {
    pub albedo: Color,
    pub fuzz: i64,
}

/// A transparent surface governed by its index of refraction.
#[derive(Clone, Copy, Debug)]
pub struct Dielectric {
    pub ir: i64,
}

/// The closed set of scattering policies a surface can carry.
#[derive(Clone, Copy, Debug)]
pub enum Material {
    Lambertian(Lambertian),
    Metal(Metal),
    Dielectric(Dielectric),
}

/// Schlick's approximation of the Fresnel reflectance.
pub open spec fn spec_reflectance(cosine: int, ref_idx: int) -> int {
    let r0 = fdiv(fsub(SCALE as int, ref_idx), fadd(SCALE as int, ref_idx));
    let r0sq = fmul(r0, r0);
    let m = fsub(SCALE as int, cosine);
    let m2 = fmul(m, m);
    let m4 = fmul(m2, m2);
    fadd(r0sq, fmul(fsub(SCALE as int, r0sq), fmul(m4, m)))
}

/// The direction a diffuse surface scatters into, given the unit sample
/// `rv`: the normal plus the sample, or the bare normal if that sum is
/// degenerate.
pub open spec fn spec_lambertian_dir(normal: V3, rv: V3) -> V3 {
    let d = vadd(normal, rv);
    if vnear_zero(d) { normal } else { d }
}

/// The direction a metal surface scatters into, given the fuzz sample.
pub open spec fn spec_metal_dir(m: Metal, r_in: Ray, normal: V3, sample: V3) -> V3 {
    vadd(vreflect(vunit(r_in.dir@), normal), vscale(m.fuzz as int, sample))
}

/// The direction a dielectric surface scatters into, given the reflectance
/// draw: mirror reflection under total internal reflection or a winning
/// draw, refraction otherwise.
pub open spec fn spec_dielectric_dir(d: Dielectric, r_in: Ray, front_face: bool, normal: V3, draw: int) -> V3 {
    let ratio = if front_face { fdiv(SCALE as int, d.ir as int) } else { d.ir as int };
    let unit_dir = vunit(r_in.dir@);
    let cos_theta = fmin(vdot(vneg(unit_dir), normal), SCALE as int);
    let sin_theta = fsqrt(fsub(SCALE as int, fmul(cos_theta, cos_theta)));
    if fmul(ratio, sin_theta) > SCALE as int || spec_reflectance(cos_theta, ratio) > draw {
        vreflect(unit_dir, normal)
    } else {
        vrefract(unit_dir, normal, ratio)
    }
}

impl Lambertian {
    pub fn new(albedo: Color) -> (r: Self)
        ensures
            r.albedo == albedo,
    {
        Self { albedo }
    }

    /// The scatter outcome once the unit sample has been drawn. A diffuse
    /// surface never absorbs.
    pub fn scatter_with(&self, i: &Intersection, rv: Vec3) -> (r: (Color, Ray))
        ensures
            r.0 == self.albedo,
            r.1.org == i.p,
            r.1.dir@ == spec_lambertian_dir(i.normal@, rv@),
    {
        let d = i.normal.add(rv);
        let scatter_direction = if d.near_zero() { i.normal } else { d };
        (self.albedo, Ray::new(i.p, scatter_direction))
    }

    pub fn scatter(&self, _r_in: &Ray, i: &Intersection, rng: &mut rand::rngs::SmallRng) -> (r: Option<(Color, Ray)>)
        ensures
            match r {
                Some((att, sc)) => att == self.albedo && sc.org == i.p && exists|p: V3|
                    vlen_sq(p) < SCALE && sc.dir@ == spec_lambertian_dir(i.normal@, vunit(p)),
                None => false,
            },
    {
        let rv = Vec3::random_unit_vector(rng);
        let out = self.scatter_with(i, rv);
        proof {
            let p = choose|p: V3| vlen_sq(p) < SCALE && rv@ == vunit(p);
            assert(vlen_sq(p) < SCALE && out.1.dir@ == spec_lambertian_dir(i.normal@, vunit(p)));
        }
        Some(out)
    }
}

impl Metal {
    pub fn new(albedo: Color, fuzz: i64) -> (r: Self)
        ensures
            r.albedo == albedo,
            r.fuzz == fuzz,
    {
        Self { albedo, fuzz }
    }

    /// The scatter outcome once the fuzz sample has been drawn: the ray is
    /// absorbed exactly when the perturbed reflection points into the
    /// surface.
    pub fn scatter_with(&self, r_in: &Ray, i: &Intersection, sample: Vec3) -> (r: Option<(Color, Ray)>)
        ensures
            match r {
                Some((att, sc)) => {
                    &&& vdot(spec_metal_dir(*self, *r_in, i.normal@, sample@), i.normal@) > 0
                    &&& att == self.albedo
                    &&& sc.org == i.p
                    &&& sc.dir@ == spec_metal_dir(*self, *r_in, i.normal@, sample@)
                },
                None => vdot(spec_metal_dir(*self, *r_in, i.normal@, sample@), i.normal@) <= 0,
            },
    {
        let reflected = r_in.direction().unit().reflect(i.normal);
        let out = Ray::new(i.p, reflected.add(sample.scale(self.fuzz)));
        if out.direction().dot(i.normal) > 0 {
            Some((self.albedo, out))
        } else {
            None
        }
    }

    pub fn scatter(&self, r_in: &Ray, i: &Intersection, rng: &mut rand::rngs::SmallRng) -> (r: Option<(Color, Ray)>)
        ensures
            match r {
                Some((att, sc)) => {
                    &&& att == self.albedo
                    &&& sc.org == i.p
                    &&& vdot(sc.dir@, i.normal@) > 0
                    &&& exists|p: V3|
                        vlen_sq(p) < SCALE && sc.dir@ == spec_metal_dir(*self, *r_in, i.normal@, p)
                },
                None => exists|p: V3|
                    vlen_sq(p) < SCALE && vdot(
                        spec_metal_dir(*self, *r_in, i.normal@, p),
                        i.normal@,
                    ) <= 0,
            },
    {
        let sample = Vec3::random_in_unit_sphere(rng);
        let out = self.scatter_with(r_in, i, sample);
        proof {
            assert(vlen_sq(sample@) < SCALE);
        }
        out
    }
}

impl Dielectric {
    pub fn new(ir: i64) -> (r: Self)
        ensures
            r.ir == ir,
    {
        Self { ir }
    }

    fn reflectance(cosine: i64, ref_idx: i64) -> (r: i64)
        ensures
            r as int == spec_reflectance(cosine as int, ref_idx as int),
    {
        let r0 = div_fx(sub_fx(SCALE, ref_idx), add_fx(SCALE, ref_idx));
        let r0sq = mul_fx(r0, r0);
        let m = sub_fx(SCALE, cosine);
        let m2 = mul_fx(m, m);
        let m4 = mul_fx(m2, m2);
        add_fx(r0sq, mul_fx(sub_fx(SCALE, r0sq), mul_fx(m4, m)))
    }

    /// The scatter outcome once the reflectance draw is fixed. A
    /// dielectric never absorbs and never tints: the attenuation is white.
    pub fn scatter_with(&self, r_in: &Ray, i: &Intersection, draw: i64) -> (r: (Color, Ray))
        ensures
            r.0@ == (V3 { x: SCALE as int, y: SCALE as int, z: SCALE as int }),
            r.1.org == i.p,
            r.1.dir@ == spec_dielectric_dir(*self, *r_in, i.front_face, i.normal@, draw as int),
    {
        let refraction_ratio = if i.front_face { div_fx(SCALE, self.ir) } else { self.ir };
        let unit_direction = r_in.direction().unit();
        let cos_theta = min_fx(unit_direction.neg().dot(i.normal), SCALE);
        let sin_theta = sqrt_fx(sub_fx(SCALE, mul_fx(cos_theta, cos_theta)));

        let direction = if mul_fx(refraction_ratio, sin_theta) > SCALE
            || Self::reflectance(cos_theta, refraction_ratio) > draw {
            unit_direction.reflect(i.normal)
        } else {
            unit_direction.refract(i.normal, refraction_ratio)
        };

        (Vec3::new(SCALE, SCALE, SCALE), Ray::new(i.p, direction))
    }

    pub fn scatter(&self, r_in: &Ray, i: &Intersection, rng: &mut rand::rngs::SmallRng) -> (r: Option<(Color, Ray)>)
        ensures
            match r {
                Some((att, sc)) => {
                    &&& att@ == (V3 { x: SCALE as int, y: SCALE as int, z: SCALE as int })
                    &&& sc.org == i.p
                    &&& exists|draw: int|
                        0 <= draw < SCALE && sc.dir@ == spec_dielectric_dir(*self, *r_in, i.front_face, i.normal@, draw)
                },
                None => false,
            },
    {
        let draw = gen_range_i64(rng, 0, SCALE);
        let out = self.scatter_with(r_in, i, draw);
        proof {
            assert(0 <= draw && draw < SCALE && out.1.dir@ == spec_dielectric_dir(
                *self,
                *r_in,
                i.front_face,
                i.normal@,
                draw as int,
            ));
        }
        Some(out)
    }
}

impl Material {
    /// Dispatch to the variant's scattering policy. Diffuse and dielectric
    /// surfaces always scatter; metal absorbs only rays whose perturbed
    /// reflection points into the surface.
    pub fn scatter(&self, r_in: &Ray, i: &Intersection, rng: &mut rand::rngs::SmallRng) -> (r: Option<(Color, Ray)>)
        ensures
            match r {
                Some((att, sc)) => {
                    &&& sc.org == i.p
                    &&& match *self {
                        Material::Lambertian(m) => att == m.albedo && exists|p: V3|
                            vlen_sq(p) < SCALE && sc.dir@ == spec_lambertian_dir(
                                i.normal@,
                                vunit(p),
                            ),
                        Material::Metal(m) => att == m.albedo && vdot(sc.dir@, i.normal@) > 0
                            && exists|p: V3|
                            vlen_sq(p) < SCALE && sc.dir@ == spec_metal_dir(m, *r_in, i.normal@, p),
                        Material::Dielectric(m) => att@ == (V3 {
                            x: SCALE as int,
                            y: SCALE as int,
                            z: SCALE as int,
                        }) && exists|draw: int|
                            0 <= draw < SCALE && sc.dir@ == spec_dielectric_dir(m, *r_in, i.front_face, i.normal@, draw),
                    }
                },
                None => (*self matches Material::Metal(m) && exists|p: V3|
                    vlen_sq(p) < SCALE && vdot(
                        spec_metal_dir(m, *r_in, i.normal@, p),
                        i.normal@,
                    ) <= 0),
            },
    {
        match self {
            Material::Lambertian(m) => m.scatter(r_in, i, rng),
            Material::Metal(m) => m.scatter(r_in, i, rng),
            Material::Dielectric(m) => m.scatter(r_in, i, rng),
        }
    }
}

} // verus!
