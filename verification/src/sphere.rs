//! Spheres and the closed-form ray-sphere intersection.

use vstd::prelude::*;
use crate::fixed::{
    SCALE, fadd, fsub, fneg, fmul, fdiv, fsqrt, lemma_tdiv_mono, lemma_fmul_zero, lemma_fmul_one,
    add_fx, sub_fx, neg_fx, mul_fx, div_fx, sqrt_fx,
};
use vstd::arithmetic::div_mod::{lemma_div_multiples_vanish, lemma_div_of0};
use crate::vec3::{Vec3, Point3, V3, vsub, vdot, vdivs, vneg, vlen_sq, vwf, lemma_vlen_sq_nonneg};
use crate::ray::{Ray, ray_at};
use crate::material::Material;
use crate::hittable::{Intersection, HitInfo};

verus! {

#[derive(Clone, Copy, Debug)]
pub struct Sphere {
    pub center: Point3,
    pub radius: i64,
    pub mat: Material,
}

/// The record produced when a ray meets a sphere at parameter `t`: the hit
/// point, the unit normal flipped to oppose the ray, and the facing flag.
pub open spec fn spec_sphere_record(s: Sphere, r: Ray, t: int) -> HitInfo {
    let p = ray_at(r, t);
    let outward = vdivs(vsub(p, s.center@), s.radius as int);
    let front = vdot(r.dir@, outward) < 0;
    HitInfo {
        t,
        p,
        normal: if front { outward } else { vneg(outward) },
        front_face: front,
        mat: s.mat,
    }
}

/// Closed-form intersection: solve the half-b quadratic, then take the
/// smaller root if it lies in `[t_min, t_max]`, else the larger, else miss.
pub open spec fn spec_sphere_hit(s: Sphere, r: Ray, t_min: int, t_max: int) -> Option<HitInfo> {
    let oc = vsub(r.org@, s.center@);
    let a = vlen_sq(r.dir@);
    let half_b = vdot(oc, r.dir@);
    let c = fsub(vlen_sq(oc), fmul(s.radius as int, s.radius as int));
    let disc = fsub(fmul(half_b, half_b), fmul(a, c));
    if disc < 0 {
        None
    } else {
        let sqrtd = fsqrt(disc);
        let near = fdiv(fsub(fneg(half_b), sqrtd), a);
        let far = fdiv(fadd(fneg(half_b), sqrtd), a);
        if t_min <= near && near <= t_max {
            Some(spec_sphere_record(s, r, near))
        } else if t_min <= far && far <= t_max {
            Some(spec_sphere_record(s, r, far))
        } else {
            None
        }
    }
}

impl Sphere {
    pub fn new(center: Point3, radius: i64, mat: Material) -> (r: Self)
        ensures
            r.center == center,
            r.radius == radius,
            r.mat == mat,
    {
        Self { center, radius, mat }
    }

    /// Intersect a ray with this sphere, accepting only parameters within
    /// `[t_min, t_max]`; the result is exactly what `spec_sphere_hit` says.
    pub fn hit(&self, r: &Ray, t_min: i64, t_max: i64) -> (res: Option<Intersection>)
        ensures
            ({
                let h = spec_sphere_hit(*self, *r, t_min as int, t_max as int);
                match res {
                    None => h is None,
                    Some(i) => h == Some(
                        HitInfo {
                            t: i.t as int,
                            p: i.p@,
                            normal: i.normal@,
                            front_face: i.front_face,
                            mat: i.mat,
                        },
                    ),
                }
            }),
    {
        let oc = r.origin().sub(self.center);
        let a = r.direction().length_squared();
        let half_b = oc.dot(r.direction());
        let c = sub_fx(oc.length_squared(), mul_fx(self.radius, self.radius));

        let discriminant = sub_fx(mul_fx(half_b, half_b), mul_fx(a, c));
        if discriminant < 0 {
            return None;
        }
        let sqrtd = sqrt_fx(discriminant);

        let near = div_fx(sub_fx(neg_fx(half_b), sqrtd), a);
        let far = div_fx(add_fx(neg_fx(half_b), sqrtd), a);
        let t = if t_min <= near && near <= t_max {
            near
        } else if t_min <= far && far <= t_max {
            far
        } else {
            return None;
        };

        let p = r.at(t);
        let outward_normal = p.sub(self.center).div(self.radius);
        let (normal, front_face) = if r.direction().dot(outward_normal) < 0 {
            (outward_normal, true)
        } else {
            (outward_normal.neg(), false)
        };

        Some(Intersection::new(p, normal, self.mat, t, front_face))
    }
}

/// The two quadratic roots come out ordered: the near root never exceeds
/// the far one.
proof fn lemma_roots_ordered(half_b: int, sqrtd: int, a: int)
    requires
        sqrtd >= 0,
        a >= 0,
    ensures
        fdiv(fsub(fneg(half_b), sqrtd), a) <= fdiv(fadd(fneg(half_b), sqrtd), a),
{
    if a != 0 {
        lemma_tdiv_mono(
            fsub(fneg(half_b), sqrtd) * (SCALE as int),
            fadd(fneg(half_b), sqrtd) * (SCALE as int),
            a,
        );
    }
}

/// A ray fired straight at a sphere's center hits exactly where geometry
/// says: from distance `d` outside a sphere of radius `radius` it meets
/// the near surface at parameter `d - radius`, facing the ray, and when
/// the range admits only the far root it exits at `d + radius` from
/// inside. Exactness asks that `d` and the radius sit on a coarser
/// fixed-point grid, so that their squares are representable without
/// rounding; other inputs hit at a parameter one rounding step away.
pub proof fn lemma_axis_aligned_hit(s: Sphere, r: Ray, d: int, t_min: int, t_max: int)
    requires
        r.dir@ == (V3 { x: SCALE as int, y: 0, z: 0 }),
        r.org@ == (V3 { x: s.center@.x - d, y: s.center@.y, z: s.center@.z }),
        vwf(s.center@),
        -0x4000_0000_0000_0000 <= s.center@.x <= 0x4000_0000_0000_0000,
        0 < s.radius < d,
        d <= 0x80_0000_0000,
        d % 256 == 0,
        s.radius as int % 256 == 0,
    ensures
        ({
            let h = spec_sphere_hit(s, r, t_min, t_max);
            &&& (t_min <= d - s.radius <= t_max ==> (h matches Some(hi) && hi.t == d - s.radius
                && hi.front_face))
            &&& ((d - s.radius < t_min && t_min <= d + s.radius <= t_max) ==> (h matches Some(hi)
                && hi.t == d + s.radius && !hi.front_face))
        }),
{
    let radius = s.radius as int;
    let dq = d / 256;
    let rq = radius / 256;
    assert(d == 256 * dq && radius == 256 * rq);
    let dq2 = dq * dq;
    let rq2 = rq * rq;
    assert(-d * -d == 65536 * (dq * dq) && radius * radius == 65536 * (rq * rq)) by (nonlinear_arith)
        requires
            d == 256 * dq,
            radius == 256 * rq;
    assert(radius * radius == (rq * rq) * 65536) by (nonlinear_arith)
        requires radius == 256 * rq;
    assert(dq * dq <= 0x4000_0000_0000_0000 && 0 < rq * rq < dq * dq) by (nonlinear_arith)
        requires
            1 <= rq < dq,
            dq <= 0x8000_0000;
    assert(radius * radius < (radius + 1) * (radius + 1)) by (nonlinear_arith)
        requires radius > 0;

    lemma_fmul_zero(0);
    lemma_fmul_zero(SCALE as int);
    lemma_fmul_zero(d - radius);
    lemma_fmul_zero(d + radius);
    lemma_fmul_one(SCALE as int);
    lemma_fmul_one(-(SCALE as int));
    lemma_fmul_one(-d);
    lemma_fmul_one(d);
    lemma_fmul_one(d - radius);
    lemma_fmul_one(d + radius);
    lemma_fmul_one(dq2 - rq2);
    lemma_div_multiples_vanish(dq2, SCALE as int);
    lemma_div_multiples_vanish(rq2, SCALE as int);
    lemma_div_multiples_vanish(SCALE as int, radius);
    lemma_div_of0(radius);

    let oc = vsub(r.org@, s.center@);
    assert(oc == V3 { x: -d, y: 0, z: 0 });
    let a = vlen_sq(r.dir@);
    assert(a == SCALE as int);
    let half_b = vdot(oc, r.dir@);
    assert(half_b == -d);
    assert(fmul(-d, -d) == dq2);
    assert(fmul(radius, radius) == rq2);
    let c = fsub(vlen_sq(oc), fmul(radius, radius));
    assert(c == dq2 - rq2);
    let disc = fsub(fmul(half_b, half_b), fmul(a, c));
    assert(disc == rq2);

    crate::fixed::lemma_isqrt_unique((rq2 * SCALE) as nat, radius as nat);
    assert(fsqrt(disc) == radius);

    assert(fdiv(fsub(fneg(half_b), radius), a) == d - radius);
    assert(fdiv(fadd(fneg(half_b), radius), a) == d + radius);

    if t_min <= d - radius <= t_max {
        lemma_axis_record(s, r, d, d - radius);
    } else if t_min <= d + radius <= t_max {
        lemma_axis_record(s, r, d, d + radius);
    }
}

/// The intersection record along the axis ray: the normal points back
/// along the axis at the near surface and the facing flag follows the
/// sign of the offset from the center.
proof fn lemma_axis_record(s: Sphere, r: Ray, d: int, t: int)
    requires
        r.dir@ == (V3 { x: SCALE as int, y: 0, z: 0 }),
        r.org@ == (V3 { x: s.center@.x - d, y: s.center@.y, z: s.center@.z }),
        vwf(s.center@),
        -0x4000_0000_0000_0000 <= s.center@.x <= 0x4000_0000_0000_0000,
        0 < s.radius < d,
        d <= 0x80_0000_0000,
        t == d - s.radius || t == d + s.radius,
    ensures
        spec_sphere_record(s, r, t).front_face == (t == d - s.radius),
        spec_sphere_record(s, r, t).t == t,
{
    let radius = s.radius as int;
    lemma_fmul_zero(t);
    lemma_fmul_one(t);
    lemma_fmul_one(SCALE as int);
    lemma_fmul_one(-(SCALE as int));
    lemma_fmul_zero(0);
    lemma_div_multiples_vanish(SCALE as int, radius);
    lemma_div_of0(radius);
    let p = ray_at(r, t);
    assert(p == V3 {
        x: s.center@.x + if t == d - radius { -radius } else { radius },
        y: s.center@.y,
        z: s.center@.z,
    });
    let outward = vdivs(vsub(p, s.center@), radius);
    if t == d - radius {
        assert(outward == V3 { x: -(SCALE as int), y: 0, z: 0 });
        assert(vdot(r.dir@, outward) == -(SCALE as int));
    } else {
        assert(outward == V3 { x: SCALE as int, y: 0, z: 0 });
        assert(vdot(r.dir@, outward) == SCALE as int);
    }
}

/// Narrowing the upper bound of the search range can only discard hits:
/// any hit found under the narrow bound is the same hit the wide bound
/// yields, and a miss under the narrow bound means the wide hit, if any,
/// lies beyond the narrow bound.
pub proof fn lemma_sphere_hit_narrow(s: Sphere, r: Ray, t_min: int, b: int, t_max: int)
    requires
        b <= t_max,
    ensures
        match spec_sphere_hit(s, r, t_min, t_max) {
            Some(h) => match spec_sphere_hit(s, r, t_min, b) {
                Some(h2) => h2 == h,
                None => b < h.t,
            },
            None => spec_sphere_hit(s, r, t_min, b) is None,
        },
{
    let oc = vsub(r.org@, s.center@);
    let a = vlen_sq(r.dir@);
    let half_b = vdot(oc, r.dir@);
    lemma_vlen_sq_nonneg(r.dir@);
    let c = fsub(vlen_sq(oc), fmul(s.radius as int, s.radius as int));
    let disc = fsub(fmul(half_b, half_b), fmul(a, c));
    if disc >= 0 {
        lemma_roots_ordered(half_b, fsqrt(disc), a);
    }
}

} // verus!
