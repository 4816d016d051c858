//! The camera: an orthonormal viewing basis, a viewport, and jittered
//! ray generation with a thin-lens aperture for depth of field.

use vstd::prelude::*;
use crate::fixed::{
    SCALE, fadd, fsub, fmul, fdiv,
    add_fx, sub_fx, mul_fx, div_fx,
};
use crate::vec3::{Vec3, Point3, V3, vadd, vsub, vscale, vdivs, vcross, vunit, vlen_sq};
use crate::ray::Ray;

verus! {

/// One degree in fixed-point radians: `SCALE * pi / 180`, rounded.
pub const RAD_PER_DEG: i64 = 1144;

/// A truncated Maclaurin sine, adequate over a camera's half-field angles.
pub open spec fn spec_sin_fx(x: int) -> int {
    let x2 = fmul(x, x);
    let x3 = fmul(x2, x);
    let x5 = fmul(x3, x2);
    fadd(fsub(x, fdiv(x3, 6 * SCALE as int)), fdiv(x5, 120 * SCALE as int))
}

/// A truncated Maclaurin cosine.
pub open spec fn spec_cos_fx(x: int) -> int {
    let x2 = fmul(x, x);
    let x4 = fmul(x2, x2);
    fadd(fsub(SCALE as int, fdiv(x2, 2 * SCALE as int)), fdiv(x4, 24 * SCALE as int))
}

/// The tangent as the ratio of the series above; past the series' reach
/// the division saturates or yields zero, the usual degraded fallback.
pub open spec fn spec_tan_fx(x: int) -> int {
    fdiv(spec_sin_fx(x), spec_cos_fx(x))
}

fn sin_fx(x: i64) -> (r: i64)
    ensures
        r as int == spec_sin_fx(x as int),
{
    let x2 = mul_fx(x, x);
    let x3 = mul_fx(x2, x);
    let x5 = mul_fx(x3, x2);
    add_fx(sub_fx(x, div_fx(x3, 6 * SCALE)), div_fx(x5, 120 * SCALE))
}

fn cos_fx(x: i64) -> (r: i64)
    ensures
        r as int == spec_cos_fx(x as int),
{
    let x2 = mul_fx(x, x);
    let x4 = mul_fx(x2, x2);
    add_fx(sub_fx(SCALE, div_fx(x2, 2 * SCALE)), div_fx(x4, 24 * SCALE))
}

fn tan_fx(x: i64) -> (r: i64)
    ensures
        r as int == spec_tan_fx(x as int),
{
    div_fx(sin_fx(x), cos_fx(x))
}

pub struct Camera {
    pub org: Point3,
    pub lower_left_corner: Point3,
    pub horizontal: Vec3,
    pub vertical: Vec3,
    pub u: Vec3,
    pub v: Vec3,
    pub w: Vec3,
    pub lens_radius: i64,
}

/// The lens offset a disk sample `rd` produces: the sample scaled by the
/// lens radius, spread over the camera's in-plane basis.
pub open spec fn spec_cam_offset(c: Camera, rd: V3) -> V3 {
    let scaled = vscale(c.lens_radius as int, rd);
    vadd(vscale(scaled.x, c.u@), vscale(scaled.y, c.v@))
}

/// The origin and direction of the ray through viewport coordinates
/// `(s, t)`, with lens sample `rd`.
pub open spec fn spec_cam_ray(c: Camera, s: int, t: int, rd: V3) -> (V3, V3) {
    let offset = spec_cam_offset(c, rd);
    (
        vadd(c.org@, offset),
        vsub(
            vsub(
                vadd(vadd(c.lower_left_corner@, vscale(s, c.horizontal@)), vscale(t, c.vertical@)),
                c.org@,
            ),
            offset,
        ),
    )
}

impl Camera {
    /// Derive the viewing basis and viewport from the look parameters:
    /// `vfov` is the vertical field of view in fixed-point degrees, and
    /// the viewport is scaled by the focus distance.
    pub fn new(
        lookfrom: Point3,
        lookat: Point3,
        vup: Vec3,
        vfov: i64,
        aspect_ratio: i64,
        aperture: i64,
        focus_dist: i64,
    ) -> (r: Self)
        ensures
            ({
                let theta = fmul(vfov as int, RAD_PER_DEG as int);
                let h = spec_tan_fx(fdiv(theta, 2 * SCALE as int));
                let v_height = fmul(2 * SCALE as int, h);
                let v_width = fmul(aspect_ratio as int, v_height);
                let w = vunit(vsub(lookfrom@, lookat@));
                let u = vunit(vcross(vup@, w));
                let v = vcross(w, u);
                let horizontal = vscale(fmul(focus_dist as int, v_width), u);
                let vertical = vscale(fmul(focus_dist as int, v_height), v);
                &&& r.org == lookfrom
                &&& r.w@ == w
                &&& r.u@ == u
                &&& r.v@ == v
                &&& r.horizontal@ == horizontal
                &&& r.vertical@ == vertical
                &&& r.lower_left_corner@ == vsub(
                    vsub(vsub(lookfrom@, vdivs(horizontal, 2 * SCALE as int)), vdivs(vertical, 2 * SCALE as int)),
                    vscale(focus_dist as int, w),
                )
                &&& r.lens_radius as int == fdiv(aperture as int, 2 * SCALE as int)
            }),
    {
        let theta = mul_fx(vfov, RAD_PER_DEG);
        let h = tan_fx(div_fx(theta, 2 * SCALE));
        let v_height = mul_fx(2 * SCALE, h);
        let v_width = mul_fx(aspect_ratio, v_height);

        let w = lookfrom.sub(lookat).unit();
        let u = vup.cross(w).unit();
        let v = w.cross(u);

        let org = lookfrom;
        let horizontal = u.scale(mul_fx(focus_dist, v_width));
        let vertical = v.scale(mul_fx(focus_dist, v_height));
        let lower_left_corner = org.sub(horizontal.div(2 * SCALE)).sub(vertical.div(2 * SCALE)).sub(
            w.scale(focus_dist),
        );

        Self {
            org,
            lower_left_corner,
            horizontal,
            vertical,
            u,
            v,
            w,
            lens_radius: div_fx(aperture, 2 * SCALE),
        }
    }

    /// The ray through `(s, t)` once the lens sample is fixed.
    pub fn ray_with(&self, s: i64, t: i64, rd: Vec3) -> (r: Ray)
        ensures
            (r.org@, r.dir@) == spec_cam_ray(*self, s as int, t as int, rd@),
    {
        let scaled = rd.scale(self.lens_radius);
        let offset = self.u.scale(scaled.x()).add(self.v.scale(scaled.y()));

        Ray::new(
            self.org.add(offset),
            self.lower_left_corner.add(self.horizontal.scale(s)).add(self.vertical.scale(t)).sub(
                self.org,
            ).sub(offset),
        )
    }

    /// The ray through `(s, t)` with a fresh lens sample: some point of
    /// the unit disk, whatever the generator returned.
    pub fn ray(&self, s: i64, t: i64, rng: &mut rand::rngs::SmallRng) -> (r: Ray)
        ensures
            exists|q: V3|
                vlen_sq(q) < SCALE && q.z == 0 && (r.org@, r.dir@) == spec_cam_ray(
                    *self,
                    s as int,
                    t as int,
                    q,
                ),
    {
        let p = Vec3::random_in_unit_disk(rng);
        let r = self.ray_with(s, t, p);
        proof {
            assert(vlen_sq(p@) < SCALE && p@.z == 0 && (r.org@, r.dir@) == spec_cam_ray(
                *self,
                s as int,
                t as int,
                p@,
            ));
        }
        r
    }
}

} // verus!
