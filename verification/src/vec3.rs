//! Three-component fixed-point vectors, doubling as points and colors.

use vstd::prelude::*;
use crate::fixed::{
    SCALE, sat, iabs, fadd, fsub, fneg, fmul, fdiv, fmin, fabs, fclamp, fsqrt, lemma_fmul_le,
    add_fx, sub_fx, neg_fx, mul_fx, div_fx, min_fx, abs_fx, clamp_fx, sqrt_fx,
};
use crate::rng::gen_range_i64;

verus! {

/// A vector used as a color; channels are in `[0, 1]` only at encode time.
pub type Color = Vec3;

/// A vector used as a position in space.
pub type Point3 = Vec3;

/// The mathematical model of a vector: three unbounded integers, each the
/// fixed-point numerator of a coordinate.
pub ghost struct V3 {
    pub x: int,
    pub y: int,
    pub z: int,
}

#[derive(Clone, Copy, Debug, PartialEq, Eq, Structural)]
pub struct Vec3 {
    pub x: i64,
    pub y: i64,
    pub z: i64,
}

impl View for Vec3 {
    type V = V3;

    open spec fn view(&self) -> V3 {
        V3 { x: self.x as int, y: self.y as int, z: self.z as int }
    }
}

/// The vector whose coordinates are the given model values; meaningful
/// when each fits in an `i64`, as every value the arithmetic produces
/// does.
pub open spec fn vec3_of(a: V3) -> Vec3 {
    Vec3 { x: a.x as i64, y: a.y as i64, z: a.z as i64 }
}

/// All coordinates inside the symmetric saturation range; every vector the
/// library constructs satisfies this.
pub open spec fn vwf(a: V3) -> bool {
    &&& sat(a.x) == a.x
    &&& sat(a.y) == a.y
    &&& sat(a.z) == a.z
}

pub open spec fn vadd(a: V3, b: V3) -> V3 {
    V3 { x: fadd(a.x, b.x), y: fadd(a.y, b.y), z: fadd(a.z, b.z) }
}

pub open spec fn vsub(a: V3, b: V3) -> V3 {
    V3 { x: fsub(a.x, b.x), y: fsub(a.y, b.y), z: fsub(a.z, b.z) }
}

pub open spec fn vneg(a: V3) -> V3 {
    V3 { x: fneg(a.x), y: fneg(a.y), z: fneg(a.z) }
}

/// Componentwise product, used for color tinting.
pub open spec fn vmul(a: V3, b: V3) -> V3 {
    V3 { x: fmul(a.x, b.x), y: fmul(a.y, b.y), z: fmul(a.z, b.z) }
}

/// Scalar multiple `k * a`.
pub open spec fn vscale(k: int, a: V3) -> V3 {
    V3 { x: fmul(k, a.x), y: fmul(k, a.y), z: fmul(k, a.z) }
}

/// Scalar division `a / k`.
pub open spec fn vdivs(a: V3, k: int) -> V3 {
    V3 { x: fdiv(a.x, k), y: fdiv(a.y, k), z: fdiv(a.z, k) }
}

pub open spec fn vdot(a: V3, b: V3) -> int {
    fadd(fadd(fmul(a.x, b.x), fmul(a.y, b.y)), fmul(a.z, b.z))
}

pub open spec fn vcross(a: V3, b: V3) -> V3 {
    V3 {
        x: fsub(fmul(a.y, b.z), fmul(a.z, b.y)),
        y: fsub(fmul(a.z, b.x), fmul(a.x, b.z)),
        z: fsub(fmul(a.x, b.y), fmul(a.y, b.x)),
    }
}

pub open spec fn vlen_sq(a: V3) -> int {
    fadd(fadd(fmul(a.x, a.x), fmul(a.y, a.y)), fmul(a.z, a.z))
}

pub open spec fn vlen(a: V3) -> int {
    fsqrt(vlen_sq(a))
}

pub open spec fn vunit(a: V3) -> V3 {
    vdivs(a, vlen(a))
}

/// Guards against degenerate scatter directions. At this fixed-point
/// resolution a near-zero threshold of `1e-8` lies below one unit in the
/// last place, so a vector is near zero exactly when it is the zero
/// vector.
pub open spec fn vnear_zero(a: V3) -> bool {
    a.x == 0 && a.y == 0 && a.z == 0
}

/// Mirror reflection of `v` about the unit normal `n`.
pub open spec fn vreflect(v: V3, n: V3) -> V3 {
    vsub(v, vscale(fmul(2 * SCALE as int, vdot(v, n)), n))
}

/// Refraction of the unit vector `v` at a surface with unit normal `n` and
/// refraction ratio `eta`, by perpendicular/parallel decomposition.
pub open spec fn vrefract(v: V3, n: V3, eta: int) -> V3 {
    let cos_theta = fneg(fmin(vdot(v, n), SCALE as int));
    let r_out_perp = vscale(eta, vadd(v, vscale(cos_theta, n)));
    let r_out_para = vscale(fneg(fsqrt(fabs(fsub(SCALE as int, vlen_sq(r_out_perp))))), n);
    vadd(r_out_perp, r_out_para)
}

/// One 8-bit channel of the gamma-2 encoding: square root, clamp to just
/// under one, scale to `[0, 255]`.
pub open spec fn channel_byte(c: int) -> u8 {
    ((fclamp(fsqrt(c), 0, 65470) * 256) / (SCALE as int)) as u8
}

/// A color as four bytes: gamma-corrected red, green, blue, opaque alpha.
pub open spec fn vrgba(c: V3) -> Seq<u8> {
    seq![channel_byte(c.x), channel_byte(c.y), channel_byte(c.z), 255u8]
}

impl Vec3 {
    /// Build a vector from raw fixed-point coordinates, clamped into the
    /// symmetric representable range.
    pub fn new(x: i64, y: i64, z: i64) -> (r: Self)
        ensures
            r@ == (V3 { x: sat(x as int), y: sat(y as int), z: sat(z as int) }),
            vwf(r@),
    {
        Vec3 { x: norm(x), y: norm(y), z: norm(z) }
    }

    pub fn x(&self) -> (r: i64)
        ensures
            r as int == self@.x,
    {
        self.x
    }

    pub fn y(&self) -> (r: i64)
        ensures
            r as int == self@.y,
    {
        self.y
    }

    pub fn z(&self) -> (r: i64)
        ensures
            r as int == self@.z,
    {
        self.z
    }

    pub fn add(self, rhs: Self) -> (r: Self)
        ensures
            r@ == vadd(self@, rhs@),
            vwf(r@),
    {
        Vec3 { x: add_fx(self.x, rhs.x), y: add_fx(self.y, rhs.y), z: add_fx(self.z, rhs.z) }
    }

    pub fn sub(self, rhs: Self) -> (r: Self)
        ensures
            r@ == vsub(self@, rhs@),
            vwf(r@),
    {
        Vec3 { x: sub_fx(self.x, rhs.x), y: sub_fx(self.y, rhs.y), z: sub_fx(self.z, rhs.z) }
    }

    pub fn neg(self) -> (r: Self)
        ensures
            r@ == vneg(self@),
            vwf(r@),
    {
        Vec3 { x: neg_fx(self.x), y: neg_fx(self.y), z: neg_fx(self.z) }
    }

    /// Componentwise product, used for color tinting.
    pub fn mul(self, rhs: Self) -> (r: Self)
        ensures
            r@ == vmul(self@, rhs@),
            vwf(r@),
    {
        Vec3 { x: mul_fx(self.x, rhs.x), y: mul_fx(self.y, rhs.y), z: mul_fx(self.z, rhs.z) }
    }

    /// Scalar multiple `k * self`.
    pub fn scale(self, k: i64) -> (r: Self)
        ensures
            r@ == vscale(k as int, self@),
            vwf(r@),
    {
        Vec3 { x: mul_fx(k, self.x), y: mul_fx(k, self.y), z: mul_fx(k, self.z) }
    }

    /// Scalar division `self / k`; a zero divisor yields the zero vector.
    pub fn div(self, k: i64) -> (r: Self)
        ensures
            r@ == vdivs(self@, k as int),
            vwf(r@),
    {
        Vec3 { x: div_fx(self.x, k), y: div_fx(self.y, k), z: div_fx(self.z, k) }
    }

    pub fn dot(&self, rhs: Self) -> (r: i64)
        ensures
            r as int == vdot(self@, rhs@),
    {
        add_fx(add_fx(mul_fx(self.x, rhs.x), mul_fx(self.y, rhs.y)), mul_fx(self.z, rhs.z))
    }

    pub fn cross(&self, rhs: Self) -> (r: Self)
        ensures
            r@ == vcross(self@, rhs@),
            vwf(r@),
    {
        Vec3 {
            x: sub_fx(mul_fx(self.y, rhs.z), mul_fx(self.z, rhs.y)),
            y: sub_fx(mul_fx(self.z, rhs.x), mul_fx(self.x, rhs.z)),
            z: sub_fx(mul_fx(self.x, rhs.y), mul_fx(self.y, rhs.x)),
        }
    }

    pub fn length_squared(&self) -> (r: i64)
        ensures
            r as int == vlen_sq(self@),
    {
        add_fx(add_fx(mul_fx(self.x, self.x), mul_fx(self.y, self.y)), mul_fx(self.z, self.z))
    }

    pub fn length(&self) -> (r: i64)
        ensures
            r as int == vlen(self@),
    {
        sqrt_fx(self.length_squared())
    }

    /// The unit vector with `self`'s direction; a zero-length input yields
    /// the zero vector (the degenerate-geometry fallback).
    pub fn unit(&self) -> (r: Self)
        ensures
            r@ == vunit(self@),
            vwf(r@),
    {
        self.div(self.length())
    }

    pub fn near_zero(&self) -> (r: bool)
        ensures
            r == vnear_zero(self@),
    {
        self.x == 0 && self.y == 0 && self.z == 0
    }

    pub fn reflect(self, n: Self) -> (r: Self)
        ensures
            r@ == vreflect(self@, n@),
            vwf(r@),
    {
        self.sub(n.scale(mul_fx(2 * SCALE, self.dot(n))))
    }

    pub fn refract(self, n: Self, etai_over_etat: i64) -> (r: Self)
        ensures
            r@ == vrefract(self@, n@, etai_over_etat as int),
            vwf(r@),
    {
        let cos_theta = neg_fx(min_fx(self.dot(n), SCALE));
        let r_out_perp = self.add(n.scale(cos_theta)).scale(etai_over_etat);
        let r_out_para = n.scale(neg_fx(sqrt_fx(abs_fx(sub_fx(SCALE, r_out_perp.length_squared())))));
        r_out_perp.add(r_out_para)
    }

    /// Each coordinate drawn independently and uniformly from `[min, max)`.
    pub fn random(rng: &mut rand::rngs::SmallRng, min: i64, max: i64) -> (r: Self)
        requires
            -i64::MAX <= min < max,
        ensures
            min <= r@.x < max,
            min <= r@.y < max,
            min <= r@.z < max,
            vwf(r@),
    {
        Vec3::new(
            gen_range_i64(rng, min, max),
            gen_range_i64(rng, min, max),
            gen_range_i64(rng, min, max),
        )
    }

    /// Rejection-sample a point strictly inside the unit sphere. After a
    /// bounded number of failed draws the origin is returned: a valid
    /// sample, so the function stays total.
    pub fn random_in_unit_sphere(rng: &mut rand::rngs::SmallRng) -> (r: Self)
        ensures
            vlen_sq(r@) < SCALE,
            vwf(r@),
    {
        let mut tries: u32 = 0;
        while tries < 64
            invariant
                true,
            decreases 64 - tries,
        {
            let p = Vec3::random(rng, -SCALE, SCALE);
            if p.length_squared() < SCALE {
                return p;
            }
            tries = tries + 1;
        }
        Vec3::new(0, 0, 0)
    }

    /// Rejection-sample a point strictly inside the unit disk in the
    /// `z == 0` plane, for lens-aperture sampling.
    pub fn random_in_unit_disk(rng: &mut rand::rngs::SmallRng) -> (r: Self)
        ensures
            vlen_sq(r@) < SCALE,
            r@.z == 0,
            vwf(r@),
    {
        let mut tries: u32 = 0;
        while tries < 64
            invariant
                true,
            decreases 64 - tries,
        {
            let p = Vec3::new(
                gen_range_i64(rng, -SCALE, SCALE),
                gen_range_i64(rng, -SCALE, SCALE),
                0,
            );
            if p.length_squared() < SCALE {
                return p;
            }
            tries = tries + 1;
        }
        Vec3::new(0, 0, 0)
    }

    /// The unit vector of a uniform sample from the unit sphere.
    pub fn random_unit_vector(rng: &mut rand::rngs::SmallRng) -> (r: Self)
        ensures
            exists|p: V3| vlen_sq(p) < SCALE && r@ == vunit(p),
            vwf(r@),
    {
        let p = Vec3::random_in_unit_sphere(rng);
        let u = p.unit();
        proof {
            assert(vlen_sq(p@) < SCALE && u@ == vunit(p@));
        }
        u
    }

    /// Encode as four 8-bit channels with gamma-2 correction and opaque
    /// alpha.
    pub fn to_rgba(&self) -> (r: Vec<u8>)
        ensures
            r@ == vrgba(self@),
    {
        let mut out: Vec<u8> = Vec::new();
        out.push(channel_byte_fx(self.x));
        out.push(channel_byte_fx(self.y));
        out.push(channel_byte_fx(self.z));
        out.push(255);
        proof {
            assert(out@ =~= vrgba(self@));
        }
        out
    }
}

impl Default for Vec3 {
    /// The zero vector.
    fn default() -> (r: Self)
        ensures
            r@ == (V3 { x: 0, y: 0, z: 0 }),
    {
        Vec3 { x: 0, y: 0, z: 0 }
    }
}

/// Clamp a raw coordinate into the symmetric representable range.
fn norm(v: i64) -> (r: i64)
    ensures
        r as int == sat(v as int),
{
    if v == i64::MIN {
        -i64::MAX
    } else {
        v
    }
}

/// One encoded channel.
fn channel_byte_fx(c: i64) -> (r: u8)
    ensures
        r == channel_byte(c as int),
{
    let s = clamp_fx(sqrt_fx(c), 0, 65470);
    ((s as u64 * 256) / 65536) as u8
}

/// A vector's squared length is its dot product with itself.
pub proof fn lemma_length_squared_is_self_dot(a: V3)
    ensures
        vlen_sq(a) == vdot(a, a),
{
}

proof fn lemma_fmul_sq_nonneg(x: int)
    ensures
        fmul(x, x) >= 0,
{
    assert(x * x >= 0) by (nonlinear_arith);
}

/// A squared length is never negative.
pub proof fn lemma_vlen_sq_nonneg(a: V3)
    ensures
        vlen_sq(a) >= 0,
{
    lemma_fmul_sq_nonneg(a.x);
    lemma_fmul_sq_nonneg(a.y);
    lemma_fmul_sq_nonneg(a.z);
}

/// A vector with some coordinate of magnitude at least one unit is itself
/// at least one unit long.
pub proof fn lemma_vlen_unit_lower(v: V3)
    requires
        iabs(v.x) >= SCALE || iabs(v.y) >= SCALE || iabs(v.z) >= SCALE,
    ensures
        vlen(v) >= SCALE,
{
    lemma_fmul_sq_nonneg(v.x);
    lemma_fmul_sq_nonneg(v.y);
    lemma_fmul_sq_nonneg(v.z);
    if iabs(v.x) >= SCALE {
        lemma_fmul_sq_ge_unit(v.x);
    } else if iabs(v.y) >= SCALE {
        lemma_fmul_sq_ge_unit(v.y);
    } else {
        lemma_fmul_sq_ge_unit(v.z);
    }
    let q = vlen_sq(v);
    assert(q >= SCALE);
    assert(65536 * 65536 == 4294967296 && (65536 + 1) * (65536 + 1) == 4295098369)
        by (nonlinear_arith);
    crate::fixed::lemma_isqrt_unique((65536 * 65536) as nat, 65536nat);
    assert(q * (SCALE as int) >= 65536 * 65536);
    crate::fixed::lemma_isqrt_mono((65536 * 65536) as nat, (q * SCALE) as nat);
}

/// The square of a coordinate of magnitude at least one unit is at least
/// one unit.
proof fn lemma_fmul_sq_ge_unit(c: int)
    requires
        iabs(c) >= SCALE,
    ensures
        fmul(c, c) >= SCALE,
{
    assert(c * c >= 65536 * 65536) by (nonlinear_arith)
        requires iabs(c) >= 65536;
    vstd::arithmetic::div_mod::lemma_div_is_ordered(65536int * 65536, c * c, SCALE as int);
    vstd::arithmetic::div_mod::lemma_div_multiples_vanish(65536int, SCALE as int);
}

/// Tinting preserves the unit range: a componentwise product of colors
/// with channels in `[0, 1]` has channels in `[0, 1]`.
pub proof fn lemma_vmul_unit_range(a: V3, b: V3)
    requires
        0 <= a.x <= SCALE,
        0 <= a.y <= SCALE,
        0 <= a.z <= SCALE,
        0 <= b.x <= SCALE,
        0 <= b.y <= SCALE,
        0 <= b.z <= SCALE,
    ensures
        0 <= vmul(a, b).x <= SCALE,
        0 <= vmul(a, b).y <= SCALE,
        0 <= vmul(a, b).z <= SCALE,
{
    lemma_fmul_le(a.x, b.x);
    lemma_fmul_le(a.y, b.y);
    lemma_fmul_le(a.z, b.z);
}

proof fn lemma_fmul_comm(a: int, b: int)
    ensures
        fmul(a, b) == fmul(b, a),
{
    assert(a * b == b * a) by (nonlinear_arith);
}

/// The cross product is antisymmetric: swapping the arguments negates it.
pub proof fn lemma_cross_antisymmetric(a: V3, b: V3)
    ensures
        vcross(a, b) == vneg(vcross(b, a)),
{
    lemma_fmul_comm(a.x, b.y);
    lemma_fmul_comm(a.x, b.z);
    lemma_fmul_comm(a.y, b.x);
    lemma_fmul_comm(a.y, b.z);
    lemma_fmul_comm(a.z, b.x);
    lemma_fmul_comm(a.z, b.y);
}

/// Encoding full white yields fully saturated opaque bytes.
pub proof fn lemma_rgba_white()
    ensures
        vrgba(V3 { x: SCALE as int, y: SCALE as int, z: SCALE as int })
            == seq![255u8, 255u8, 255u8, 255u8],
{
    assert(65536 * 65536 == 4294967296 && (65536 + 1) * (65536 + 1) == 4295098369)
        by (nonlinear_arith);
    crate::fixed::lemma_isqrt_unique((65536 * 65536) as nat, 65536nat);
    assert(channel_byte(SCALE as int) == 255);
    assert(vrgba(V3 { x: SCALE as int, y: SCALE as int, z: SCALE as int })
        =~= seq![255u8, 255u8, 255u8, 255u8]);
}

/// Encoding black yields zero color channels and opaque alpha.
pub proof fn lemma_rgba_black()
    ensures
        vrgba(V3 { x: 0, y: 0, z: 0 }) == seq![0u8, 0u8, 0u8, 255u8],
{
    assert(channel_byte(0) == 0);
    assert(vrgba(V3 { x: 0, y: 0, z: 0 }) =~= seq![0u8, 0u8, 0u8, 255u8]);
}

} // verus!
