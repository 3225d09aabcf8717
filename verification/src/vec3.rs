//! 3-component fixed-point vectors, used for points, directions and colors.
//!
//! Every executable operation mirrors a spec function over the ghost model
//! `V3` (unbounded integers in fixed-point units), so callers know each
//! component exactly.  The formulas keep the evaluation order of the usual
//! textbook expressions, so truncation happens at the same places.

use vstd::prelude::*;
use crate::fixed::{
    SCALE, fadd_s, fsub_s, fneg_s, fmul_s, fdiv_s, fabs_s, fmin_s, fsqrt_s,
    fadd, fsub, fneg, fmul, fdiv, fabs, fmin, fsqrt,
};
use crate::rng::{Rng, next_state_s, range_from_s};

verus! {

/// The mathematical model of a vector: three fixed-point components.
pub ghost struct V3 {
    pub x: int,
    pub y: int,
    pub z: int,
}

/// A vector of three fixed-point scalars.
#[derive(Clone, Copy, Debug)]
pub struct Vec3 {
    pub x: i64,
    pub y: i64,
    pub z: i64,
}

impl View for Vec3 {
    type V = V3;

    open spec fn view(&self) -> V3 {
        V3 { x: self.x as int, y: self.y as int, z: self.z as int }
    }
}

/// Componentwise sum.
pub open spec fn vadd_s(a: V3, b: V3) -> V3 {
    V3 { x: fadd_s(a.x, b.x), y: fadd_s(a.y, b.y), z: fadd_s(a.z, b.z) }
}

/// Componentwise difference.
pub open spec fn vsub_s(a: V3, b: V3) -> V3 {
    V3 { x: fsub_s(a.x, b.x), y: fsub_s(a.y, b.y), z: fsub_s(a.z, b.z) }
}

/// Componentwise negation.
pub open spec fn vneg_s(a: V3) -> V3 {
    V3 { x: fneg_s(a.x), y: fneg_s(a.y), z: fneg_s(a.z) }
}

/// Componentwise product (color attenuation).
pub open spec fn vmul_s(a: V3, b: V3) -> V3 {
    V3 { x: fmul_s(a.x, b.x), y: fmul_s(a.y, b.y), z: fmul_s(a.z, b.z) }
}

/// Scaling by a scalar.
pub open spec fn vscale_s(a: V3, k: int) -> V3 {
    V3 { x: fmul_s(a.x, k), y: fmul_s(a.y, k), z: fmul_s(a.z, k) }
}

/// Division by a scalar, computed as multiplication by its reciprocal,
/// exactly as the original division operator does.
pub open spec fn vdiv_s(a: V3, k: int) -> V3 {
    vscale_s(a, fdiv_s(SCALE as int, k))
}

/// Dot product.
pub open spec fn dot_s(a: V3, b: V3) -> int {
    fadd_s(fadd_s(fmul_s(a.x, b.x), fmul_s(a.y, b.y)), fmul_s(a.z, b.z))
}

/// Cross product.
pub open spec fn cross_s(a: V3, b: V3) -> V3 {
    V3 {
        x: fsub_s(fmul_s(a.y, b.z), fmul_s(a.z, b.y)),
        y: fsub_s(fmul_s(a.z, b.x), fmul_s(a.x, b.z)),
        z: fsub_s(fmul_s(a.x, b.y), fmul_s(a.y, b.x)),
    }
}

/// Squared length.
pub open spec fn length_squared_s(a: V3) -> int {
    fadd_s(fadd_s(fmul_s(a.x, a.x), fmul_s(a.y, a.y)), fmul_s(a.z, a.z))
}

/// Length.
pub open spec fn length_s(a: V3) -> int {
    fsqrt_s(length_squared_s(a))
}

/// The vector scaled to length one (degenerate input saturates through
/// the total division, as the original's infinities do).
pub open spec fn unit_vector_s(a: V3) -> V3 {
    vdiv_s(a, length_s(a))
}

/// The degeneracy threshold 1e-8, in fixed-point units.
pub const NEAR_ZERO_EPS: i64 = 10;

/// True iff every component's magnitude is below 1e-8.
pub open spec fn near_zero_s(a: V3) -> bool {
    fabs_s(a.x) < NEAR_ZERO_EPS && fabs_s(a.y) < NEAR_ZERO_EPS && fabs_s(a.z) < NEAR_ZERO_EPS
}

/// Mirror reflection about a unit normal: `v - n * dot(v, n) * 2`.
pub open spec fn reflect_s(v: V3, n: V3) -> V3 {
    vsub_s(v, vscale_s(vscale_s(n, dot_s(v, n)), 2 * SCALE as int))
}

/// Snell's law in vector form: `cos_theta = min(dot(-uv, n), 1)`, the
/// perpendicular component `etai_over_etat * (uv + cos_theta * n)`, and
/// the parallel component `-sqrt(max(0, 1 - |perp|^2)) * n` (the square
/// root of a negative argument is zero by definition here, which is the
/// `max` with zero).
pub open spec fn refract_s(uv: V3, n: V3, etai_over_etat: int) -> V3 {
    let cos_theta = fmin_s(dot_s(vneg_s(uv), n), SCALE as int);
    let r_out_perp = vscale_s(vadd_s(uv, vscale_s(n, cos_theta)), etai_over_etat);
    let r_out_parallel = vscale_s(
        n,
        fneg_s(fsqrt_s(fsub_s(SCALE as int, length_squared_s(r_out_perp)))),
    );
    vadd_s(r_out_perp, r_out_parallel)
}

/// A vector of three uniform draws in `[min, max)`, in x, y, z order.
pub open spec fn random_v3_s(s: u64, min: int, max: int) -> (V3, u64) {
    let s1 = next_state_s(s);
    let s2 = next_state_s(s1);
    let s3 = next_state_s(s2);
    (
        V3 { x: range_from_s(s1, min, max), y: range_from_s(s2, min, max), z: range_from_s(s3, min, max) },
        s3,
    )
}

/// How many rejection-sampling draws are attempted before the sphere or
/// disk sample falls back to the (valid) center point.
pub const SAMPLE_TRIES: u64 = 32;

/// Rejection sampling in the unit sphere: draw a point with components in
/// `[0, 1)` until its squared length is below one; after the last allowed
/// try, fall back to the center.
pub open spec fn sphere_reject_s(s: u64, tries: nat) -> (V3, u64)
    decreases tries,
{
    if tries == 0 {
        (V3 { x: 0, y: 0, z: 0 }, s)
    } else {
        let (p, s1) = random_v3_s(s, 0, SCALE as int);
        if length_squared_s(p) >= SCALE as int {
            sphere_reject_s(s1, (tries - 1) as nat)
        } else {
            (p, s1)
        }
    }
}

/// A random point in the unit sphere.
pub open spec fn random_in_unit_sphere_s(s: u64) -> (V3, u64) {
    sphere_reject_s(s, SAMPLE_TRIES as nat)
}

/// A random direction of length one.
pub open spec fn random_unit_vector_s(s: u64) -> (V3, u64) {
    let (p, s1) = random_in_unit_sphere_s(s);
    (unit_vector_s(p), s1)
}

/// Rejection sampling in the unit disk (z fixed at zero), components in
/// `[-1, 1)`.
pub open spec fn disk_reject_s(s: u64, tries: nat) -> (V3, u64)
    decreases tries,
{
    if tries == 0 {
        (V3 { x: 0, y: 0, z: 0 }, s)
    } else {
        let s1 = next_state_s(s);
        let s2 = next_state_s(s1);
        let p = V3 {
            x: range_from_s(s1, -(SCALE as int), SCALE as int),
            y: range_from_s(s2, -(SCALE as int), SCALE as int),
            z: 0,
        };
        if length_squared_s(p) >= SCALE as int {
            disk_reject_s(s2, (tries - 1) as nat)
        } else {
            (p, s2)
        }
    }
}

/// A random point in the unit disk (for the thin-lens aperture).
pub open spec fn random_in_unit_disk_s(s: u64) -> (V3, u64) {
    disk_reject_s(s, SAMPLE_TRIES as nat)
}

impl Vec3 {
    /// The vector with the given components.
    pub fn from(x: i64, y: i64, z: i64) -> (r: Self)
        ensures
            r@ == (V3 { x: x as int, y: y as int, z: z as int }),
    {
        Self { x, y, z }
    }

    /// The zero vector.
    pub fn zero() -> (r: Self)
        ensures
            r@ == (V3 { x: 0, y: 0, z: 0 }),
    {
        Self { x: 0, y: 0, z: 0 }
    }

    /// Squared length.
    pub fn length_squared(&self) -> (r: i64)
        ensures
            r as int == length_squared_s(self@),
    {
        fadd(fadd(fmul(self.x, self.x), fmul(self.y, self.y)), fmul(self.z, self.z))
    }

    /// Length.
    pub fn length(&self) -> (r: i64)
        ensures
            r as int == length_s(self@),
    {
        fsqrt(self.length_squared())
    }

    /// A vector of three uniform draws in `[min, max)`.
    pub fn random(min: i64, max: i64, rng: &mut Rng) -> (r: Self)
        ensures
            (r@, final(rng).state) == random_v3_s(old(rng).state, min as int, max as int),
    {
        let x = rng.next_range(min, max);
        let y = rng.next_range(min, max);
        let z = rng.next_range(min, max);
        Self { x, y, z }
    }

    /// True iff every component's magnitude is below 1e-8.
    pub fn near_zero(&self) -> (r: bool)
        ensures
            r == near_zero_s(self@),
    {
        fabs(self.x) < NEAR_ZERO_EPS && fabs(self.y) < NEAR_ZERO_EPS
            && fabs(self.z) < NEAR_ZERO_EPS
    }

    /// Componentwise negation.
    pub fn neg(&self) -> (r: Self)
        ensures
            r@ == vneg_s(self@),
    {
        Self { x: fneg(self.x), y: fneg(self.y), z: fneg(self.z) }
    }

    /// Componentwise sum.
    pub fn add(&self, rhs: &Vec3) -> (r: Self)
        ensures
            r@ == vadd_s(self@, rhs@),
    {
        Self { x: fadd(self.x, rhs.x), y: fadd(self.y, rhs.y), z: fadd(self.z, rhs.z) }
    }

    /// Componentwise difference.
    pub fn sub(&self, rhs: &Vec3) -> (r: Self)
        ensures
            r@ == vsub_s(self@, rhs@),
    {
        Self { x: fsub(self.x, rhs.x), y: fsub(self.y, rhs.y), z: fsub(self.z, rhs.z) }
    }

    /// Componentwise product.
    pub fn mul(&self, rhs: &Vec3) -> (r: Self)
        ensures
            r@ == vmul_s(self@, rhs@),
    {
        Self { x: fmul(self.x, rhs.x), y: fmul(self.y, rhs.y), z: fmul(self.z, rhs.z) }
    }

    /// Scaling by a scalar.
    pub fn scale(&self, k: i64) -> (r: Self)
        ensures
            r@ == vscale_s(self@, k as int),
    {
        Self { x: fmul(self.x, k), y: fmul(self.y, k), z: fmul(self.z, k) }
    }

    /// Division by a scalar, as multiplication by its reciprocal.
    pub fn div(&self, k: i64) -> (r: Self)
        ensures
            r@ == vdiv_s(self@, k as int),
    {
        self.scale(fdiv(SCALE, k))
    }

    /// Add a vector in place.
    pub fn add_assign(&mut self, rhs: &Vec3)
        ensures
            final(self)@ == vadd_s(old(self)@, rhs@),
    {
        self.x = fadd(self.x, rhs.x);
        self.y = fadd(self.y, rhs.y);
        self.z = fadd(self.z, rhs.z);
    }

    /// Scale by a scalar in place.
    pub fn mul_assign(&mut self, k: i64)
        ensures
            final(self)@ == vscale_s(old(self)@, k as int),
    {
        self.x = fmul(self.x, k);
        self.y = fmul(self.y, k);
        self.z = fmul(self.z, k);
    }

    /// Divide by a scalar in place, as multiplication by its reciprocal.
    pub fn div_assign(&mut self, k: i64)
        ensures
            final(self)@ == vdiv_s(old(self)@, k as int),
    {
        self.mul_assign(fdiv(SCALE, k));
    }
}

/// Dot product.
pub fn dot(u: &Vec3, v: &Vec3) -> (r: i64)
    ensures
        r as int == dot_s(u@, v@),
{
    fadd(fadd(fmul(u.x, v.x), fmul(u.y, v.y)), fmul(u.z, v.z))
}

/// Cross product.
pub fn cross(u: &Vec3, v: &Vec3) -> (r: Vec3)
    ensures
        r@ == cross_s(u@, v@),
{
    Vec3 {
        x: fsub(fmul(u.y, v.z), fmul(u.z, v.y)),
        y: fsub(fmul(u.z, v.x), fmul(u.x, v.z)),
        z: fsub(fmul(u.x, v.y), fmul(u.y, v.x)),
    }
}

/// The vector scaled to length one.
pub fn unit_vector(v: &Vec3) -> (r: Vec3)
    ensures
        r@ == unit_vector_s(v@),
{
    v.div(v.length())
}

/// Mirror reflection about a unit normal.
pub fn reflect(v: &Vec3, n: &Vec3) -> (r: Vec3)
    ensures
        r@ == reflect_s(v@, n@),
{
    let d = dot(v, n);
    v.sub(&n.scale(d).scale(2 * SCALE))
}

/// Snell's law in vector form.
pub fn refract(uv: &Vec3, n: &Vec3, etai_over_etat: i64) -> (r: Vec3)
    ensures
        r@ == refract_s(uv@, n@, etai_over_etat as int),
{
    let cos_theta = fmin(dot(&uv.neg(), n), SCALE);
    let r_out_perp = uv.add(&n.scale(cos_theta)).scale(etai_over_etat);
    let r_out_parallel = n.scale(fneg(fsqrt(fsub(SCALE, r_out_perp.length_squared()))));
    r_out_perp.add(&r_out_parallel)
}

fn sphere_reject(rng: &mut Rng, tries: u64) -> (r: Vec3)
    ensures
        (r@, final(rng).state) == sphere_reject_s(old(rng).state, tries as nat),
    decreases tries,
{
    if tries == 0 {
        Vec3::zero()
    } else {
        let p = Vec3::random(0, SCALE, rng);
        if p.length_squared() >= SCALE {
            sphere_reject(rng, tries - 1)
        } else {
            p
        }
    }
}

/// A random point in the unit sphere, by rejection sampling.
pub fn random_in_unit_sphere(rng: &mut Rng) -> (r: Vec3)
    ensures
        (r@, final(rng).state) == random_in_unit_sphere_s(old(rng).state),
{
    sphere_reject(rng, SAMPLE_TRIES)
}

/// A random direction of length one.
pub fn random_unit_vector(rng: &mut Rng) -> (r: Vec3)
    ensures
        (r@, final(rng).state) == random_unit_vector_s(old(rng).state),
{
    let p = random_in_unit_sphere(rng);
    unit_vector(&p)
}

fn disk_reject(rng: &mut Rng, tries: u64) -> (r: Vec3)
    ensures
        (r@, final(rng).state) == disk_reject_s(old(rng).state, tries as nat),
    decreases tries,
{
    if tries == 0 {
        Vec3::zero()
    } else {
        let x = rng.next_range(-SCALE, SCALE);
        let y = rng.next_range(-SCALE, SCALE);
        let p = Vec3 { x, y, z: 0 };
        if p.length_squared() >= SCALE {
            disk_reject(rng, tries - 1)
        } else {
            p
        }
    }
}

/// A random point in the unit disk, by rejection sampling.
pub fn random_in_unit_disk(rng: &mut Rng) -> (r: Vec3)
    ensures
        (r@, final(rng).state) == random_in_unit_disk_s(old(rng).state),
{
    disk_reject(rng, SAMPLE_TRIES)
}

} // verus!
