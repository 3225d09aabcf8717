//! Spheres and their ray-intersection rule.

use vstd::prelude::*;
use crate::fixed::{fadd, fsub, fneg, fmul, fdiv, fsqrt};
use crate::fixed::{SCALE, fadd_s, fsub_s, fneg_s, fmul_s, fdiv_s, fsqrt_s, tdiv_s};
use crate::vec3::{V3, Vec3, vsub_s, vneg_s, vdiv_s, length_squared_s, dot_s, dot, unit_vector};
use crate::ray::{Ray, RayS, at_s};
use crate::hittable::{HitRecord, HitS, hit_opt_s};

verus! {

/// The mathematical model of a sphere: center, radius, material index.
pub ghost struct SphereS {
    pub center: V3,
    pub radius: int,
    pub mat: int,
}

/// A sphere.  `mat` is the arena index of its material in the scene's
/// material list; many spheres may share one index.  The radius may be
/// very large to model a ground plane.
#[derive(Clone, Copy, Debug)]
pub struct Sphere {
    pub center: Vec3,
    pub radius: i64,
    pub mat: usize,
}

impl View for Sphere {
    type V = SphereS;

    open spec fn view(&self) -> SphereS {
        SphereS { center: self.center@, radius: self.radius as int, mat: self.mat as int }
    }
}

/// Ray/sphere intersection over the quadratic
/// `|direction|^2 t^2 + 2 half_b t + c`: no hit when the discriminant is
/// negative; otherwise the near root `(-half_b - sqrt(d)) / a` is tried
/// first, the far root only if the near one falls outside `[t_min, t_max]`,
/// and the hit's normal is stored flipped to oppose the incoming ray.
pub open spec fn sphere_hit_s(sp: SphereS, r: RayS, t_min: int, t_max: int) -> Option<HitS> {
    let oc = vsub_s(r.origin, sp.center);
    let a = length_squared_s(r.direction);
    let half_b = dot_s(oc, r.direction);
    let c = fsub_s(length_squared_s(oc), fmul_s(sp.radius, sp.radius));
    let discriminant = fsub_s(fmul_s(half_b, half_b), fmul_s(a, c));
    if discriminant < 0 {
        None
    } else {
        let sqrtd = fsqrt_s(discriminant);
        let near = fdiv_s(fsub_s(fneg_s(half_b), sqrtd), a);
        let far = fdiv_s(fadd_s(fneg_s(half_b), sqrtd), a);
        let root = if near < t_min || t_max < near { far } else { near };
        if root < t_min || t_max < root {
            None
        } else {
            let p = at_s(r, root);
            let outward_normal = vdiv_s(vsub_s(p, sp.center), sp.radius);
            let front_face = dot_s(r.direction, outward_normal) < 0;
            Some(HitS {
                p,
                normal: if front_face { outward_normal } else { vneg_s(outward_normal) },
                mat: sp.mat,
                t: root,
                front_face,
            })
        }
    }
}

/// The candidate roots are ordered: with a non-negative square root and
/// a positive quadratic coefficient, the root tried first is never
/// beyond the other, so the tie-break below accepts the nearest root in
/// range.
pub proof fn lemma_roots_ordered(half_b: int, sqrtd: int, a: int)
    requires
        sqrtd >= 0,
        a > 0,
    ensures
        fdiv_s(fsub_s(fneg_s(half_b), sqrtd), a) <= fdiv_s(fadd_s(fneg_s(half_b), sqrtd), a),
{
    crate::fixed::lemma_fdiv_monotone(
        fsub_s(fneg_s(half_b), sqrtd),
        fadd_s(fneg_s(half_b), sqrtd),
        a,
    );
}

/// The core of the inside-origin rule, over the quadratic's fixed-point
/// values: when `c` is non-positive (the ray origin at or inside the
/// surface), the direction is not degenerate and `half_b` is within the
/// scene scale, the near root falls below the integrator's
/// self-intersection guard.  The slack constants absorb the truncation
/// of the squared terms and of the integer square root.
proof fn lemma_near_root_below_guard(half_b: int, a: int, c: int, t_min: int)
    requires
        c <= 0,
        a >= 32_000_000,
        half_b >= -9_000_000_000_000,
        t_min >= 1_000_000,
    ensures
        ({
            let discriminant = fsub_s(fmul_s(half_b, half_b), fmul_s(a, c));
            let sqrtd = fsqrt_s(discriminant);
            fdiv_s(fsub_s(fneg_s(half_b), sqrtd), a) < t_min
        }),
{
    let sc = SCALE as int;
    let mhb = fmul_s(half_b, half_b);
    let mac = fmul_s(a, c);
    let disc = fsub_s(mhb, mac);
    let sqrtd = fsqrt_s(disc);

    // The squared term is non-negative; the mixed term is non-positive;
    // so the discriminant is at least the squared term.
    assert(half_b * half_b >= 0) by (nonlinear_arith);
    vstd::arithmetic::div_mod::lemma_div_pos_is_pos(half_b * half_b, sc);
    assert(mhb >= 0);
    assert(a * c <= 0) by (nonlinear_arith)
        requires
            a >= 0,
            c <= 0;
    if a * c < 0 {
        vstd::arithmetic::div_mod::lemma_div_pos_is_pos(-(a * c), sc);
    } else {
        vstd::arithmetic::div_mod::lemma_div_pos_is_pos(a * c, sc);
    }
    assert(mac <= 0);
    assert(disc >= mhb);
    assert(sqrtd >= 0);

    if half_b >= 0 {
        // The near numerator is non-positive, so the near root is too.
        let near_num = fsub_s(fneg_s(half_b), sqrtd);
        assert(near_num <= 0);
        crate::fixed::lemma_tdiv_monotone(near_num * sc, 0, a);
        vstd::arithmetic::div_mod::lemma_div_of0(a);
        assert(fdiv_s(near_num, a) <= 0);
    } else {
        let m = -half_b;
        assert(0 < m <= 9_000_000_000_000);
        assert(fneg_s(half_b) == m);
        assert(half_b * half_b == m * m) by (nonlinear_arith)
            requires
                m == -half_b;

        // sqrtd >= m - 31625: the integer square root of the truncated
        // square loses at most that much.
        if m > 31625 && sqrtd + 1 <= m - 31625 {
            // mhb is the exact truncated square (no saturation at this
            // magnitude), so mhb * SCALE > half_b^2 - SCALE.
            vstd::arithmetic::div_mod::lemma_fundamental_div_mod(half_b * half_b, sc);
            vstd::arithmetic::div_mod::lemma_mod_bound(half_b * half_b, sc);
            assert(half_b * half_b <= 81_000_000_000_000_000_000_000_000) by (nonlinear_arith)
                requires
                    -9_000_000_000_000 <= half_b <= 0;
            vstd::arithmetic::div_mod::lemma_div_is_ordered(
                half_b * half_b,
                81_000_000_000_000_000_000_000_000,
                sc,
            );
            assert(mhb == (half_b * half_b) / sc);
            assert(mhb * sc > half_b * half_b - sc) by (nonlinear_arith)
                requires
                    half_b * half_b == sc * ((half_b * half_b) / sc) + (half_b * half_b) % sc,
                    mhb == (half_b * half_b) / sc,
                    0 <= (half_b * half_b) % sc < sc;
            assert(disc * sc >= mhb * sc) by (nonlinear_arith)
                requires
                    disc >= mhb,
                    sc > 0;
            assert(disc > 0) by (nonlinear_arith)
                requires
                    mhb * sc > half_b * half_b - sc,
                    half_b * half_b == m * m,
                    m > 31625,
                    sc == 1_000_000_000,
                    disc >= mhb;
            // The integer square root's characterization.
            crate::fixed::lemma_fsqrt_bounds(disc);
            assert((sqrtd + 1) * (sqrtd + 1) > disc * sc);
            assert((sqrtd + 1) * (sqrtd + 1) <= (m - 31625) * (m - 31625)) by (nonlinear_arith)
                requires
                    0 <= sqrtd + 1 <= m - 31625;
            assert((m - 31625) * (m - 31625) <= m * m - sc) by (nonlinear_arith)
                requires
                    m > 31625,
                    sc == 1_000_000_000;
            assert(disc * sc > m * m - sc) by (nonlinear_arith)
                requires
                    disc * sc >= mhb * sc,
                    mhb * sc > half_b * half_b - sc,
                    half_b * half_b == m * m;
            assert(false);
        }
        assert(m - sqrtd <= 31625);

        // So the near numerator is at most 31625 units, and dividing by
        // a direction of squared length at least 0.032 keeps the near
        // root below 0.001.
        let near_num = fsub_s(m, sqrtd);
        assert(near_num <= 31625);
        crate::fixed::lemma_fdiv_monotone(near_num, 31625, a);
        vstd::arithmetic::div_mod::lemma_div_pos_is_pos(31_625_000_000_000, a);
        vstd::arithmetic::div_mod::lemma_div_is_ordered_by_denominator(
            31_625_000_000_000,
            32_000_000,
            a,
        );
        assert(tdiv_s(31_625_000_000_000, a) == 31_625_000_000_000int / a);
        assert(31_625_000_000_000int / 32_000_000int == 988_281);
        assert(fdiv_s(31625, a) <= 988_281);
    }
}

/// A ray that starts at or inside the surface rejects the near root:
/// under the magnitude bounds of the fixed-point arithmetic (a direction
/// of squared length at least 0.032, `half_b` at least -9000, the
/// integrator's guard of at least 0.001 as the lower range bound), the
/// near root falls below `t_min`, so the accepted root, if any, is the
/// far one.
pub proof fn lemma_inside_origin_takes_far_root(sp: SphereS, r: RayS, t_min: int, t_max: int)
    requires
        fsub_s(
            length_squared_s(vsub_s(r.origin, sp.center)),
            fmul_s(sp.radius, sp.radius),
        ) <= 0,
        length_squared_s(r.direction) >= 32_000_000,
        dot_s(vsub_s(r.origin, sp.center), r.direction) >= -9_000_000_000_000,
        t_min >= 1_000_000,
    ensures
        ({
            let oc = vsub_s(r.origin, sp.center);
            let a = length_squared_s(r.direction);
            let half_b = dot_s(oc, r.direction);
            let c = fsub_s(length_squared_s(oc), fmul_s(sp.radius, sp.radius));
            let discriminant = fsub_s(fmul_s(half_b, half_b), fmul_s(a, c));
            let sqrtd = fsqrt_s(discriminant);
            let far = fdiv_s(fadd_s(fneg_s(half_b), sqrtd), a);
            &&& fdiv_s(fsub_s(fneg_s(half_b), sqrtd), a) < t_min
            &&& (sphere_hit_s(sp, r, t_min, t_max) matches Some(h) ==> h.t == far)
        }),
{
    let oc = vsub_s(r.origin, sp.center);
    let a = length_squared_s(r.direction);
    let half_b = dot_s(oc, r.direction);
    let c = fsub_s(length_squared_s(oc), fmul_s(sp.radius, sp.radius));
    lemma_near_root_below_guard(half_b, a, c, t_min);
}

/// The nearest-valid-root tie-break: with a non-negative discriminant,
/// the near root is accepted when it lies in `[t_min, t_max]`; otherwise
/// the far root is accepted when it lies there; otherwise there is no
/// hit.
pub proof fn lemma_nearest_root_tie_break(sp: SphereS, r: RayS, t_min: int, t_max: int)
    ensures
        ({
            let oc = vsub_s(r.origin, sp.center);
            let a = length_squared_s(r.direction);
            let half_b = dot_s(oc, r.direction);
            let c = fsub_s(length_squared_s(oc), fmul_s(sp.radius, sp.radius));
            let discriminant = fsub_s(fmul_s(half_b, half_b), fmul_s(a, c));
            let sqrtd = fsqrt_s(discriminant);
            let near = fdiv_s(fsub_s(fneg_s(half_b), sqrtd), a);
            let far = fdiv_s(fadd_s(fneg_s(half_b), sqrtd), a);
            discriminant >= 0 ==> {
                &&& (t_min <= near <= t_max ==> (sphere_hit_s(sp, r, t_min, t_max) matches Some(h)
                    && h.t == near))
                &&& (!(t_min <= near <= t_max) && t_min <= far <= t_max ==> (sphere_hit_s(
                    sp,
                    r,
                    t_min,
                    t_max,
                ) matches Some(h)
                    && h.t == far))
                &&& (!(t_min <= near <= t_max) && !(t_min <= far <= t_max) ==> sphere_hit_s(
                    sp,
                    r,
                    t_min,
                    t_max,
                ) is None)
            }
        }),
{
}

impl Sphere {
    /// The sphere with the given center, radius and material index.
    pub fn from(center: Vec3, radius: i64, mat: usize) -> (r: Self)
        ensures
            r@ == (SphereS { center: center@, radius: radius as int, mat: mat as int }),
    {
        Self { center, radius, mat }
    }

    /// Intersect a ray over the range `[t_min, t_max]`, accepting the
    /// nearest root inside the range.
    pub fn hit(&self, r: &Ray, t_min: i64, t_max: i64) -> (res: Option<HitRecord>)
        ensures
            hit_opt_s(res) == sphere_hit_s(self@, r@, t_min as int, t_max as int),
            res matches Some(h) ==> h.mat == self.mat,
    {
        let oc = r.origin.sub(&self.center);
        let a = r.direction.length_squared();
        let half_b = dot(&oc, &r.direction);
        let c = fsub(oc.length_squared(), fmul(self.radius, self.radius));

        let discriminant = fsub(fmul(half_b, half_b), fmul(a, c));
        if discriminant < 0 {
            return None;
        }
        let sqrtd = fsqrt(discriminant);

        // Find the nearest root that lies in the acceptable range.
        let mut root = fdiv(fsub(fneg(half_b), sqrtd), a);
        if root < t_min || t_max < root {
            root = fdiv(fadd(fneg(half_b), sqrtd), a);
            if root < t_min || t_max < root {
                return None;
            }
        }

        let p = r.at(root);
        let outward_normal = p.sub(&self.center).div(self.radius);
        let front_face = dot(&r.direction, &outward_normal) < 0;

        Some(HitRecord {
            t: root,
            p,
            mat: self.mat,
            front_face,
            normal: if front_face { outward_normal } else { outward_normal.neg() },
        })
    }
}

} // verus!
