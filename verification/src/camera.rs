//! The thin-lens camera: an orthonormal view basis derived once from the
//! look-at parameters, and per-sample primary rays whose origins are
//! jittered over the lens disk.

use vstd::prelude::*;
use crate::fixed::{SCALE, fmul_s, fdiv_s, fsub_s, fadd_s, fmul, fdiv, fsub, fadd};
use crate::vec3::{
    V3, Vec3, vadd_s, vsub_s, vscale_s, vdiv_s, cross_s, unit_vector_s, random_in_unit_disk_s,
    cross, unit_vector, random_in_unit_disk,
};
use crate::ray::{Ray, RayS};
use crate::rng::Rng;

verus! {

/// Radians per degree (pi / 180), in fixed-point units.
pub const RADIANS_PER_DEGREE: i64 = 17_453_293;

/// 2.0 in fixed-point units.
pub const TWO: i64 = 2_000_000_000;

/// Taylor polynomial for the sine, degree seven; ample for the half
/// field-of-view angles a camera is built with.
pub open spec fn sin_taylor_s(x: int) -> int {
    let x2 = fmul_s(x, x);
    let x3 = fmul_s(x2, x);
    let x5 = fmul_s(x3, x2);
    let x7 = fmul_s(x5, x2);
    fsub_s(
        fadd_s(fsub_s(x, fdiv_s(x3, 6 * SCALE as int)), fdiv_s(x5, 120 * SCALE as int)),
        fdiv_s(x7, 5040 * SCALE as int),
    )
}

/// Taylor polynomial for the cosine, degree eight.
pub open spec fn cos_taylor_s(x: int) -> int {
    let x2 = fmul_s(x, x);
    let x4 = fmul_s(x2, x2);
    let x6 = fmul_s(x4, x2);
    let x8 = fmul_s(x4, x4);
    fadd_s(
        fsub_s(
            fadd_s(fsub_s(SCALE as int, fdiv_s(x2, 2 * SCALE as int)), fdiv_s(x4, 24 * SCALE as int)),
            fdiv_s(x6, 720 * SCALE as int),
        ),
        fdiv_s(x8, 40320 * SCALE as int),
    )
}

/// Tangent as the ratio of the two Taylor polynomials.
pub open spec fn tan_taylor_s(x: int) -> int {
    fdiv_s(sin_taylor_s(x), cos_taylor_s(x))
}

fn sin_taylor(x: i64) -> (r: i64)
    ensures
        r as int == sin_taylor_s(x as int),
{
    let x2 = fmul(x, x);
    let x3 = fmul(x2, x);
    let x5 = fmul(x3, x2);
    let x7 = fmul(x5, x2);
    fsub(
        fadd(fsub(x, fdiv(x3, 6 * SCALE)), fdiv(x5, 120 * SCALE)),
        fdiv(x7, 5040 * SCALE),
    )
}

fn cos_taylor(x: i64) -> (r: i64)
    ensures
        r as int == cos_taylor_s(x as int),
{
    let x2 = fmul(x, x);
    let x4 = fmul(x2, x2);
    let x6 = fmul(x4, x2);
    let x8 = fmul(x4, x4);
    fadd(
        fsub(fadd(fsub(SCALE, fdiv(x2, 2 * SCALE)), fdiv(x4, 24 * SCALE)), fdiv(x6, 720 * SCALE)),
        fdiv(x8, 40320 * SCALE),
    )
}

fn tan_taylor(x: i64) -> (r: i64)
    ensures
        r as int == tan_taylor_s(x as int),
{
    fdiv(sin_taylor(x), cos_taylor(x))
}

/// The mathematical model of a camera.
pub ghost struct CameraS {
    pub origin: V3,
    pub lower_left_corner: V3,
    pub horizontal: V3,
    pub vertical: V3,
    pub u: V3,
    pub v: V3,
    pub w: V3,
    pub lens_radius: int,
}

/// An immutable camera, derived once from the construction parameters
/// and never mutated.
pub struct Camera {
    pub origin: Vec3,
    pub lower_left_corner: Vec3,
    pub horizontal: Vec3,
    pub vertical: Vec3,
    pub u: Vec3,
    pub v: Vec3,
    pub w: Vec3,
    pub lens_radius: i64,
}

impl View for Camera {
    type V = CameraS;

    open spec fn view(&self) -> CameraS {
        CameraS {
            origin: self.origin@,
            lower_left_corner: self.lower_left_corner@,
            horizontal: self.horizontal@,
            vertical: self.vertical@,
            u: self.u@,
            v: self.v@,
            w: self.w@,
            lens_radius: self.lens_radius as int,
        }
    }
}

/// The camera the construction parameters derive: the orthonormal basis
/// `w = unit(lookfrom - lookat)`, `u = unit(vup x w)`, `v = w x u`; a
/// viewport of height `2 tan(vfov / 2)` scaled by the focus distance; and
/// a lens radius of half the aperture.
pub open spec fn camera_new_s(
    lookfrom: V3,
    lookat: V3,
    vup: V3,
    vfov: int,
    aspect_ratio: int,
    aperture: int,
    focus_dist: int,
) -> CameraS {
    let theta = fmul_s(vfov, RADIANS_PER_DEGREE as int);
    let h = tan_taylor_s(fdiv_s(theta, TWO as int));
    let viewport_height = fmul_s(TWO as int, h);
    let viewport_width = fmul_s(aspect_ratio, viewport_height);
    let w = unit_vector_s(vsub_s(lookfrom, lookat));
    let u = unit_vector_s(cross_s(vup, w));
    let v = cross_s(w, u);
    let horizontal = vscale_s(vscale_s(u, viewport_width), focus_dist);
    let vertical = vscale_s(vscale_s(v, viewport_height), focus_dist);
    let lower_left_corner = vsub_s(
        vsub_s(vsub_s(lookfrom, vdiv_s(horizontal, TWO as int)), vdiv_s(vertical, TWO as int)),
        vscale_s(w, focus_dist),
    );
    CameraS {
        origin: lookfrom,
        lower_left_corner,
        horizontal,
        vertical,
        u,
        v,
        w,
        lens_radius: fdiv_s(aperture, TWO as int),
    }
}

/// The primary ray for normalized image coordinates `(s, t)`: the origin
/// is offset by a random point on the lens disk scaled to the lens
/// radius, the direction aims at the viewport point.
pub open spec fn get_ray_s(c: CameraS, s_coord: int, t_coord: int, st: u64) -> (RayS, u64) {
    let (rd0, st1) = random_in_unit_disk_s(st);
    let rd = vscale_s(rd0, c.lens_radius);
    let offset = vadd_s(vscale_s(c.u, rd.x), vscale_s(c.v, rd.y));
    (
        RayS {
            origin: vadd_s(c.origin, offset),
            direction: vsub_s(
                vsub_s(
                    vadd_s(
                        vadd_s(c.lower_left_corner, vscale_s(c.horizontal, s_coord)),
                        vscale_s(c.vertical, t_coord),
                    ),
                    c.origin,
                ),
                offset,
            ),
        },
        st1,
    )
}

impl Camera {
    /// Derive the camera from look-from/look-at/up, the vertical field of
    /// view in degrees, the aspect ratio, the aperture and the focus
    /// distance.
    pub fn new(
        lookfrom: Vec3,
        lookat: Vec3,
        vup: Vec3,
        vfov: i64,
        aspect_ratio: i64,
        aperture: i64,
        focus_dist: i64,
    ) -> (r: Self)
        ensures
            r@ == camera_new_s(
                lookfrom@,
                lookat@,
                vup@,
                vfov as int,
                aspect_ratio as int,
                aperture as int,
                focus_dist as int,
            ),
    {
        let theta = fmul(vfov, RADIANS_PER_DEGREE);
        let h = tan_taylor(fdiv(theta, TWO));
        let viewport_height = fmul(TWO, h);
        let viewport_width = fmul(aspect_ratio, viewport_height);

        let w = unit_vector(&lookfrom.sub(&lookat));
        let u = unit_vector(&cross(&vup, &w));
        let v = cross(&w, &u);

        let origin = lookfrom;
        let horizontal = u.scale(viewport_width).scale(focus_dist);
        let vertical = v.scale(viewport_height).scale(focus_dist);
        let lower_left_corner = origin
            .sub(&horizontal.div(TWO))
            .sub(&vertical.div(TWO))
            .sub(&w.scale(focus_dist));

        let lens_radius = fdiv(aperture, TWO);

        Self { origin, lower_left_corner, horizontal, vertical, u, v, w, lens_radius }
    }

    /// The primary ray for normalized image coordinates `(s, t)`.
    pub fn get_ray(&self, s: i64, t: i64, rng: &mut Rng) -> (r: Ray)
        ensures
            (r@, final(rng).state) == get_ray_s(self@, s as int, t as int, old(rng).state),
    {
        let rd0 = random_in_unit_disk(rng);
        let rd = rd0.scale(self.lens_radius);
        let offset = self.u.scale(rd.x).add(&self.v.scale(rd.y));

        Ray {
            origin: self.origin.add(&offset),
            direction: self
                .lower_left_corner
                .add(&self.horizontal.scale(s))
                .add(&self.vertical.scale(t))
                .sub(&self.origin)
                .sub(&offset),
        }
    }
}

} // verus!
