//! The scattering capability and its three concrete models: Lambertian
//! diffuse, fuzzy metal, and Schlick-approximated dielectric.
//!
//! `scatter` yields the outgoing ray and the attenuation color, or
//! nothing when the ray is absorbed.  Each model's outcome is pinned down
//! exactly by a spec mirror over the incoming ray, the hit record and the
//! generator state.

use vstd::prelude::*;
use crate::fixed::{SCALE, fadd_s, fsub_s, fmul_s, fdiv_s, fmin_s, fsqrt_s};
use crate::fixed::{fadd, fsub, fmul, fdiv, fmin, fsqrt};
use crate::vec3::{
    V3, Vec3, vadd_s, vneg_s, vscale_s, near_zero_s, dot_s, reflect_s, refract_s,
    unit_vector_s, random_unit_vector_s, random_in_unit_sphere_s,
    dot, reflect, refract, unit_vector, random_unit_vector, random_in_unit_sphere,
};
use crate::ray::{Ray, RayS};
use crate::hittable::{HitRecord, HitS};
use crate::rng::{Rng, next_state_s, unit_from_s};

verus! {

/// The model of an optional scatter outcome.
pub open spec fn scatter_opt_s(o: Option<(Ray, Vec3)>) -> Option<(RayS, V3)> {
    match o {
        Some((r, att)) => Some((r@, att@)),
        None => None,
    }
}

/// A diffuse surface.
#[derive(Clone, Copy, Debug)]
pub struct Lambertian {
    pub albedo: Vec3,
}

/// A reflective surface; `fuzz` (clamped to at most one at construction)
/// broadens the reflection cone.
#[derive(Clone, Copy, Debug)]
pub struct Metal {
    pub albedo: Vec3,
    pub fuzz: i64,
}

/// A refractive surface with the given index of refraction.
#[derive(Clone, Copy, Debug)]
pub struct Dielectric {
    pub ir: i64,
}

/// The closed set of material variants.
#[derive(Clone, Copy, Debug)]
pub enum Material {
    Lambertian(Lambertian),
    Metal(Metal),
    Dielectric(Dielectric),
}

/// What a Lambertian surface scatters: direction `normal + random unit
/// vector`, with the normal substituted when that sum is degenerate;
/// attenuation is the albedo; the ray is never absorbed.
pub open spec fn lambertian_scatter_s(albedo: V3, rec: HitS, s: u64) -> ((RayS, V3), u64) {
    let (ruv, s1) = random_unit_vector_s(s);
    let d = vadd_s(rec.normal, ruv);
    let direction = if near_zero_s(d) { rec.normal } else { d };
    ((RayS { origin: rec.p, direction }, albedo), s1)
}

/// The direction a metal surface perturbs the mirror reflection into.
pub open spec fn metal_direction_s(fuzz: int, r_in: RayS, rec: HitS, s: u64) -> (V3, u64) {
    let reflected = reflect_s(unit_vector_s(r_in.direction), rec.normal);
    let (p, s1) = random_in_unit_sphere_s(s);
    (vadd_s(reflected, vscale_s(p, fuzz)), s1)
}

/// What a metal surface scatters: the perturbed reflection, kept only when
/// it points out of the surface, absorbed otherwise.
pub open spec fn metal_scatter_s(albedo: V3, fuzz: int, r_in: RayS, rec: HitS, s: u64) -> (
    Option<(RayS, V3)>,
    u64,
) {
    let (direction, s1) = metal_direction_s(fuzz, r_in, rec, s);
    if dot_s(direction, rec.normal) > 0 {
        (Some((RayS { origin: rec.p, direction }, albedo)), s1)
    } else {
        (None, s1)
    }
}

/// Schlick's reflectance approximation
/// `r0 + (1 - r0) * (1 - cosine)^5` with `r0 = ((1 - n) / (1 + n))^2`,
/// the fifth power taken by squaring.
pub open spec fn reflectance_s(cosine: int, ref_idx: int) -> int {
    let r0a = fdiv_s(fsub_s(SCALE as int, ref_idx), fadd_s(SCALE as int, ref_idx));
    let r0 = fmul_s(r0a, r0a);
    let m = fsub_s(SCALE as int, cosine);
    let m2 = fmul_s(m, m);
    let m4 = fmul_s(m2, m2);
    fadd_s(r0, fmul_s(fsub_s(SCALE as int, r0), fmul_s(m4, m)))
}

/// What a dielectric scatters: attenuation is opaque white; the direction
/// reflects on total internal reflection (no random draw is consumed then)
/// or when a uniform draw falls below the Schlick reflectance, and
/// refracts by Snell's law otherwise.
pub open spec fn dielectric_scatter_s(ir: int, r_in: RayS, rec: HitS, s: u64) -> ((RayS, V3), u64) {
    let attenuation = V3 { x: SCALE as int, y: SCALE as int, z: SCALE as int };
    let refraction_ratio = if rec.front_face { fdiv_s(SCALE as int, ir) } else { ir };
    let unit_direction = unit_vector_s(r_in.direction);
    let cos_theta = fmin_s(dot_s(vneg_s(unit_direction), rec.normal), SCALE as int);
    let sin_theta = fsqrt_s(fsub_s(SCALE as int, fmul_s(cos_theta, cos_theta)));
    let cannot_refract = fmul_s(refraction_ratio, sin_theta) > SCALE as int;
    if cannot_refract {
        ((RayS { origin: rec.p, direction: reflect_s(unit_direction, rec.normal) }, attenuation), s)
    } else {
        let s1 = next_state_s(s);
        let draw = unit_from_s(s1);
        let direction = if reflectance_s(cos_theta, refraction_ratio) > draw {
            reflect_s(unit_direction, rec.normal)
        } else {
            refract_s(unit_direction, rec.normal, refraction_ratio)
        };
        ((RayS { origin: rec.p, direction }, attenuation), s1)
    }
}

/// Total internal reflection: when `refraction_ratio * sin_theta`
/// exceeds one, the dielectric's chosen direction is the mirror
/// reflection whatever the generator state, and no random draw is
/// consumed.
pub proof fn lemma_dielectric_total_internal_reflection(ir: int, r_in: RayS, rec: HitS, s: u64)
    requires
        ({
            let refraction_ratio = if rec.front_face {
                fdiv_s(SCALE as int, ir)
            } else {
                ir
            };
            let unit_direction = unit_vector_s(r_in.direction);
            let cos_theta = fmin_s(dot_s(vneg_s(unit_direction), rec.normal), SCALE as int);
            let sin_theta = fsqrt_s(fsub_s(SCALE as int, fmul_s(cos_theta, cos_theta)));
            fmul_s(refraction_ratio, sin_theta) > SCALE as int
        }),
    ensures
        dielectric_scatter_s(ir, r_in, rec, s).0.0.direction == reflect_s(
            unit_vector_s(r_in.direction),
            rec.normal,
        ),
        dielectric_scatter_s(ir, r_in, rec, s).1 == s,
{
}

/// What any material variant scatters.
pub open spec fn material_scatter_s(m: Material, r_in: RayS, rec: HitS, s: u64) -> (
    Option<(RayS, V3)>,
    u64,
) {
    match m {
        Material::Lambertian(l) => {
            let (out, s1) = lambertian_scatter_s(l.albedo@, rec, s);
            (Some(out), s1)
        },
        Material::Metal(mt) => metal_scatter_s(mt.albedo@, mt.fuzz as int, r_in, rec, s),
        Material::Dielectric(d) => {
            let (out, s1) = dielectric_scatter_s(d.ir as int, r_in, rec, s);
            (Some(out), s1)
        },
    }
}

impl Lambertian {
    /// A diffuse material with the given albedo.
    pub fn from(a: Vec3) -> (r: Material)
        ensures
            r == Material::Lambertian(Lambertian { albedo: a }),
    {
        Material::Lambertian(Lambertian { albedo: a })
    }

    /// Scatter: never absorbs.
    pub fn scatter(&self, _r_in: &Ray, rec: &HitRecord, rng: &mut Rng) -> (res: Option<(Ray, Vec3)>)
        ensures
            res is Some,
            (scatter_opt_s(res), final(rng).state) == {
                let (out, s1) = lambertian_scatter_s(self.albedo@, rec@, old(rng).state);
                (Some::<(RayS, V3)>(out), s1)
            },
    {
        let ruv = random_unit_vector(rng);
        let mut scatter_direction = rec.normal.add(&ruv);

        // Catch degenerate scatter direction
        if scatter_direction.near_zero() {
            scatter_direction = rec.normal;
        }

        let scattered = Ray { origin: rec.p, direction: scatter_direction };
        let attenuation = self.albedo;
        Some((scattered, attenuation))
    }
}

impl Metal {
    /// A reflective material; the fuzz factor is clamped to at most one.
    pub fn from(a: Vec3, f: i64) -> (r: Material)
        ensures
            r == Material::Metal(Metal { albedo: a, fuzz: fmin_s(f as int, SCALE as int) as i64 }),
    {
        Material::Metal(Metal { albedo: a, fuzz: fmin(f, SCALE) })
    }

    /// Scatter: absorbs exactly when the perturbed reflection does not
    /// point out of the surface.
    pub fn scatter(&self, r_in: &Ray, rec: &HitRecord, rng: &mut Rng) -> (res: Option<(Ray, Vec3)>)
        ensures
            (scatter_opt_s(res), final(rng).state) == metal_scatter_s(
                self.albedo@,
                self.fuzz as int,
                r_in@,
                rec@,
                old(rng).state,
            ),
            res is Some <==> dot_s(
                metal_direction_s(self.fuzz as int, r_in@, rec@, old(rng).state).0,
                rec@.normal,
            ) > 0,
    {
        let unit_in = unit_vector(&r_in.direction);
        let reflected = reflect(&unit_in, &rec.normal);
        let fuzzed = random_in_unit_sphere(rng);

        let scattered = Ray { origin: rec.p, direction: reflected.add(&fuzzed.scale(self.fuzz)) };
        let attenuation = self.albedo;

        if dot(&scattered.direction, &rec.normal) > 0 {
            Some((scattered, attenuation))
        } else {
            None
        }
    }
}

impl Dielectric {
    /// A refractive material with the given index of refraction.
    pub fn from(index_of_refraction: i64) -> (r: Material)
        ensures
            r == Material::Dielectric(Dielectric { ir: index_of_refraction }),
    {
        Material::Dielectric(Dielectric { ir: index_of_refraction })
    }

    /// Schlick's approximation for reflectance.
    fn reflectance(cosine: i64, ref_idx: i64) -> (r: i64)
        ensures
            r as int == reflectance_s(cosine as int, ref_idx as int),
    {
        let r0a = fdiv(fsub(SCALE, ref_idx), fadd(SCALE, ref_idx));
        let r0 = fmul(r0a, r0a);
        let m = fsub(SCALE, cosine);
        let m2 = fmul(m, m);
        let m4 = fmul(m2, m2);
        fadd(r0, fmul(fsub(SCALE, r0), fmul(m4, m)))
    }

    /// Scatter: never absorbs; reflects on total internal reflection or a
    /// reflectance-weighted draw, refracts otherwise.
    pub fn scatter(&self, r_in: &Ray, rec: &HitRecord, rng: &mut Rng) -> (res: Option<(Ray, Vec3)>)
        ensures
            res is Some,
            (scatter_opt_s(res), final(rng).state) == {
                let (out, s1) = dielectric_scatter_s(self.ir as int, r_in@, rec@, old(rng).state);
                (Some::<(RayS, V3)>(out), s1)
            },
    {
        let attenuation = Vec3::from(SCALE, SCALE, SCALE);
        let refraction_ratio = if rec.front_face {
            fdiv(SCALE, self.ir)
        } else {
            self.ir
        };

        let unit_direction = unit_vector(&r_in.direction);
        let cos_theta = fmin(dot(&unit_direction.neg(), &rec.normal), SCALE);
        let sin_theta = fsqrt(fsub(SCALE, fmul(cos_theta, cos_theta)));

        let cannot_refract = fmul(refraction_ratio, sin_theta) > SCALE;
        let direction = if cannot_refract {
            reflect(&unit_direction, &rec.normal)
        } else {
            let draw = rng.next_unit();
            if Dielectric::reflectance(cos_theta, refraction_ratio) > draw {
                reflect(&unit_direction, &rec.normal)
            } else {
                refract(&unit_direction, &rec.normal, refraction_ratio)
            }
        };

        let scattered = Ray::from(rec.p, direction);
        Some((scattered, attenuation))
    }
}

impl Material {
    /// Scatter by the variant's own model.
    pub fn scatter(&self, r_in: &Ray, rec: &HitRecord, rng: &mut Rng) -> (res: Option<(Ray, Vec3)>)
        ensures
            (scatter_opt_s(res), final(rng).state) == material_scatter_s(
                *self,
                r_in@,
                rec@,
                old(rng).state,
            ),
    {
        match self {
            Material::Lambertian(l) => l.scatter(r_in, rec, rng),
            Material::Metal(m) => m.scatter(r_in, rec, rng),
            Material::Dielectric(d) => d.scatter(r_in, rec, rng),
        }
    }
}

} // verus!
