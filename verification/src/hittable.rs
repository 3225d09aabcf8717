//! The intersection capability: hit records and the closed set of
//! geometry variants.

use vstd::prelude::*;
use crate::vec3::{V3, Vec3};
use crate::ray::{Ray, RayS};
use crate::sphere::{Sphere, sphere_hit_s};

verus! {

/// The mathematical model of a hit record.  `mat` is the arena index of
/// the struck object's material in the scene's material list.
pub ghost struct HitS {
    pub p: V3,
    pub normal: V3,
    pub mat: int,
    pub t: int,
    pub front_face: bool,
}

/// A successful intersection: the point, the normal stored facing the
/// incoming ray, the material's arena index, the ray parameter, and
/// whether the outward side was struck.
#[derive(Clone, Copy, Debug)]
pub struct HitRecord {
    pub p: Vec3,
    pub normal: Vec3,
    pub mat: usize,
    pub t: i64,
    pub front_face: bool,
}

impl View for HitRecord {
    type V = HitS;

    open spec fn view(&self) -> HitS {
        HitS {
            p: self.p@,
            normal: self.normal@,
            mat: self.mat as int,
            t: self.t as int,
            front_face: self.front_face,
        }
    }
}

/// The model of an optional hit record.
pub open spec fn hit_opt_s(o: Option<HitRecord>) -> Option<HitS> {
    match o {
        Some(h) => Some(h@),
        None => None,
    }
}

/// The closed set of geometry variants that can be intersected.
pub enum Hittable {
    Sphere(Sphere),
}

/// What intersecting a geometry variant yields.
pub open spec fn hittable_hit_s(obj: Hittable, r: RayS, t_min: int, t_max: int) -> Option<HitS> {
    match obj {
        Hittable::Sphere(s) => sphere_hit_s(s@, r, t_min, t_max),
    }
}

/// The material arena index a geometry variant refers to.
pub open spec fn hittable_mat_s(obj: Hittable) -> int {
    match obj {
        Hittable::Sphere(s) => s.mat as int,
    }
}

impl Hittable {
    /// Intersect a ray with this object over `[t_min, t_max]`.
    pub fn hit(&self, r: &Ray, t_min: i64, t_max: i64) -> (res: Option<HitRecord>)
        ensures
            hit_opt_s(res) == hittable_hit_s(*self, r@, t_min as int, t_max as int),
            res matches Some(h) ==> h.mat as int == hittable_mat_s(*self),
    {
        match self {
            Hittable::Sphere(s) => s.hit(r, t_min, t_max),
        }
    }
}

} // verus!
