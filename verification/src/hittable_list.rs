//! The scene aggregate: an ordered list of geometry objects and the
//! material arena they index into, resolving a ray to its closest hit.

use vstd::prelude::*;
use crate::ray::{Ray, RayS};
use crate::hittable::{HitRecord, HitS, Hittable, hittable_hit_s, hittable_mat_s, hit_opt_s};
use crate::material::Material;

verus! {

/// The closest-hit scan from object `i` on, carrying the best hit found
/// so far and its parameter as the tightened upper range bound.
pub open spec fn list_hit_from_s(
    objects: Seq<Hittable>,
    i: int,
    r: RayS,
    t_min: int,
    closest: int,
    best: Option<HitS>,
) -> Option<HitS>
    decreases objects.len() - i,
{
    if i < 0 || i >= objects.len() {
        best
    } else {
        match hittable_hit_s(objects[i], r, t_min, closest) {
            Some(h) => list_hit_from_s(objects, i + 1, r, t_min, h.t, Some(h)),
            None => list_hit_from_s(objects, i + 1, r, t_min, closest, best),
        }
    }
}

/// The single nearest hit across the whole list, or none.
pub open spec fn list_hit_s(objects: Seq<Hittable>, r: RayS, t_min: int, t_max: int) -> Option<
    HitS,
> {
    list_hit_from_s(objects, 0, r, t_min, t_max, None)
}

/// The scene: geometry objects and the material arena their `mat`
/// indices point into.  The scene owns both; objects hold indices, so
/// many objects may share one material.
pub struct HittableList {
    pub objects: Vec<Hittable>,
    pub materials: Vec<Material>,
}

impl HittableList {
    /// Every object's material index points into the arena.
    pub open spec fn wf(&self) -> bool {
        forall|i: int|
            0 <= i < self.objects@.len() ==> hittable_mat_s(#[trigger] self.objects@[i])
                < self.materials@.len()
    }

    /// A scene with the given objects and an empty material arena.
    pub fn from(objects: Vec<Hittable>) -> (r: Self)
        ensures
            r.objects@ == objects@,
            r.materials@.len() == 0,
    {
        Self { objects, materials: Vec::new() }
    }

    /// Append an object.
    pub fn add(&mut self, object: Hittable)
        ensures
            final(self).objects@ == old(self).objects@.push(object),
            final(self).materials@ == old(self).materials@,
    {
        self.objects.push(object);
    }

    /// Put a material into the arena and return its index.
    pub fn add_material(&mut self, m: Material) -> (idx: usize)
        ensures
            final(self).materials@ == old(self).materials@.push(m),
            final(self).objects@ == old(self).objects@,
            idx as int == old(self).materials@.len(),
    {
        let idx = self.materials.len();
        self.materials.push(m);
        idx
    }

    /// Whether every object's material index is in range (so that a
    /// render may proceed).
    pub fn wf_check(&self) -> (r: bool)
        ensures
            r == self.wf(),
    {
        let mut i: usize = 0;
        let mut ok = true;
        while i < self.objects.len()
            invariant
                0 <= i <= self.objects@.len(),
                ok == forall|j: int|
                    0 <= j < i ==> hittable_mat_s(#[trigger] self.objects@[j])
                        < self.materials@.len(),
            decreases self.objects@.len() - i,
        {
            let in_range = match &self.objects[i] {
                Hittable::Sphere(s) => s.mat < self.materials.len(),
            };
            ok = ok && in_range;
            i = i + 1;
        }
        ok
    }

    /// The single nearest hit across the scene over `[t_min, t_max]`:
    /// a linear scan that tightens the upper range bound to each hit
    /// found.
    pub fn hit(&self, r: &Ray, t_min: i64, t_max: i64) -> (res: Option<HitRecord>)
        ensures
            hit_opt_s(res) == list_hit_s(self.objects@, r@, t_min as int, t_max as int),
            self.wf() ==> (res matches Some(h) ==> h.mat < self.materials@.len()),
    {
        let mut hit_anything: Option<HitRecord> = None;
        let mut closest_so_far = t_max;
        let mut i: usize = 0;

        while i < self.objects.len()
            invariant
                0 <= i <= self.objects@.len(),
                list_hit_from_s(
                    self.objects@,
                    i as int,
                    r@,
                    t_min as int,
                    closest_so_far as int,
                    hit_opt_s(hit_anything),
                ) == list_hit_s(self.objects@, r@, t_min as int, t_max as int),
                hit_anything matches Some(h) ==> exists|j: int|
                    0 <= j < i && h.mat as int == hittable_mat_s(#[trigger] self.objects@[j]),
            decreases self.objects@.len() - i,
        {
            if let Some(rec) = self.objects[i].hit(r, t_min, closest_so_far) {
                closest_so_far = rec.t;
                hit_anything = Some(rec);
                proof {
                    let j = i as int;
                    assert(0 <= j < i + 1 && rec.mat as int == hittable_mat_s(self.objects@[j]));
                }
            }
            i = i + 1;
        }

        hit_anything
    }
}

} // verus!
