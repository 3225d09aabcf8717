//! Rays: an origin and a (not necessarily normalized) direction.

use vstd::prelude::*;
use crate::vec3::{V3, Vec3, vadd_s, vscale_s};

verus! {

/// The mathematical model of a ray.
pub ghost struct RayS {
    pub origin: V3,
    pub direction: V3,
}

/// A ray, parametrized as `origin + t * direction`.
#[derive(Clone, Copy, Debug)]
pub struct Ray {
    pub origin: Vec3,
    pub direction: Vec3,
}

impl View for Ray {
    type V = RayS;

    open spec fn view(&self) -> RayS {
        RayS { origin: self.origin@, direction: self.direction@ }
    }
}

/// The point a parameter value reaches along a ray.
pub open spec fn at_s(r: RayS, t: int) -> V3 {
    vadd_s(r.origin, vscale_s(r.direction, t))
}

impl Ray {
    /// The ray with the given origin and direction.
    pub fn from(origin: Vec3, direction: Vec3) -> (r: Self)
        ensures
            r@ == (RayS { origin: origin@, direction: direction@ }),
    {
        Self { origin, direction }
    }

    /// The point at parameter `t`.
    pub fn at(&self, t: i64) -> (r: Vec3)
        ensures
            r@ == at_s(self@, t as int),
    {
        self.origin.add(&self.direction.scale(t))
    }
}

} // verus!
