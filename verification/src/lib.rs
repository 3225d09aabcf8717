//! A recursive Monte-Carlo path tracer with a verified rendering kernel.
//!
//! All scalar arithmetic is carried out in saturating fixed-point: an `i64`
//! counts billionths (one unit is 1e-9), so the whole kernel -- vector
//! algebra, ray/sphere intersection, material scattering, the camera model,
//! the recursive color integrator and the row-partitioned renderer -- is
//! integer code whose results are pinned down exactly by its contracts.
//! Randomness comes from an explicit seedable generator threaded through
//! every call, so a render is a pure function of the scene, the camera,
//! the render parameters and the seed.

pub mod fixed;
pub mod rng;
pub mod vec3;
pub mod ray;
pub mod hittable;
pub mod sphere;
pub mod hittable_list;
pub mod material;
pub mod camera;
pub mod color;
pub mod render;

pub use fixed::SCALE;
