//! The discrete core of a sphere path tracer: which root of a ray/sphere
//! quadratic counts as the hit, which primitive of a scene is hit first, when
//! a surface swallows a ray, when a path stops and what it then contributes,
//! in which order the pixels of an image leave the renderer, and how they are
//! written as plain-text PPM.
//!
//! Every quantity that is measured along a ray or between two vectors reaches
//! this crate as an `i64` ordinal: an integer that is ordered as the quantity
//! it stands for. [`scalar::ordinal`] makes one from a sign-and-magnitude
//! word.

pub mod scalar;
pub mod vec3;
pub mod sphere;
pub mod hittable;
pub mod material;
pub mod radiance;
pub mod raster;
pub mod ppm;
