//! The decision core of a small path tracer.
//!
//! Binary64 values are held as bit patterns ([`scalar::Scalar`]) and are only
//! ever compared, negated and selected here; the arithmetic that produces them
//! belongs to the caller. Every choice the renderer makes between such values
//! (which root of a sphere counts, which primitive is closest, whether a
//! material scatters, where a pixel lands in the image) is stated and proved.

pub mod camera;
pub mod canvas;
pub mod color;
pub mod hittable;
pub mod interval;
pub mod material;
pub mod ray;
pub mod scalar;
pub mod utils;
pub mod vec;
