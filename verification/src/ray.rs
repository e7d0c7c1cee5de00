//! Rays: an origin and a direction.

use vstd::prelude::*;
use crate::scalar::{Scalar, MINUS_ONE_BITS};
use crate::vec::Point3;

verus! {

/// The half-line `origin + t * direction`. The direction need not be of unit
/// length.
#[derive(Clone, Copy, Debug, PartialEq, Eq, Structural)]
pub struct Ray {
    pub origin: Point3,
    pub direction: Point3,
}

impl Ray {
    pub fn new(origin: Point3, direction: Point3) -> (ray: Ray)
        ensures
            ray == (Ray { origin, direction }),
    {
        Ray { origin, direction }
    }

    /// The parameter at which a ray first meets the surface of a sphere, from
    /// the quadratic's discriminant and its smaller root: the root itself, or
    /// `-1.0` where the discriminant is negative and the ray misses.
    pub fn hit_sphere(discriminant: Scalar, near: Scalar) -> (t: Scalar)
        ensures
            t == if discriminant.less(Scalar { bits: 0 }) {
                Scalar { bits: MINUS_ONE_BITS }
            } else {
                near
            },
    {
        if discriminant.lt(Scalar::from_bits(0)) {
            Scalar::from_bits(MINUS_ONE_BITS)
        } else {
            near
        }
    }
}

} // verus!
