//! Three-component vectors of binary64 values: points, directions and colours.

use vstd::prelude::*;
use crate::scalar::{Scalar, ONE_BITS};

verus! {

/// The pattern of `1e-8`, the bound below which a component counts as zero.
pub const NEAR_ZERO_BITS: u64 = 0x3e45_798e_e230_8c3a;

/// A vector of three binary64 values. It stands for a point, a direction or an
/// RGB colour alike.
#[derive(Clone, Copy, Debug, PartialEq, Eq, Structural)]
pub struct Vec3 {
    pub x: Scalar,
    pub y: Scalar,
    pub z: Scalar,
}

pub type Point3 = Vec3;

pub type Color = Vec3;

impl Vec3 {
    /// The vector with every component negated.
    pub open spec fn negated(self) -> Vec3 {
        Vec3 { x: self.x.negated(), y: self.y.negated(), z: self.z.negated() }
    }

    /// Whether every component is below `1e-8` in absolute value. A NaN
    /// component is below nothing.
    pub open spec fn near_zero(self) -> bool {
        let s = Scalar { bits: NEAR_ZERO_BITS };
        self.x.absolute().less(s) && self.y.absolute().less(s) && self.z.absolute().less(s)
    }

    /// The vector all of whose components are `+0.0`.
    pub open spec fn origin() -> Vec3 {
        Vec3 { x: Scalar { bits: 0 }, y: Scalar { bits: 0 }, z: Scalar { bits: 0 } }
    }

    #[inline(always)]
    pub fn new(x: Scalar, y: Scalar, z: Scalar) -> (v: Vec3)
        ensures
            v == (Vec3 { x, y, z }),
    {
        Vec3 { x, y, z }
    }

    /// `-self`, component by component.
    pub fn neg(self) -> (v: Vec3)
        ensures
            v == self.negated(),
    {
        Vec3 { x: self.x.neg(), y: self.y.neg(), z: self.z.neg() }
    }

    /// Whether a vector of squared length `length_squared` lies inside the
    /// unit sphere. A random vector is drawn again until one does.
    pub fn inside_unit_sphere(length_squared: Scalar) -> (r: bool)
        ensures
            r == length_squared.less(Scalar { bits: ONE_BITS }),
    {
        length_squared.lt(Scalar::from_bits(ONE_BITS))
    }

    /// Whether the vector is too short to be normalised safely: all three
    /// components are below `1e-8` in absolute value.
    pub fn is_near_zero(&self) -> (r: bool)
        ensures
            r == self.near_zero(),
    {
        let s = Scalar::from_bits(NEAR_ZERO_BITS);
        self.x.abs().lt(s) && self.y.abs().lt(s) && self.z.abs().lt(s)
    }
}

impl Default for Vec3 {
    fn default() -> (v: Vec3)
        ensures
            v == Vec3::origin(),
    {
        Vec3 { x: Scalar::from_bits(0), y: Scalar::from_bits(0), z: Scalar::from_bits(0) }
    }
}

} // verus!
