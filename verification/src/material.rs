//! Materials: what becomes of a ray at a surface.

use vstd::prelude::*;
use crate::hittable::HitRecord;
use crate::ray::Ray;
use crate::scalar::{Scalar, ONE_BITS};
use crate::vec::{Color, Vec3};

verus! {

/// A diffuse surface.
#[derive(Clone, Copy, Debug, PartialEq, Eq, Structural)]
pub struct Lambertian {
    pub albedo: Color,
}

/// A mirroring surface.
#[derive(Clone, Copy, Debug, PartialEq, Eq, Structural)]
pub struct Metal {
    pub albedo: Color,
    /// The fuzz factor, in `[0, 1]`.
    pub f: Scalar,
}

/// A transparent surface.
#[derive(Clone, Copy, Debug, PartialEq, Eq, Structural)]
pub struct Dielectric {
    pub refractive_index: Scalar,
}

/// The material of a surface.
#[derive(Clone, Copy, Debug, PartialEq, Eq, Structural)]
pub enum Material {
    Lambertian(Lambertian),
    Metal(Metal),
    Dielectric(Dielectric),
}

/// Opaque white: the attenuation of a surface that absorbs no colour.
pub open spec fn white() -> Color {
    Vec3 { x: Scalar { bits: ONE_BITS }, y: Scalar { bits: ONE_BITS }, z: Scalar { bits: ONE_BITS } }
}

impl Lambertian {
    /// Scatters diffusely, and always does. `candidate` is the normal plus a
    /// random unit vector; where that sum is near zero the ray leaves along
    /// the normal itself.
    pub fn scatter(&self, record: &HitRecord, candidate: Vec3) -> (r: Option<(Color, Ray)>)
        ensures
            r == Some(
                (
                    self.albedo,
                    Ray {
                        origin: record.p,
                        direction: if candidate.near_zero() {
                            record.normal
                        } else {
                            candidate
                        },
                    },
                ),
            ),
    {
        let mut scatter_direction = candidate;
        if scatter_direction.is_near_zero() {
            scatter_direction = record.normal;
        }
        Some((self.albedo, Ray::new(record.p, scatter_direction)))
    }
}

impl Metal {
    /// Reflects, unless the ray would go into the surface. `direction` is the
    /// mirrored direction plus the fuzz, and `facing` its dot product with the
    /// normal: the ray scatters exactly when `facing > 0`.
    pub fn scatter(&self, record: &HitRecord, direction: Vec3, facing: Scalar) -> (r: Option<
        (Color, Ray),
    >)
        ensures
            r == if (Scalar { bits: 0 }).less(facing) {
                Some((self.albedo, Ray { origin: record.p, direction }))
            } else {
                None
            },
    {
        let scattered = Ray::new(record.p, direction);
        if facing.gt(Scalar::from_bits(0)) {
            Some((self.albedo, scattered))
        } else {
            None
        }
    }
}

impl Dielectric {
    /// The ratio of refractive indices across the surface: `reciprocal`, which
    /// is `1 / refractive_index`, for a ray that comes from outside, and the
    /// index itself for one that leaves.
    pub fn refraction_ratio(&self, front_face: bool, reciprocal: Scalar) -> (ratio: Scalar)
        ensures
            ratio == if front_face {
                reciprocal
            } else {
                self.refractive_index
            },
    {
        if front_face {
            reciprocal
        } else {
            self.refractive_index
        }
    }

    /// Reflects or refracts, and never absorbs. `bend` is the refraction ratio
    /// times the sine of the angle of incidence: above `1` no refracted ray
    /// exists and the ray is mirrored. The attenuation is white.
    pub fn scatter(&self, record: &HitRecord, bend: Scalar, reflected: Vec3, refracted: Vec3) -> (r:
        Option<(Color, Ray)>)
        ensures
            r == Some(
                (
                    white(),
                    Ray {
                        origin: record.p,
                        direction: if (Scalar { bits: ONE_BITS }).less(bend) {
                            reflected
                        } else {
                            refracted
                        },
                    },
                ),
            ),
    {
        let one = Scalar::from_bits(ONE_BITS);
        let attenuation = Color::new(one, one, one);
        let new_ray_direction = if bend.gt(one) {
            reflected
        } else {
            refracted
        };
        Some((attenuation, Ray::new(record.p, new_ray_direction)))
    }
}

} // verus!
