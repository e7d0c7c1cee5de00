//! Intersection: which parameter of a ray counts as its hit on a primitive,
//! and which primitive of a scene is the closest.

use vstd::prelude::*;
use crate::interval::Interval;
use crate::material::Material;
use crate::scalar::Scalar;
use crate::vec::{Point3, Vec3};

verus! {

/// Where a ray met a surface.
#[derive(Clone, Copy, Debug)]
pub struct HitRecord {
    /// The point of the hit.
    pub p: Point3,
    /// The surface normal, turned against the incoming ray.
    pub normal: Vec3,
    /// The material of the surface.
    pub mat: Option<Material>,
    /// The ray's parameter at the hit.
    pub t: Scalar,
    /// Whether the outward normal already faced the ray.
    pub front_face: bool,
}

impl HitRecord {
    /// Turns a unit outward normal against the ray. `facing` is the dot product
    /// of the ray's direction with `outward_normal`: where it is negative the
    /// ray comes from outside and the normal stays, otherwise the normal is
    /// negated.
    pub fn get_face_normal(facing: Scalar, outward_normal: &Vec3) -> (r: (bool, Vec3))
        ensures
            r.0 == facing.less(Scalar { bits: 0 }),
            r.1 == if r.0 {
                *outward_normal
            } else {
                outward_normal.negated()
            },
    {
        let front_face = facing.lt(Scalar::from_bits(0));
        let normal = if front_face {
            *outward_normal
        } else {
            outward_normal.neg()
        };
        (front_face, normal)
    }
}

impl HitRecord {
    /// The record of a hit on a sphere at `t`, where the ray is at `p` and the
    /// unit outward normal there is `outward_normal`; `facing` is the dot
    /// product of the ray's direction with that normal. The normal is turned
    /// against the ray, and the record says whether it had to be.
    pub fn on_sphere(
        t: Scalar,
        p: Point3,
        facing: Scalar,
        outward_normal: &Vec3,
        mat: Material,
    ) -> (r: HitRecord)
        ensures
            r.t == t,
            r.p == p,
            r.mat == Some(mat),
            r.front_face == facing.less(Scalar { bits: 0 }),
            r.normal == if r.front_face {
                *outward_normal
            } else {
                outward_normal.negated()
            },
    {
        let (front_face, normal) = HitRecord::get_face_normal(facing, outward_normal);
        HitRecord { t, p, normal, mat: Some(mat), front_face }
    }

    /// The record of a hit on a triangle at `t`, where the ray is at `p`.
    /// `normal` is the plane normal, already turned against the ray; a
    /// triangle always counts as met from its front.
    pub fn on_triangle(t: Scalar, p: Point3, normal: Vec3, mat: Material) -> (r: HitRecord)
        ensures
            r.t == t,
            r.p == p,
            r.mat == Some(mat),
            r.front_face,
            r.normal == normal,
    {
        HitRecord { p, normal, mat: Some(mat), t, front_face: true }
    }
}

impl Default for HitRecord {
    fn default() -> (r: HitRecord)
        ensures
            r.p == Vec3::origin(),
            r.normal == Vec3::origin(),
            r.mat is None,
            r.t == (Scalar { bits: 0 }),
            !r.front_face,
    {
        HitRecord {
            p: Point3::default(),
            normal: Vec3::default(),
            mat: None,
            t: Scalar::from_bits(0),
            front_face: false,
        }
    }
}

/// One ray against one sphere: the quadratic `|O + tD - C|^2 = r^2` as the
/// caller solved it.
#[derive(Clone, Copy, Debug, PartialEq, Eq, Structural)]
pub struct SphereProbe {
    /// `half_b^2 - a*c`.
    pub discriminant: Scalar,
    /// The smaller root, `(-half_b - sqrt(discriminant)) / a`.
    pub near: Scalar,
    /// The larger root, `(-half_b + sqrt(discriminant)) / a`.
    pub far: Scalar,
}

impl SphereProbe {
    /// The roots come smaller first, unless one of them is a NaN.
    pub open spec fn ordered(self) -> bool {
        self.near.nan() || self.far.nan() || self.near.rank() <= self.far.rank()
    }

    /// The hit in `ray_t`: none where the discriminant is negative; else the
    /// smaller root if it lies in the interval, else the larger one if that
    /// does, else none.
    pub open spec fn hit_in(self, ray_t: Interval) -> Option<Scalar> {
        if self.discriminant.less(Scalar { bits: 0 }) {
            None
        } else if ray_t.holds(self.near) {
            Some(self.near)
        } else if ray_t.holds(self.far) {
            Some(self.far)
        } else {
            None
        }
    }

    pub fn new(discriminant: Scalar, near: Scalar, far: Scalar) -> (s: SphereProbe)
        ensures
            s == (SphereProbe { discriminant, near, far }),
    {
        SphereProbe { discriminant, near, far }
    }

    /// The parameter of the closest hit within `ray_t`, if there is one.
    pub fn hit(&self, ray_t: &Interval) -> (r: Option<Scalar>)
        ensures
            r == self.hit_in(*ray_t),
    {
        if self.discriminant.lt(Scalar::from_bits(0)) {
            return None;
        }
        let mut root = self.near;
        if !ray_t.contains(root) {
            root = self.far;
            if !ray_t.contains(root) {
                return None;
            }
        }
        Some(root)
    }
}

/// One ray against one triangle, as the caller measured it.
#[derive(Clone, Copy, Debug, PartialEq, Eq, Structural)]
pub struct TriangleProbe {
    /// The dot product of the plane normal, turned against the ray, with the
    /// ray's direction.
    pub facing: Scalar,
    /// The parameter at which the ray meets the triangle's plane.
    pub t: Scalar,
    /// The summed areas (each doubled) of the three triangles that the point
    /// on the plane spans with the edges.
    pub parts: Scalar,
    /// Twice the area of the triangle.
    pub whole: Scalar,
}

impl TriangleProbe {
    /// The hit in `ray_t`: the plane parameter, where the ray runs against the
    /// normal (`facing < 0`), the parameter lies in the interval, and the
    /// point lies in the triangle (`parts <= whole`).
    pub open spec fn hit_in(self, ray_t: Interval) -> Option<Scalar> {
        if (Scalar { bits: 0 }).at_most(self.facing) {
            None
        } else if !ray_t.holds(self.t) {
            None
        } else if self.parts.at_most(self.whole) {
            Some(self.t)
        } else {
            None
        }
    }

    pub fn new(facing: Scalar, t: Scalar, parts: Scalar, whole: Scalar) -> (s: TriangleProbe)
        ensures
            s == (TriangleProbe { facing, t, parts, whole }),
    {
        TriangleProbe { facing, t, parts, whole }
    }

    /// The plane normal turned against the ray: negated where its dot product
    /// with the ray's direction, `along`, is positive.
    pub fn facing_normal(normal: &Vec3, along: Scalar) -> (n: Vec3)
        ensures
            n == if (Scalar { bits: 0 }).less(along) {
                normal.negated()
            } else {
                *normal
            },
    {
        if along.gt(Scalar::from_bits(0)) {
            normal.neg()
        } else {
            *normal
        }
    }

    /// The plane offset that goes with the turned normal: the plane is where
    /// `normal . p` equals `offset`, so where the normal is negated, which is
    /// where `along` is positive, the offset is negated with it.
    pub fn facing_offset(offset: Scalar, along: Scalar) -> (d: Scalar)
        ensures
            d == if (Scalar { bits: 0 }).less(along) {
                offset.negated()
            } else {
                offset
            },
    {
        if along.gt(Scalar::from_bits(0)) {
            offset.neg()
        } else {
            offset
        }
    }

    /// The parameter of the hit within `ray_t`, if there is one.
    pub fn hit(&self, ray_t: &Interval) -> (r: Option<Scalar>)
        ensures
            r == self.hit_in(*ray_t),
    {
        if self.facing.ge(Scalar::from_bits(0)) {
            return None;
        }
        if !ray_t.contains(self.t) {
            return None;
        }
        if self.parts.le(self.whole) {
            Some(self.t)
        } else {
            None
        }
    }
}

/// One ray against one primitive.
#[derive(Clone, Copy, Debug, PartialEq, Eq, Structural)]
pub enum Probe {
    Sphere(SphereProbe),
    Triangle(TriangleProbe),
}

impl Probe {
    /// A sphere's roots come smaller first; a triangle has one parameter and
    /// is always in order.
    pub open spec fn ordered(self) -> bool {
        match self {
            Probe::Sphere(s) => s.ordered(),
            Probe::Triangle(_) => true,
        }
    }

    /// The primitive's hit in `ray_t`.
    pub open spec fn hit_in(self, ray_t: Interval) -> Option<Scalar> {
        match self {
            Probe::Sphere(s) => s.hit_in(ray_t),
            Probe::Triangle(t) => t.hit_in(ray_t),
        }
    }

    /// Whether the roots are in order; see [`Probe::ordered`].
    pub fn is_ordered(&self) -> (r: bool)
        ensures
            r == self.ordered(),
    {
        match self {
            Probe::Sphere(s) => s.near.is_nan() || s.far.is_nan() || s.near.le(s.far),
            Probe::Triangle(_) => true,
        }
    }

    /// The parameter of the primitive's closest hit within `ray_t`.
    pub fn hit(&self, ray_t: &Interval) -> (r: Option<Scalar>)
        ensures
            r == self.hit_in(*ray_t),
    {
        match self {
            Probe::Sphere(s) => s.hit(ray_t),
            Probe::Triangle(t) => t.hit(ray_t),
        }
    }
}

/// Whether `report` is the closest hit of `probes` in `ray_t`: none where no
/// primitive is hit; else the index of a primitive and its hit, such that no
/// primitive is hit at a smaller parameter and none after it at the same one.
pub open spec fn is_closest(probes: Seq<Probe>, ray_t: Interval, report: Option<(usize, Scalar)>) -> bool {
    match report {
        None => forall|j: int| 0 <= j < probes.len() ==> (#[trigger] probes[j].hit_in(ray_t)) is None,
        Some((i, t)) => {
            &&& i < probes.len()
            &&& probes[i as int].hit_in(ray_t) == Some(t)
            &&& forall|j: int|
                0 <= j < probes.len() ==> match #[trigger] probes[j].hit_in(ray_t) {
                    Some(u) => t.rank() <= u.rank() && (j > i ==> t.rank() < u.rank()),
                    None => true,
                }
        },
    }
}

/// A primitive's hit is one of its parameters, lies in the interval, and is the
/// least of its parameters that do.
pub proof fn lemma_hit_is_least(probe: Probe, ray_t: Interval)
    requires
        probe.ordered(),
    ensures
        match probe.hit_in(ray_t) {
            Some(t) => ray_t.holds(t) && match probe {
                Probe::Sphere(s) => (t == s.near || t == s.far) && (ray_t.holds(s.near)
                    ==> t.rank() <= s.near.rank()) && (ray_t.holds(s.far) ==> t.rank()
                    <= s.far.rank()),
                Probe::Triangle(s) => t == s.t,
            },
            None => match probe {
                Probe::Sphere(s) => s.discriminant.less(Scalar { bits: 0 }) || (!ray_t.holds(s.near)
                    && !ray_t.holds(s.far)),
                Probe::Triangle(s) => (Scalar { bits: 0 }).at_most(s.facing) || !ray_t.holds(s.t)
                    || !s.parts.at_most(s.whole),
            },
        },
{
}

/// With the interval narrowed to one of its members, a primitive reports the
/// hit it reported before if that is not beyond the new bound, and none
/// otherwise.
pub proof fn lemma_hit_in_narrowed(probe: Probe, ray_t: Interval, end: Scalar)
    requires
        probe.ordered(),
        ray_t.holds(end),
    ensures
        probe.hit_in(ray_t.ending_at(end)) == match probe.hit_in(ray_t) {
            Some(u) => if u.rank() <= end.rank() {
                Some(u)
            } else {
                None
            },
            None => None,
        },
{
}

/// Every primitive of one sequence occurs in another that holds the same
/// primitives in another order.
proof fn lemma_member_of_permutation(a: Seq<Probe>, b: Seq<Probe>, i: int) -> (j: int)
    requires
        a.to_multiset() == b.to_multiset(),
        0 <= i < a.len(),
    ensures
        0 <= j < b.len(),
        b[j] == a[i],
{
    vstd::seq_lib::to_multiset_contains(a, a[i]);
    vstd::seq_lib::to_multiset_contains(b, a[i]);
    assert(a.contains(a[i]));
    choose|j: int| 0 <= j < b.len() && b[j] == a[i]
}

/// The closest hit does not depend on the order of the primitives. Of two
/// scenes that hold the same primitives, in whatever order, either both miss
/// or both are hit at the same value of the parameter. Where a single
/// primitive attains that value, both reports are of that primitive and carry
/// the same parameter, bit for bit.
pub proof fn lemma_hit_is_order_independent(
    a: Seq<Probe>,
    b: Seq<Probe>,
    ray_t: Interval,
    in_a: Option<(usize, Scalar)>,
    in_b: Option<(usize, Scalar)>,
)
    requires
        a.to_multiset() == b.to_multiset(),
        is_closest(a, ray_t, in_a),
        is_closest(b, ray_t, in_b),
    ensures
        match (in_a, in_b) {
            (None, None) => true,
            (Some((i, t)), Some((k, u))) => {
                &&& t.rank() == u.rank()
                &&& (forall|j: int|
                    0 <= j < a.len() && a[j] != a[i as int] ==> match #[trigger] a[j].hit_in(ray_t) {
                        Some(v) => t.rank() < v.rank(),
                        None => true,
                    }) ==> a[i as int] == b[k as int] && t == u
            },
            _ => false,
        },
{
    match in_a {
        Some((i, t)) => {
            let j = lemma_member_of_permutation(a, b, i as int);
            assert(b[j].hit_in(ray_t) == Some(t));
            match in_b {
                Some((k, u)) => {
                    let l = lemma_member_of_permutation(b, a, k as int);
                    assert(a[l].hit_in(ray_t) == Some(u));
                },
                None => {},
            }
        },
        None => {
            match in_b {
                Some((k, u)) => {
                    let l = lemma_member_of_permutation(b, a, k as int);
                    assert(a[l].hit_in(ray_t) == Some(u));
                },
                None => {},
            }
        },
    }
}

/// The primitives of a scene as one ray meets them, in the scene's order.
#[derive(Debug)]
pub struct HittableList {
    pub probes: Vec<Probe>,
}

impl HittableList {
    /// Every primitive's roots are in order.
    pub open spec fn ordered(&self) -> bool {
        forall|j: int| 0 <= j < self.probes@.len() ==> (#[trigger] self.probes@[j]).ordered()
    }

    pub fn new(probes: Vec<Probe>) -> (list: HittableList)
        ensures
            list.probes == probes,
    {
        HittableList { probes }
    }

    /// Whether every primitive's roots are in order.
    pub fn is_ordered(&self) -> (r: bool)
        ensures
            r == self.ordered(),
    {
        let mut k: usize = 0;
        while k < self.probes.len()
            invariant
                k <= self.probes@.len(),
                forall|j: int| 0 <= j < k ==> (#[trigger] self.probes@[j]).ordered(),
            decreases self.probes@.len() - k,
        {
            if !self.probes[k].is_ordered() {
                return false;
            }
            k += 1;
        }
        true
    }

    /// The closest hit of the scene within `ray_t`: the index of the primitive
    /// and the ray's parameter. Each primitive is asked in turn, with the
    /// interval narrowed to the closest hit found so far.
    pub fn hit(&self, ray_t: &Interval) -> (r: Option<(usize, Scalar)>)
        requires
            self.ordered(),
        ensures
            is_closest(self.probes@, *ray_t, r),
    {
        let mut smallest_range_so_far = *ray_t;
        let mut record: Option<(usize, Scalar)> = None;
        let mut k: usize = 0;
        while k < self.probes.len()
            invariant
                k <= self.probes@.len(),
                self.ordered(),
                match record {
                    None => smallest_range_so_far == *ray_t,
                    Some((i, t)) => i < k && ray_t.holds(t) && smallest_range_so_far
                        == ray_t.ending_at(t),
                },
                is_closest(self.probes@.take(k as int), *ray_t, record),
            decreases self.probes@.len() - k,
        {
            let ghost before = self.probes@.take(k as int);
            let ghost after = self.probes@.take(k + 1);
            let ghost found = record;
            proof {
                match record {
                    Some((i, t)) => lemma_hit_in_narrowed(self.probes@[k as int], *ray_t, t),
                    None => {},
                }
                lemma_hit_is_least(self.probes@[k as int], *ray_t);
                assert forall|j: int| 0 <= j < k implies after[j] == before[j] by {}
                assert(after[k as int] == self.probes@[k as int]);
            }
            match self.probes[k].hit(&smallest_range_so_far) {
                Some(t) => {
                    smallest_range_so_far = smallest_range_so_far.narrowed(t);
                    record = Some((k, t));
                },
                None => {},
            }
            proof {
                match record {
                    None => {
                        assert forall|j: int| 0 <= j < after.len() implies (
                        #[trigger] after[j].hit_in(*ray_t)) is None by {
                            if j < k {
                                assert(before[j].hit_in(*ray_t) is None);
                            }
                        }
                    },
                    Some((i, t)) => {
                        assert forall|j: int| 0 <= j < after.len() implies match #[trigger] after[j].hit_in(
                            *ray_t,
                        ) {
                            Some(u) => t.rank() <= u.rank() && (j > i ==> t.rank() < u.rank()),
                            None => true,
                        } by {
                            if j < k {
                                let h = before[j].hit_in(*ray_t);
                                assert(after[j].hit_in(*ray_t) == h);
                                match found {
                                    Some((fi, ft)) => {
                                        assert(match h {
                                            Some(u) => ft.rank() <= u.rank() && (j > fi ==> ft.rank()
                                                < u.rank()),
                                            None => true,
                                        });
                                    },
                                    None => {
                                        assert(h is None);
                                    },
                                }
                            }
                        }
                    },
                }
            }
            k += 1;
        }
        proof {
            assert(self.probes@.take(k as int) == self.probes@);
        }
        record
    }
}

/// How far a shape is moved along one axis.
#[derive(Clone, Copy, Debug, PartialEq, Eq, Structural)]
pub enum Translation {
    Left(Scalar),
    Right(Scalar),
    Up(Scalar),
    Down(Scalar),
    Forward(Scalar),
    Backward(Scalar),
}

impl Translation {
    /// The vector that the translation adds to every point. `Left` and `Right`
    /// both move towards negative `x`.
    pub open spec fn offset(self) -> Vec3 {
        let zero = Scalar { bits: 0 };
        match self {
            Translation::Left(amt) => Vec3 { x: amt.negated(), y: zero, z: zero },
            Translation::Right(amt) => Vec3 { x: amt.negated(), y: zero, z: zero },
            Translation::Up(amt) => Vec3 { x: zero, y: amt, z: zero },
            Translation::Down(amt) => Vec3 { x: zero, y: amt.negated(), z: zero },
            Translation::Forward(amt) => Vec3 { x: zero, y: zero, z: amt },
            Translation::Backward(amt) => Vec3 { x: zero, y: zero, z: amt.negated() },
        }
    }

    /// The vector by which the translation moves a shape.
    pub fn translate(self) -> (v: Vec3)
        ensures
            v == self.offset(),
    {
        let zero = Scalar::from_bits(0);
        match self {
            Translation::Left(amt) => Vec3::new(amt.neg(), zero, zero),
            Translation::Right(amt) => Vec3::new(amt.neg(), zero, zero),
            Translation::Up(amt) => Vec3::new(zero, amt, zero),
            Translation::Down(amt) => Vec3::new(zero, amt.neg(), zero),
            Translation::Forward(amt) => Vec3::new(zero, zero, amt),
            Translation::Backward(amt) => Vec3::new(zero, zero, amt.neg()),
        }
    }
}

} // verus!
