//! Rays: an origin, a direction, and a cached componentwise reciprocal of the
//! direction (reserved for future slab tests; no current algorithm reads it).

use vstd::prelude::*;

verus! {

use crate::common::COORD_MAX;
use crate::math::vector3::{Vec3M, Vector3, VEC_LIMIT};

/// A ray, immutable after construction. The direction need not be normalized:
/// the intersection math divides by its squared length. A direction of
/// squared length zero (after fixed-point rounding) is rejected by the
/// well-formedness condition `RayM::wf`.
#[derive(Clone, Copy, Debug, PartialEq, Eq, Structural)]
pub struct Ray {
    pub position: Vector3,
    pub direction: Vector3,
    pub inverse_direction: Vector3,
}

/// Mathematical model of a `Ray`.
pub ghost struct RayM {
    pub position: Vec3M,
    pub direction: Vec3M,
    pub inverse_direction: Vec3M,
}

impl RayM {
    /// A ray the intersection routines accept: origin and direction within
    /// the scene's coordinate range, and a direction whose fixed-point
    /// squared length is at least one raw unit (so the quadratic's leading
    /// coefficient cannot vanish).
    pub open spec fn wf(self) -> bool {
        &&& self.position.bounded(COORD_MAX as int)
        &&& self.direction.bounded(COORD_MAX as int)
        &&& self.direction.sq_len() >= 1
    }
}

impl Ray {
    /// The ray's mathematical model.
    pub open spec fn model(self) -> RayM {
        RayM {
            position: self.position.model(),
            direction: self.direction.model(),
            inverse_direction: self.inverse_direction.model(),
        }
    }

    /// Builds a ray, caching the reciprocal of the direction.
    pub fn new(position: &Vector3, direction: &Vector3) -> (r: Ray)
        requires
            direction.model().bounded(VEC_LIMIT as int),
        ensures
            r.position == *position,
            r.direction == *direction,
            r.inverse_direction.model() == direction.model().recip(),
    {
        Ray {
            position: *position,
            direction: *direction,
            inverse_direction: direction.reciprocal(),
        }
    }

    /// Builds a ray from an already computed reciprocal direction.
    pub fn new2(position: &Vector3, direction: &Vector3, inverse_direction: &Vector3) -> (r: Ray)
        ensures
            r.position == *position,
            r.direction == *direction,
            r.inverse_direction == *inverse_direction,
    {
        Ray { position: *position, direction: *direction, inverse_direction: *inverse_direction }
    }

    pub fn position(&self) -> (p: &Vector3)
        ensures
            *p == self.position,
    {
        &self.position
    }

    pub fn direction(&self) -> (d: &Vector3)
        ensures
            *d == self.direction,
    {
        &self.direction
    }

    pub fn inverse_direction(&self) -> (d: &Vector3)
        ensures
            *d == self.inverse_direction,
    {
        &self.inverse_direction
    }
}

} // verus!
