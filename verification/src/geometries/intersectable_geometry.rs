//! The Intersectable capability: anything that can report the nearest valid
//! forward intersection of a ray, or that there is none.

use vstd::prelude::*;

verus! {

use crate::geometries::intersection::{opt_hit_model, opt_hit_ok, HitM, Intersection};
use crate::geometries::ray::{Ray, RayM};

/// An object a ray can be tested against. `intersect` is a pure function of
/// the ray and the object's immutable state; `model_intersect` is that
/// function, stated over the models, and each implementation's contract pins
/// the executable result to it exactly.
pub trait IntersectableGeometry {
    /// The object's well-formedness: whatever its constructor establishes.
    spec fn ig_wf(&self) -> bool;

    /// The nearest valid forward intersection, if any, as a function of the
    /// models.
    spec fn model_intersect(&self, ray: RayM) -> Option<HitM>;

    /// Reports the nearest intersection whose entrance distance is
    /// nonnegative, or `None` when the ray misses.
    fn intersect(&self, ray: &Ray) -> (r: Option<Intersection>)
        requires
            self.ig_wf(),
            ray.model().wf(),
        ensures
            opt_hit_model(r) == self.model_intersect(ray.model()),
            opt_hit_ok(self.model_intersect(ray.model())),
    ;
}

} // verus!
