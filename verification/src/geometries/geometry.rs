//! The Geometry capability: a primitive that can report its bound material
//! and compute a surface normal at a hit position.

use vstd::prelude::*;

verus! {

use crate::common::SCALE;
use crate::geometries::ray::{Ray, RayM};
use crate::math::vector3::{Vec3M, Vector3};

/// A geometric primitive. New primitive kinds supply the four spec functions
/// and satisfy the two method contracts; the traversal and shading algorithms
/// need nothing else from them.
pub trait Geometry {
    /// The primitive's well-formedness: whatever its constructor establishes.
    spec fn geo_wf(&self) -> bool;

    /// Index of the primitive's bound material in the scene's material table.
    spec fn material_of(&self) -> int;

    /// The inputs for which a normal can be computed (a position on or near
    /// the surface, within the representable range).
    spec fn can_normal(&self, ray: RayM, hit_position: Vec3M) -> bool;

    /// The normal the primitive reports at a hit position.
    spec fn normal_of(&self, ray: RayM, hit_position: Vec3M) -> Vec3M;

    /// The bound material's index; constant time, never fails.
    fn get_material(&self) -> (m: usize)
        requires
            self.geo_wf(),
        ensures
            m as int == self.material_of(),
    ;

    /// The outward surface normal at `hit_position`, scaled to fixed-point
    /// unit length.
    fn calculate_normal(&self, ray: &Ray, hit_position: &Vector3) -> (n: Vector3)
        requires
            self.geo_wf(),
            self.can_normal(ray.model(), hit_position.model()),
        ensures
            n.model() == self.normal_of(ray.model(), hit_position.model()),
            n.model().bounded(3 * SCALE as int),
    ;
}

} // verus!
