//! The MissShader capability.

use vstd::prelude::*;

verus! {

use crate::geometries::ray::{Ray, RayM};
use crate::math::color3::{Color3, ColorM};

/// Supplies a color when a ray hits no geometry; a pure function of the ray
/// and the shader's immutable state.
pub trait MissShader {
    /// The color reported for a ray, as a function of the models.
    spec fn shade_model(&self, ray: RayM) -> ColorM;

    /// The background color for `ray`.
    fn shade(&self, ray: &Ray) -> (c: Color3)
        ensures
            c.model() == self.shade_model(ray.model()),
    ;
}

} // verus!
