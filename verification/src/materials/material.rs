//! The Material capability: mapping a hit point, its geometry and the scene's
//! lights to an outgoing color.

use vstd::prelude::*;

verus! {

use crate::geometries::sphere::Sphere;
use crate::math::color3::{Color3, ColorM};
use crate::math::vector3::{Vec3M, Vector3};
use crate::scene::Scene;

/// Largest component magnitude of a hit position the shading path accepts;
/// the scene guards hits against it before shading.
pub const SHADE_POS_LIMIT: i128 = 0x8_0000_0000;

/// Largest channel magnitude a single light can contribute to a shaded color.
pub const TERM_LIMIT: i128 = 0x2000_0000_0000_0000;

/// A surface material. `calculate_rendering_equation` must be total over
/// well-formed inputs and read the scene only through shared state; the depth
/// counter is reserved for bounded recursive effects and is ignored by
/// materials that have none.
pub trait Material {
    /// What the material's constructor establishes.
    spec fn mat_wf(&self) -> bool;

    /// The inputs the implementation's arithmetic accepts.
    spec fn can_shade(&self, scene: Scene, hit_position: Vec3M, hit_normal: Vec3M, incoming: Vec3M) -> bool;

    /// The outgoing color as a function of the models (the hit geometry plays
    /// no role in the implemented illumination model, so the model does not
    /// take it).
    spec fn rendering_model(
        &self,
        scene: Scene,
        hit_position: Vec3M,
        hit_normal: Vec3M,
        incoming: Vec3M,
    ) -> ColorM;

    /// The outgoing color at a hit point lit by the scene's lights.
    fn calculate_rendering_equation(
        &self,
        scene: &Scene,
        current_depth: u16,
        hit_geometry: &Sphere,
        hit_position: &Vector3,
        hit_normal: &Vector3,
        incoming_direction: &Vector3,
    ) -> (c: Color3)
        requires
            self.mat_wf(),
            scene.wf(),
            self.can_shade(
                *scene,
                hit_position.model(),
                hit_normal.model(),
                incoming_direction.model(),
            ),
        ensures
            c.model() == self.rendering_model(
                *scene,
                hit_position.model(),
                hit_normal.model(),
                incoming_direction.model(),
            ),
    ;
}

} // verus!
