//! A directional light: a direction of travel and a color, with constant
//! intensity everywhere.

use vstd::prelude::*;

verus! {

use crate::common::COORD_MAX;
use crate::math::color3::Color3;
use crate::math::vector3::Vector3;

/// A directional light, immutable after construction. The stored direction is
/// the direction the light travels; shading negates it to point toward the
/// light.
#[derive(Clone, Copy, Debug, PartialEq, Eq, Structural)]
pub struct DirectionalLight {
    pub direction: Vector3,
    pub color: Color3,
}

impl DirectionalLight {
    /// What `new` establishes: a usable (not effectively zero) direction.
    pub open spec fn wf(self) -> bool {
        &&& self.direction.model().bounded(COORD_MAX as int)
        &&& self.direction.model().sq_len() >= 1
        &&& self.color.model().bounded(COORD_MAX as int)
    }

    pub fn new(color: &Color3, direction: &Vector3) -> (l: DirectionalLight)
        requires
            direction.model().bounded(COORD_MAX as int),
            direction.model().sq_len() >= 1,
            color.model().bounded(COORD_MAX as int),
        ensures
            l.direction == *direction,
            l.color == *color,
            l.wf(),
    {
        DirectionalLight { direction: *direction, color: *color }
    }
}

} // verus!
