//! A point light: a position and a color. Its intensity is
//! distance-independent (no falloff), which is this engine's documented
//! attenuation choice.

use vstd::prelude::*;

verus! {

use crate::common::COORD_MAX;
use crate::math::color3::Color3;
use crate::math::vector3::Vector3;

/// A point light, immutable after construction.
#[derive(Clone, Copy, Debug, PartialEq, Eq, Structural)]
pub struct PointLight {
    pub position: Vector3,
    pub color: Color3,
}

impl PointLight {
    /// What `new` establishes.
    pub open spec fn wf(self) -> bool {
        &&& self.position.model().bounded(COORD_MAX as int)
        &&& self.color.model().bounded(COORD_MAX as int)
    }

    pub fn new(color: &Color3, position: &Vector3) -> (l: PointLight)
        requires
            position.model().bounded(COORD_MAX as int),
            color.model().bounded(COORD_MAX as int),
        ensures
            l.position == *position,
            l.color == *color,
            l.wf(),
    {
        PointLight { position: *position, color: *color }
    }
}

} // verus!
