//! The constant miss shader: a fixed background color, ignoring the ray.

use vstd::prelude::*;

verus! {

use crate::geometries::ray::{Ray, RayM};
use crate::math::color3::{Color3, ColorM};
use crate::miss_shaders::miss_shader::MissShader;

/// A miss shader that always reports one color.
#[derive(Clone, Copy, Debug, PartialEq, Eq, Structural)]
pub struct ConstantMissShader {
    pub color: Color3,
}

impl ConstantMissShader {
    pub fn new(color: &Color3) -> (m: ConstantMissShader)
        ensures
            m.color == *color,
    {
        ConstantMissShader { color: *color }
    }
}

impl MissShader for ConstantMissShader {
    open spec fn shade_model(&self, ray: RayM) -> ColorM {
        self.color.model()
    }

    fn shade(&self, _ray: &Ray) -> (c: Color3)
    {
        self.color
    }
}

} // verus!
