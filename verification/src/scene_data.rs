//! A loose bundle of scene parts, as handed around during scene assembly
//! before a `Scene` is built.

use vstd::prelude::*;

verus! {

use crate::geometries::intersectable::Intersectable;
use crate::lights::light::Light;

/// Geometry and lights collected by a loader, not yet frozen into a `Scene`.
pub struct SceneData {
    pub geometries: Vec<Intersectable>,
    pub lights: Vec<Light>,
}

} // verus!
