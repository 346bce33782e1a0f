//! Core of a small ray-tracing engine: fixed-point vector math, ray/sphere
//! intersection, closest-hit selection over nested geometry collections, and
//! Phong shading with point and directional lights.
//!
//! All scalar quantities are fixed-point numbers: an `i128` holding the real
//! value scaled by `common::SCALE`. Every arithmetic step of the render path
//! is specified exactly over that representation, so the contracts below pin
//! down each computed color and distance bit for bit.

pub mod common;
pub mod geometries;
pub mod lights;
pub mod materials;
pub mod math;
pub mod miss_shaders;
pub mod scene;
pub mod scene_data;

use vstd::prelude::*;

verus! {

} // verus!
