//! Light sources: point and directional variants.

pub mod directional_light;
pub mod light;
pub mod point_light;
