//! Vector and color math over the engine's fixed-point scalar.

pub mod color3;
pub mod vector3;
