//! Materials: the illumination model applied at a hit point.

pub mod material;
pub mod phong_material;
