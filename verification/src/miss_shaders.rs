//! Miss shaders: the color source for rays that hit nothing.

pub mod constant_miss_shader;
pub mod miss_shader;
