//! Geometric primitives, rays, intersections, and the aggregate collection
//! that selects the closest hit.

pub mod geometry;
pub mod geometry_collection;
pub mod intersectable;
pub mod intersectable_geometry;
pub mod intersection;
pub mod ray;
pub mod sphere;
