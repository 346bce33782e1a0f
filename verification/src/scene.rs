//! The scene: material table, lights, miss shader and the root geometry, with
//! the two ray-cast entry points.
//!
//! Every call reads only immutable scene state and ray-local inputs, so rays
//! may be cast concurrently once the scene is built. Hits whose position
//! falls outside the representable shading volume, whose hit point coincides
//! with the sphere's center at fixed-point resolution, or whose material
//! index lies outside the table shade as a miss; well-formed scenes built by
//! the loader never take those branches.

use vstd::prelude::*;

verus! {

use crate::common::{Real, COORD_MAX};
use crate::geometries::geometry::Geometry;
use crate::geometries::intersectable::Intersectable;
use crate::geometries::intersectable_geometry::IntersectableGeometry;
use crate::geometries::ray::{Ray, RayM};
use crate::lights::light::Light;
use crate::materials::material::{Material, SHADE_POS_LIMIT};
use crate::materials::phong_material::PhongMaterial;
use crate::math::color3::{Color3, ColorM};
use crate::miss_shaders::constant_miss_shader::ConstantMissShader;
use crate::miss_shaders::miss_shader::MissShader;

/// Most lights a scene may hold (keeps the shading accumulator in range).
pub const LIGHTS_MAX: usize = 0xFFFF_FFFF;

/// A fully constructed, immutable scene: the single source of truth during a
/// render.
pub struct Scene {
    pub materials: Vec<PhongMaterial>,
    pub lights: Vec<Light>,
    pub miss_shader: ConstantMissShader,
    pub root_geometry: Intersectable,
}

impl Scene {
    /// What `new` establishes: every part of the scene well formed.
    pub open spec fn wf(self) -> bool {
        &&& self.root_geometry.node_wf()
        &&& self.lights@.len() <= LIGHTS_MAX as int
        &&& forall|i: int| 0 <= i < self.lights@.len() ==> (#[trigger] self.lights@[i]).wf()
        &&& forall|i: int|
            0 <= i < self.materials@.len() ==> (#[trigger] self.materials@[i]).wf()
    }

    pub fn new(
        materials: Vec<PhongMaterial>,
        lights: Vec<Light>,
        miss_shader: ConstantMissShader,
        root_geometry: Intersectable,
    ) -> (s: Scene)
        requires
            root_geometry.node_wf(),
            lights@.len() <= LIGHTS_MAX as int,
            forall|i: int| 0 <= i < lights@.len() ==> (#[trigger] lights@[i]).wf(),
            forall|i: int| 0 <= i < materials@.len() ==> (#[trigger] materials@[i]).wf(),
        ensures
            s.materials == materials,
            s.lights == lights,
            s.miss_shader == miss_shader,
            s.root_geometry == root_geometry,
            s.wf(),
    {
        Scene { materials, lights, miss_shader, root_geometry }
    }

    /// The color seen along a ray, as a function of the models: the nearest
    /// hit shaded by its material, or the miss shader's color.
    pub open spec fn color_model(self, ray: RayM) -> ColorM {
        match self.root_geometry.node_intersect(ray) {
            None => self.miss_shader.color.model(),
            Some(h) => {
                let hit_position = ray.position.plus(ray.direction.scaled(h.entrance));
                if !hit_position.bounded(SHADE_POS_LIMIT as int) {
                    self.miss_shader.color.model()
                } else {
                    let offset = hit_position.minus(h.sphere.center);
                    if offset.sq_len() < 1 {
                        self.miss_shader.color.model()
                    } else {
                        let index = match h.material_override {
                            Some(i) => i,
                            None => h.sphere.material_index,
                        };
                        if index < self.materials@.len() {
                            self.materials@[index].rendering_model(
                                self,
                                hit_position,
                                offset.normalized(),
                                ray.direction,
                            )
                        } else {
                            self.miss_shader.color.model()
                        }
                    }
                }
            },
        }
    }

    /// The entrance distance of the nearest hit, as a function of the models.
    pub open spec fn distance_model(self, ray: RayM) -> Option<int> {
        match self.root_geometry.node_intersect(ray) {
            None => None,
            Some(h) => Some(h.entrance),
        }
    }

    /// Intersects the ray against the root geometry; on a hit, shades it with
    /// the hit geometry's material (or the override), consulting the scene's
    /// lights; on a miss, delegates to the miss shader.
    pub fn cast_ray_color(&self, ray: &Ray) -> (c: Color3)
        requires
            self.wf(),
            ray.model().wf(),
        ensures
            c.model() == self.color_model(ray.model()),
    {
        match self.root_geometry.intersect_node(ray) {
            None => self.miss_shader.shade(ray),
            Some(hit) => {
                let along = ray.direction.scaled(hit.entrance_distance);
                proof {
                    crate::common::lemma_fmul_cap(
                        ray.model().direction.x,
                        hit.entrance_distance as int,
                        0x10_0000_0000,
                        0x1_0000_0000_0000_0000_0000,
                        0x10_0000_0000_0000_0000_0000_0000,
                    );
                    crate::common::lemma_fmul_cap(
                        ray.model().direction.y,
                        hit.entrance_distance as int,
                        0x10_0000_0000,
                        0x1_0000_0000_0000_0000_0000,
                        0x10_0000_0000_0000_0000_0000_0000,
                    );
                    crate::common::lemma_fmul_cap(
                        ray.model().direction.z,
                        hit.entrance_distance as int,
                        0x10_0000_0000,
                        0x1_0000_0000_0000_0000_0000,
                        0x10_0000_0000_0000_0000_0000_0000,
                    );
                }
                let hit_position = ray.position.plus(&along);
                if !hit_position.bounded_by(SHADE_POS_LIMIT) {
                    return self.miss_shader.shade(ray);
                }
                let offset = hit_position.minus(&hit.hit_geometry.center);
                let offset_sq: Real = offset.dot(&offset);
                if offset_sq < 1 {
                    return self.miss_shader.shade(ray);
                }
                let index: usize = match hit.material_index_override {
                    Some(i) => i,
                    None => hit.hit_geometry.material_index,
                };
                if index < self.materials.len() {
                    let normal = hit.hit_geometry.calculate_normal(ray, &hit_position);
                    let material = &self.materials[index];
                    material.calculate_rendering_equation(
                        self,
                        0,
                        &hit.hit_geometry,
                        &hit_position,
                        &normal,
                        ray.direction(),
                    )
                } else {
                    self.miss_shader.shade(ray)
                }
            },
        }
    }

    /// The distance to the nearest hit, or `None` when the ray misses: depth
    /// information without the cost of shading.
    pub fn cast_ray_distance(&self, ray: &Ray) -> (r: Option<Real>)
        requires
            self.wf(),
            ray.model().wf(),
        ensures
            match r {
                Some(d) => self.distance_model(ray.model()) == Some(d as int),
                None => self.distance_model(ray.model()) is None,
            },
    {
        match self.root_geometry.intersect_node(ray) {
            None => None,
            Some(hit) => Some(hit.entrance_distance),
        }
    }
}

/// A scene whose root is an empty collection answers every ray with exactly
/// the miss shader's color.
pub proof fn lemma_empty_scene_shades_miss(scene: Scene, ray: RayM)
    requires
        scene.root_geometry matches Intersectable::Collection(c) && c.children@.len() == 0,
    ensures
        scene.color_model(ray) == scene.miss_shader.color.model(),
        scene.distance_model(ray) is None,
{
}

} // verus!
