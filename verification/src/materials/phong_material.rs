//! The Phong material: ambient plus, for each unshadowed light, a diffuse
//! term and a specular term.
//!
//! Conventions, stated here once: point lights shine with their full color at
//! any distance (no falloff); the shadow ray starts a small bias along the
//! light direction to step off the surface; a light is occluded when the
//! shadow ray hits anything nearer than the light (any hit at all for
//! directional lights); the specular cosine is clamped to `[0, 1]` before
//! exponentiation; and the shininess exponent is a whole number.

use vstd::prelude::*;

verus! {

use crate::common::{
    fmul, lemma_fmul_cap, spec_pow_fixed, pow_fixed, Real, COORD_MAX, SCALE,
};
use crate::geometries::intersectable::Intersectable;
use crate::geometries::ray::{Ray, RayM};
use crate::geometries::sphere::Sphere;
use crate::lights::light::Light;
use crate::materials::material::{Material, SHADE_POS_LIMIT, TERM_LIMIT};
use crate::math::color3::{black, Color3, ColorM};
use crate::math::vector3::{lemma_dot_cap, Vec3M, Vector3};
use crate::scene::Scene;

/// How far a shadow ray's origin steps toward the light before the occlusion
/// test, to avoid re-hitting the surface it starts on.
pub const SHADOW_BIAS: i128 = 4096;

/// A Phong material: three reflectance colors and a shininess exponent.
/// Stateless; many geometries may share one instance.
#[derive(Clone, Copy, Debug, PartialEq, Eq, Structural)]
pub struct PhongMaterial {
    pub ambient_color: Color3,
    pub diffuse_color: Color3,
    pub specular_color: Color3,
    pub shininess: u32,
}

/// The shadow ray cast from a hit point toward a light.
pub open spec fn shadow_ray_m(hit_position: Vec3M, light_dir: Vec3M) -> RayM {
    RayM {
        position: hit_position.plus(light_dir.scaled(SHADOW_BIAS as int)),
        direction: light_dir,
        inverse_direction: light_dir.recip(),
    }
}

/// Whether `light` is occluded at `hit_position`: the shadow ray hits
/// something nearer than the light (anything at all for directional lights).
pub open spec fn spec_shadowed(scene: Scene, light: Light, hit_position: Vec3M, light_dir: Vec3M) -> bool {
    match scene.root_geometry.node_intersect(shadow_ray_m(hit_position, light_dir)) {
        None => false,
        Some(h) => match light.dist_from(hit_position) {
            None => true,
            Some(d) => h.entrance < d,
        },
    }
}

/// One light's contribution to the Phong sum: zero when the light is occluded
/// or behind the surface, else diffuse plus specular.
pub open spec fn light_term(
    m: PhongMaterial,
    scene: Scene,
    light: Light,
    hit_position: Vec3M,
    hit_normal: Vec3M,
    incoming: Vec3M,
) -> ColorM {
    let ldir = light.dir_from(hit_position);
    if spec_shadowed(scene, light, hit_position, ldir) {
        black()
    } else {
        let ndotl = hit_normal.dot(ldir);
        if ndotl <= 0 {
            black()
        } else {
            let diffuse = m.diffuse_color.model().modulate(light.color_m()).scaled(ndotl);
            let refl = hit_normal.scaled(2 * ndotl).minus(ldir);
            let sdot = refl.dot(incoming.neg());
            let sclamped = if sdot < 0 {
                0
            } else if sdot > SCALE as int {
                SCALE as int
            } else {
                sdot
            };
            let specular = m.specular_color.model().modulate(light.color_m()).scaled(
                spec_pow_fixed(sclamped, m.shininess as nat),
            );
            diffuse.plus(specular)
        }
    }
}

/// Contributions of the first `k` lights of the scene, accumulated in order.
pub open spec fn light_sum(
    m: PhongMaterial,
    scene: Scene,
    hit_position: Vec3M,
    hit_normal: Vec3M,
    incoming: Vec3M,
    k: int,
) -> ColorM
    decreases k,
{
    if k <= 0 {
        black()
    } else {
        light_sum(m, scene, hit_position, hit_normal, incoming, k - 1).plus(
            light_term(m, scene, scene.lights@[k - 1], hit_position, hit_normal, incoming),
        )
    }
}

/// Phong shading with zero lights returns exactly the material's ambient
/// color.
pub proof fn lemma_shade_without_lights(
    m: PhongMaterial,
    scene: Scene,
    hit_position: Vec3M,
    hit_normal: Vec3M,
    incoming: Vec3M,
)
    requires
        scene.lights@.len() == 0,
    ensures
        m.rendering_model(scene, hit_position, hit_normal, incoming)
            == m.ambient_color.model(),
{
}

/// A light behind the surface (its direction against the normal has a
/// nonpositive dot product) contributes nothing, whatever its color.
pub proof fn lemma_light_behind_contributes_nothing(
    m: PhongMaterial,
    scene: Scene,
    light: Light,
    hit_position: Vec3M,
    hit_normal: Vec3M,
    incoming: Vec3M,
)
    requires
        hit_normal.dot(light.dir_from(hit_position)) <= 0,
    ensures
        light_term(m, scene, light, hit_position, hit_normal, incoming) == black(),
{
}

/// A Phong material whose three reflectance colors are all black shades every
/// hit black, under any lights and any shininess.
pub proof fn lemma_black_material_shades_black(
    m: PhongMaterial,
    scene: Scene,
    hit_position: Vec3M,
    hit_normal: Vec3M,
    incoming: Vec3M,
)
    requires
        m.ambient_color.model() == black(),
        m.diffuse_color.model() == black(),
        m.specular_color.model() == black(),
    ensures
        m.rendering_model(scene, hit_position, hit_normal, incoming) == black(),
{
    lemma_black_material_sum(m, scene, hit_position, hit_normal, incoming, scene.lights@.len() as int);
}

/// Every partial light sum of an all-black material is black.
proof fn lemma_black_material_sum(
    m: PhongMaterial,
    scene: Scene,
    hit_position: Vec3M,
    hit_normal: Vec3M,
    incoming: Vec3M,
    k: int,
)
    requires
        m.diffuse_color.model() == black(),
        m.specular_color.model() == black(),
    ensures
        light_sum(m, scene, hit_position, hit_normal, incoming, k) == black(),
    decreases k,
{
    if k > 0 {
        lemma_black_material_sum(m, scene, hit_position, hit_normal, incoming, k - 1);
        let light = scene.lights@[k - 1];
        let ldir = light.dir_from(hit_position);
        let ndotl = hit_normal.dot(ldir);
        lemma_fmul_zero(light.color_m().r);
        lemma_fmul_zero(light.color_m().g);
        lemma_fmul_zero(light.color_m().b);
        lemma_fmul_zero(ndotl);
        lemma_fmul_zero(spec_pow_fixed(
            clamped_cosine(hit_normal, ldir, incoming, ndotl),
            m.shininess as nat,
        ));
    }
}

/// The specular cosine after clamping, named so proofs can speak of it.
pub open spec fn clamped_cosine(hit_normal: Vec3M, ldir: Vec3M, incoming: Vec3M, ndotl: int) -> int {
    let refl = hit_normal.scaled(2 * ndotl).minus(ldir);
    let sdot = refl.dot(incoming.neg());
    if sdot < 0 {
        0
    } else if sdot > SCALE as int {
        SCALE as int
    } else {
        sdot
    }
}

/// Zero times anything is zero, in fixed point too.
pub proof fn lemma_fmul_zero(x: int)
    ensures
        fmul(0, x) == 0,
{
    assert(0 * x == 0) by (nonlinear_arith);
    assert((0int) / (SCALE as int) == 0) by {
        vstd::arithmetic::div_mod::lemma_div_of0(SCALE as int);
    }
}

impl PhongMaterial {
    /// What `new` establishes: reflectance colors in the scene range.
    pub open spec fn wf(self) -> bool {
        &&& self.ambient_color.model().bounded(COORD_MAX as int)
        &&& self.diffuse_color.model().bounded(COORD_MAX as int)
        &&& self.specular_color.model().bounded(COORD_MAX as int)
    }

    pub fn new(
        ambient_color: &Color3,
        diffuse_color: &Color3,
        specular_color: &Color3,
        shininess: u32,
    ) -> (m: PhongMaterial)
        requires
            ambient_color.model().bounded(COORD_MAX as int),
            diffuse_color.model().bounded(COORD_MAX as int),
            specular_color.model().bounded(COORD_MAX as int),
        ensures
            m.ambient_color == *ambient_color,
            m.diffuse_color == *diffuse_color,
            m.specular_color == *specular_color,
            m.shininess == shininess,
            m.mat_wf(),
    {
        PhongMaterial {
            ambient_color: *ambient_color,
            diffuse_color: *diffuse_color,
            specular_color: *specular_color,
            shininess,
        }
    }

    /// One light's contribution, as `light_term` states it.
    fn light_contribution(
        &self,
        scene: &Scene,
        light: &Light,
        hit_position: &Vector3,
        hit_normal: &Vector3,
        incoming_direction: &Vector3,
    ) -> (c: Color3)
        requires
            self.mat_wf(),
            scene.wf(),
            light.wf(),
            hit_position.model().bounded(SHADE_POS_LIMIT as int),
            hit_normal.model().bounded(3 * SCALE as int),
            incoming_direction.model().bounded(COORD_MAX as int),
        ensures
            c.model() == light_term(
                *self,
                *scene,
                *light,
                hit_position.model(),
                hit_normal.model(),
                incoming_direction.model(),
            ),
            c.model().bounded(TERM_LIMIT as int),
    {
        let ldir = light.get_direction_from(hit_position);
        let bias = ldir.scaled(SHADOW_BIAS);
        proof {
            lemma_fmul_cap(ldir.model().x, SHADOW_BIAS as int, 196608, 4096, 12288);
            lemma_fmul_cap(ldir.model().y, SHADOW_BIAS as int, 196608, 4096, 12288);
            lemma_fmul_cap(ldir.model().z, SHADOW_BIAS as int, 196608, 4096, 12288);
        }
        let shadow_origin = hit_position.plus(&bias);
        let shadow_ray = Ray::new(&shadow_origin, &ldir);
        let occluder = scene.root_geometry.intersect_node(&shadow_ray);
        let shadowed: bool = match occluder {
            None => false,
            Some(h) => match light.distance_from(hit_position) {
                None => true,
                Some(d) => h.entrance_distance < d,
            },
        };
        proof {
            assert(shadow_ray.model() == shadow_ray_m(hit_position.model(), ldir.model()));
            assert(shadowed == spec_shadowed(
                *scene,
                *light,
                hit_position.model(),
                ldir.model(),
            ));
        }
        if shadowed {
            return Color3::from_value(0);
        }
        let ndotl: Real = hit_normal.dot(&ldir);
        proof {
            lemma_dot_cap(hit_normal.model(), ldir.model(), 196608, 589824);
        }
        if ndotl <= 0 {
            return Color3::from_value(0);
        }
        let lcolor = light.get_color_at(hit_position);
        proof {
            assert(light.color_m().bounded(COORD_MAX as int));
        }
        let filtered_diffuse = self.diffuse_color.modulate(&lcolor);
        proof {
            lemma_fmul_cap(
                self.diffuse_color.model().r,
                lcolor.model().r,
                0x10_0000_0000,
                0x10_0000_0000,
                0x100_0000_0000_0000,
            );
            lemma_fmul_cap(
                self.diffuse_color.model().g,
                lcolor.model().g,
                0x10_0000_0000,
                0x10_0000_0000,
                0x100_0000_0000_0000,
            );
            lemma_fmul_cap(
                self.diffuse_color.model().b,
                lcolor.model().b,
                0x10_0000_0000,
                0x10_0000_0000,
                0x100_0000_0000_0000,
            );
        }
        let diffuse = filtered_diffuse.scaled(ndotl);
        proof {
            lemma_fmul_cap(
                filtered_diffuse.model().r,
                ndotl as int,
                0x100_0000_0000_0001,
                1769475,
                1_950_000_000_000_000_000,
            );
            lemma_fmul_cap(
                filtered_diffuse.model().g,
                ndotl as int,
                0x100_0000_0000_0001,
                1769475,
                1_950_000_000_000_000_000,
            );
            lemma_fmul_cap(
                filtered_diffuse.model().b,
                ndotl as int,
                0x100_0000_0000_0001,
                1769475,
                1_950_000_000_000_000_000,
            );
        }
        let two_ndotl: Real = 2 * ndotl;
        let scaled_normal = hit_normal.scaled(two_ndotl);
        proof {
            lemma_fmul_cap(hit_normal.model().x, two_ndotl as int, 196608, 3538950, 10617000);
            lemma_fmul_cap(hit_normal.model().y, two_ndotl as int, 196608, 3538950, 10617000);
            lemma_fmul_cap(hit_normal.model().z, two_ndotl as int, 196608, 3538950, 10617000);
        }
        let refl = scaled_normal.minus(&ldir);
        let negin = incoming_direction.neg();
        let sdot: Real = refl.dot(&negin);
        let sclamped: Real = if sdot < 0 {
            0
        } else if sdot > SCALE {
            SCALE
        } else {
            sdot
        };
        let glint = pow_fixed(sclamped, self.shininess);
        let filtered_specular = self.specular_color.modulate(&lcolor);
        proof {
            lemma_fmul_cap(
                self.specular_color.model().r,
                lcolor.model().r,
                0x10_0000_0000,
                0x10_0000_0000,
                0x100_0000_0000_0000,
            );
            lemma_fmul_cap(
                self.specular_color.model().g,
                lcolor.model().g,
                0x10_0000_0000,
                0x10_0000_0000,
                0x100_0000_0000_0000,
            );
            lemma_fmul_cap(
                self.specular_color.model().b,
                lcolor.model().b,
                0x10_0000_0000,
                0x10_0000_0000,
                0x100_0000_0000_0000,
            );
        }
        let specular = filtered_specular.scaled(glint);
        proof {
            lemma_fmul_cap(
                filtered_specular.model().r,
                glint as int,
                0x100_0000_0000_0001,
                65536,
                0x100_0000_0000_0001,
            );
            lemma_fmul_cap(
                filtered_specular.model().g,
                glint as int,
                0x100_0000_0000_0001,
                65536,
                0x100_0000_0000_0001,
            );
            lemma_fmul_cap(
                filtered_specular.model().b,
                glint as int,
                0x100_0000_0000_0001,
                65536,
                0x100_0000_0000_0001,
            );
        }
        diffuse.plus(&specular)
    }
}

impl Material for PhongMaterial {
    open spec fn mat_wf(&self) -> bool {
        self.wf()
    }

    open spec fn can_shade(&self, scene: Scene, hit_position: Vec3M, hit_normal: Vec3M, incoming: Vec3M) -> bool {
        &&& hit_position.bounded(SHADE_POS_LIMIT as int)
        &&& hit_normal.bounded(3 * SCALE as int)
        &&& incoming.bounded(COORD_MAX as int)
    }

    open spec fn rendering_model(
        &self,
        scene: Scene,
        hit_position: Vec3M,
        hit_normal: Vec3M,
        incoming: Vec3M,
    ) -> ColorM {
        self.ambient_color.model().plus(
            light_sum(
                *self,
                scene,
                hit_position,
                hit_normal,
                incoming,
                scene.lights@.len() as int,
            ),
        )
    }

    fn calculate_rendering_equation(
        &self,
        scene: &Scene,
        _current_depth: u16,
        _hit_geometry: &Sphere,
        hit_position: &Vector3,
        hit_normal: &Vector3,
        incoming_direction: &Vector3,
    ) -> (c: Color3)
    {
        let mut color = self.ambient_color;
        let mut i: usize = 0;
        while i < scene.lights.len()
            invariant
                i <= scene.lights@.len(),
                self.mat_wf(),
                scene.wf(),
                hit_position.model().bounded(SHADE_POS_LIMIT as int),
                hit_normal.model().bounded(3 * SCALE as int),
                incoming_direction.model().bounded(COORD_MAX as int),
                color.model().bounded(COORD_MAX as int + i as int * TERM_LIMIT as int),
                color.model() == self.ambient_color.model().plus(
                    light_sum(
                        *self,
                        *scene,
                        hit_position.model(),
                        hit_normal.model(),
                        incoming_direction.model(),
                        i as int,
                    ),
                ),
            decreases scene.lights@.len() - i,
        {
            proof {
                assert(scene.lights@[i as int].wf());
            }
            let light = &scene.lights[i];
            let term = self.light_contribution(
                scene,
                light,
                hit_position,
                hit_normal,
                incoming_direction,
            );
            color = color.plus(&term);
            i = i + 1;
        }
        color
    }
}

} // verus!
