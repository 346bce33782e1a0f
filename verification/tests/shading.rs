use yart_engine::common::SCALE;
use yart_engine::geometries::geometry_collection::GeometryCollection;
use yart_engine::geometries::intersectable::Intersectable;
use yart_engine::geometries::ray::Ray;
use yart_engine::geometries::sphere::Sphere;
use yart_engine::lights::directional_light::DirectionalLight;
use yart_engine::lights::light::Light;
use yart_engine::lights::point_light::PointLight;
use yart_engine::materials::phong_material::PhongMaterial;
use yart_engine::math::color3::Color3;
use yart_engine::math::vector3::{Vector3, Vector3T};
use yart_engine::miss_shaders::constant_miss_shader::ConstantMissShader;
use yart_engine::scene::Scene;
use yart_engine::scene_data::SceneData;

fn gray_phong() -> PhongMaterial {
    PhongMaterial::new(
        &Color3::from_value(SCALE / 10),
        &Color3::from_value(SCALE / 2),
        &Color3::from_value(0),
        8,
    )
}

fn axial_ray() -> Ray {
    let origin: Vector3 = Vector3T::new(0, 0, 5 * SCALE);
    let direction: Vector3 = Vector3T::new(0, 0, -SCALE);
    Ray::new(&origin, &direction)
}

fn scene_with(lights: Vec<Light>, children: Vec<Intersectable>) -> Scene {
    Scene::new(
        vec![gray_phong()],
        lights,
        ConstantMissShader::new(&Color3::from_value(13107)),
        Intersectable::Collection(GeometryCollection::new(children)),
    )
}

// An empty collection in front of a constant miss shader of 0.2 gray: every
// ray sees exactly that gray.
#[test]
fn empty_scene_returns_the_miss_color() {
    let scene = scene_with(vec![], vec![]);
    let color = scene.cast_ray_color(&axial_ray());
    assert_eq!((color.r, color.g, color.b), (13107, 13107, 13107));
    assert!(scene.cast_ray_distance(&axial_ray()).is_none());

    let elsewhere: Vector3 = Vector3T::new(3 * SCALE, -7 * SCALE, SCALE);
    let skew: Vector3 = Vector3T::new(SCALE, SCALE, SCALE);
    let other = scene.cast_ray_color(&Ray::new(&elsewhere, &skew));
    assert_eq!((other.r, other.g, other.b), (13107, 13107, 13107));
}

// With no lights at all, a hit shades to exactly the material's ambient
// color.
#[test]
fn shading_without_lights_is_the_ambient_color() {
    let sphere = Sphere::new(Vector3T::new(0, 0, 0), SCALE, 0);
    let scene = scene_with(vec![], vec![Intersectable::Sphere(sphere)]);
    let color = scene.cast_ray_color(&axial_ray());
    assert_eq!((color.r, color.g, color.b), (SCALE / 10, SCALE / 10, SCALE / 10));
    assert_eq!(scene.cast_ray_distance(&axial_ray()), Some(4 * SCALE));
}

// A point light behind the surface contributes nothing, whatever its color.
#[test]
fn light_behind_the_surface_contributes_nothing() {
    let sphere = Sphere::new(Vector3T::new(0, 0, 0), SCALE, 0);
    let behind = Light::Point(PointLight::new(
        &Color3::from_value(1000 * SCALE),
        &Vector3T::new(0, 0, -6 * SCALE),
    ));
    let scene = scene_with(vec![behind], vec![Intersectable::Sphere(sphere)]);
    let color = scene.cast_ray_color(&axial_ray());
    assert_eq!((color.r, color.g, color.b), (SCALE / 10, SCALE / 10, SCALE / 10));
}

// A lit surface point shades strictly brighter than ambient; placing a
// sphere between the light and the point removes that light's contribution
// entirely.
#[test]
fn occluder_between_light_and_surface_casts_a_shadow() {
    let surface = Sphere::new(Vector3T::new(0, 0, 0), SCALE, 0);
    let light = Light::Point(PointLight::new(
        &Color3::from_value(SCALE),
        &Vector3T::new(5 * SCALE, 0, 5 * SCALE),
    ));
    let blocker = Sphere::new(Vector3T::new(5 * SCALE / 2, 0, 3 * SCALE), SCALE, 0);

    let unblocked = scene_with(vec![light], vec![Intersectable::Sphere(surface)]);
    let lit = unblocked.cast_ray_color(&axial_ray());
    assert!(lit.r > SCALE / 10, "diffuse contribution expected, got {}", lit.r);

    let blocked = scene_with(
        vec![light],
        vec![Intersectable::Sphere(surface), Intersectable::Sphere(blocker)],
    );
    let shadowed = blocked.cast_ray_color(&axial_ray());
    assert_eq!(
        (shadowed.r, shadowed.g, shadowed.b),
        (SCALE / 10, SCALE / 10, SCALE / 10),
    );
}

// An all-black Phong material with shininess zero shades black under any
// lights.
#[test]
fn black_material_shades_black() {
    let black = PhongMaterial::new(
        &Color3::from_value(0),
        &Color3::from_value(0),
        &Color3::from_value(0),
        0,
    );
    let sphere = Sphere::new(Vector3T::new(0, 0, 0), SCALE, 0);
    let point = Light::Point(PointLight::new(
        &Color3::from_value(500 * SCALE),
        &Vector3T::new(0, 3 * SCALE, 5 * SCALE),
    ));
    let directional = Light::Directional(DirectionalLight::new(
        &Color3::from_value(200 * SCALE),
        &Vector3T::new(0, 0, -SCALE),
    ));
    let scene = Scene::new(
        vec![black],
        vec![point, directional],
        ConstantMissShader::new(&Color3::from_value(13107)),
        Intersectable::Collection(GeometryCollection::new(vec![Intersectable::Sphere(sphere)])),
    );
    let color = scene.cast_ray_color(&axial_ray());
    assert_eq!((color.r, color.g, color.b), (0, 0, 0));
}

// A directional light shining along the view ray lights the facing surface;
// the light supplies its direction and color through the Light capability.
#[test]
fn directional_light_lights_the_facing_side() {
    let sphere = Sphere::new(Vector3T::new(0, 0, 0), SCALE, 0);
    let directional = Light::Directional(DirectionalLight::new(
        &Color3::from_value(SCALE),
        &Vector3T::new(0, 0, -SCALE),
    ));
    let scene = scene_with(vec![directional], vec![Intersectable::Sphere(sphere)]);
    let color = scene.cast_ray_color(&axial_ray());
    // Diffuse: 0.5 * 1.0 * (n . l) with n = l = +z, so exactly half above
    // ambient.
    assert_eq!(color.r, SCALE / 10 + SCALE / 2);
}

#[test]
fn light_capability_reports_direction_color_and_distance() {
    let point = Light::Point(PointLight::new(
        &Color3::new(SCALE, 2 * SCALE, 3 * SCALE),
        &Vector3T::new(0, 4 * SCALE, 0),
    ));
    let at: Vector3 = Vector3T::new(0, 0, 0);
    let dir = point.get_direction_from(&at);
    assert_eq!((dir.x, dir.y, dir.z), (0, SCALE, 0));
    let color = point.get_color_at(&at);
    assert_eq!(color.g, 2 * SCALE);
    assert_eq!(point.distance_from(&at), Some(4 * SCALE));

    let directional = Light::Directional(DirectionalLight::new(
        &Color3::from_value(SCALE),
        &Vector3T::new(0, 0, -SCALE),
    ));
    let dir = directional.get_direction_from(&at);
    assert_eq!((dir.x, dir.y, dir.z), (0, 0, SCALE));
    assert!(directional.distance_from(&at).is_none());
}

#[test]
fn scene_data_bundles_geometry_and_lights() {
    let sphere = Sphere::new(Vector3T::new(0, 0, 0), SCALE, 0);
    let light = Light::Point(PointLight::new(
        &Color3::from_value(SCALE),
        &Vector3T::new(0, 4 * SCALE, 0),
    ));
    let data = SceneData { geometries: vec![Intersectable::Sphere(sphere)], lights: vec![light] };
    assert_eq!(data.geometries.len(), 1);
    assert_eq!(data.lights.len(), 1);
}
