use yart_engine::common::SCALE;
use yart_engine::geometries::geometry::Geometry;
use yart_engine::geometries::geometry_collection::GeometryCollection;
use yart_engine::geometries::intersectable::Intersectable;
use yart_engine::geometries::intersectable_geometry::IntersectableGeometry;
use yart_engine::geometries::intersection::Intersection;
use yart_engine::geometries::ray::Ray;
use yart_engine::geometries::sphere::Sphere;
use yart_engine::math::vector3::{Vector3, Vector3T};

fn unit_sphere_at_origin(material_index: usize) -> Sphere {
    Sphere::new(Vector3T::new(0, 0, 0), SCALE, material_index)
}

// Sphere at the origin with radius one, ray from (0,0,5) toward -z: hit at
// entrance 4, exit 6, normal (0,0,1).
#[test]
fn axial_ray_hits_unit_sphere() {
    let sphere = unit_sphere_at_origin(0);
    let origin: Vector3 = Vector3T::new(0, 0, 5 * SCALE);
    let direction: Vector3 = Vector3T::new(0, 0, -SCALE);
    let ray = Ray::new(&origin, &direction);
    let hit = sphere.intersect(&ray).expect("the ray points at the sphere");
    assert_eq!(hit.entrance_distance, 4 * SCALE);
    assert_eq!(hit.exit_distance, 6 * SCALE);
    assert_eq!(hit.mix_amount, 0);
    assert!(hit.material_index_override.is_none());
    let hit_position: Vector3 = Vector3T::new(0, 0, SCALE);
    let normal = sphere.calculate_normal(&ray, &hit_position);
    assert_eq!((normal.x, normal.y, normal.z), (0, 0, SCALE));
}

// The two roots sum to twice the projection of the center onto the ray:
// 4 + 6 = 10 = 2 * 5 / 1.
#[test]
fn roots_are_symmetric_around_the_projection() {
    let sphere = unit_sphere_at_origin(0);
    let origin: Vector3 = Vector3T::new(0, 0, 5 * SCALE);
    let direction: Vector3 = Vector3T::new(0, 0, -SCALE);
    let ray = Ray::new(&origin, &direction);
    let hit = sphere.intersect(&ray).unwrap();
    assert_eq!(hit.entrance_distance + hit.exit_distance, 10 * SCALE);
}

// A ray starting outside the sphere and pointing away reports no hit.
#[test]
fn ray_pointing_away_misses() {
    let sphere = unit_sphere_at_origin(0);
    let origin: Vector3 = Vector3T::new(0, 0, 5 * SCALE);
    let away: Vector3 = Vector3T::new(0, 0, SCALE);
    assert!(sphere.intersect(&Ray::new(&origin, &away)).is_none());
    let sideways: Vector3 = Vector3T::new(0, 7 * SCALE, 3 * SCALE);
    assert!(sphere.intersect(&Ray::new(&origin, &sideways)).is_none());
}

#[test]
fn discriminant_below_zero_misses() {
    let sphere = unit_sphere_at_origin(0);
    let origin: Vector3 = Vector3T::new(0, 3 * SCALE, 5 * SCALE);
    let direction: Vector3 = Vector3T::new(0, 0, -SCALE);
    assert!(sphere.intersect(&Ray::new(&origin, &direction)).is_none());
}

// Origin inside the sphere: the entrance is clamped to zero and the exit is
// the forward root.
#[test]
fn ray_from_inside_reports_entrance_zero() {
    let sphere = unit_sphere_at_origin(0);
    let origin: Vector3 = Vector3T::new(0, 0, 0);
    let direction: Vector3 = Vector3T::new(0, 0, -SCALE);
    let hit = sphere.intersect(&Ray::new(&origin, &direction)).unwrap();
    assert_eq!(hit.entrance_distance, 0);
    assert_eq!(hit.exit_distance, SCALE);
}

// The collection returns the closest child hit, and misses only when every
// child misses.
#[test]
fn collection_selects_the_closest_hit() {
    let near = Sphere::new(Vector3T::new(0, 0, 2 * SCALE), SCALE, 1);
    let far = Sphere::new(Vector3T::new(0, 0, -4 * SCALE), SCALE, 2);
    let collection = GeometryCollection::new(vec![
        Intersectable::Sphere(far),
        Intersectable::Sphere(near),
    ]);
    let origin: Vector3 = Vector3T::new(0, 0, 5 * SCALE);
    let direction: Vector3 = Vector3T::new(0, 0, -SCALE);
    let hit = collection.intersect(&Ray::new(&origin, &direction)).unwrap();
    assert_eq!(hit.hit_geometry.material_index, 1);
    assert_eq!(hit.entrance_distance, 2 * SCALE);

    let up: Vector3 = Vector3T::new(0, SCALE, 0);
    assert!(collection.intersect(&Ray::new(&origin, &up)).is_none());
}

// Two children at identical entrance distances: the first one wins, on every
// call.
#[test]
fn collection_tie_break_is_first_wins() {
    let first = Sphere::new(Vector3T::new(0, 0, 0), SCALE, 7);
    let second = Sphere::new(Vector3T::new(0, 0, 0), SCALE, 8);
    let collection = GeometryCollection::new(vec![
        Intersectable::Sphere(first),
        Intersectable::Sphere(second),
    ]);
    let origin: Vector3 = Vector3T::new(0, 0, 5 * SCALE);
    let direction: Vector3 = Vector3T::new(0, 0, -SCALE);
    let ray = Ray::new(&origin, &direction);
    for _ in 0..3 {
        let hit = collection.intersect(&ray).unwrap();
        assert_eq!(hit.hit_geometry.material_index, 7);
    }
}

// Collections nest: a collection inside a collection still reports the
// globally closest hit.
#[test]
fn nested_collections_report_the_global_closest() {
    let near = Sphere::new(Vector3T::new(0, 0, 2 * SCALE), SCALE, 1);
    let far = Sphere::new(Vector3T::new(0, 0, -4 * SCALE), SCALE, 2);
    let inner = GeometryCollection::new(vec![Intersectable::Sphere(near)]);
    let outer = GeometryCollection::new(vec![
        Intersectable::Sphere(far),
        Intersectable::Collection(inner),
    ]);
    let origin: Vector3 = Vector3T::new(0, 0, 5 * SCALE);
    let direction: Vector3 = Vector3T::new(0, 0, -SCALE);
    let hit = outer.intersect(&Ray::new(&origin, &direction)).unwrap();
    assert_eq!(hit.hit_geometry.material_index, 1);
}

#[test]
fn ray_caches_the_reciprocal_direction() {
    let origin: Vector3 = Vector3T::new(SCALE, 2 * SCALE, 3 * SCALE);
    let direction: Vector3 = Vector3T::new(2 * SCALE, 0, -4 * SCALE);
    let ray = Ray::new(&origin, &direction);
    assert_eq!(ray.position().z, 3 * SCALE);
    assert_eq!(ray.direction().x, 2 * SCALE);
    let inv = ray.inverse_direction();
    assert_eq!((inv.x, inv.y, inv.z), (SCALE / 2, 0, -SCALE / 4));

    let custom_inverse: Vector3 = Vector3T::new(1, 2, 3);
    let ray2 = Ray::new2(&origin, &direction, &custom_inverse);
    assert_eq!(ray2.inverse_direction().y, 2);
}

#[test]
fn intersection_new_keeps_its_fields() {
    let sphere = unit_sphere_at_origin(3);
    let hit = Intersection::new(sphere, 4 * SCALE, 6 * SCALE, 0, Some(5));
    assert_eq!(hit.hit_geometry.material_index, 3);
    assert_eq!(hit.entrance_distance, 4 * SCALE);
    assert_eq!(hit.exit_distance, 6 * SCALE);
    assert_eq!(hit.material_index_override, Some(5));
    assert_eq!(sphere.get_material(), 3);
}

// Normals stay near unit length anywhere on the surface, not only on axes.
#[test]
fn sphere_normals_are_near_unit_everywhere() {
    let sphere = Sphere::new(Vector3T::new(SCALE, -2 * SCALE, 3 * SCALE), 2 * SCALE, 0);
    let origin: Vector3 = Vector3T::new(0, 0, 9 * SCALE);
    let direction: Vector3 = Vector3T::new(11695, -23391, -58479);
    let ray = Ray::new(&origin, &direction);
    let positions: Vec<Vector3> = vec![
        Vector3T::new(3 * SCALE, -2 * SCALE, 3 * SCALE),
        Vector3T::new(SCALE + 75263, -2 * SCALE + 123139, 3 * SCALE + 98765),
        Vector3T::new(SCALE - 131072, -2 * SCALE, 3 * SCALE),
    ];
    for hit_position in positions {
        let n = sphere.calculate_normal(&ray, &hit_position);
        let sq: i128 = n.dot(&n);
        assert!((sq - SCALE).abs() <= 16, "squared length {sq}");
    }
}
