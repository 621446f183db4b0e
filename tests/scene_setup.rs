use std::sync::Arc;

use lux::geom::{parallel, Color, Vec3};
use lux::render::{nearest_hit, plan_trace, ShadePlan, Step, MAX_ITER};
use lux::scene::{test_world, Camera, World};
use lux::shape::{
    Cylinder, DirectionLight, Light, Lobe, Material, Plane, PointLight, SceneError, Shape, Sphere,
};

fn grey() -> Color {
    Color::new(500_000, 500_000, 500_000)
}

#[test]
fn material_presets() {
    let c = Color::new(1_000_000, 0, 0);
    let m = Material::lambertian(c);
    assert_eq!((m.matte_intensity, m.glossy_intensity, m.trans_intensity), (1_000_000, 0, 0));
    assert_eq!(m.matte_color, c);
    let m = Material::reflective(c);
    assert_eq!((m.matte_intensity, m.glossy_intensity, m.trans_intensity), (100_000, 900_000, 0));
    assert_eq!(m.glossy_lobe, Lobe::Mirror);
    assert_eq!(m.matte_color, Color::black());
    assert_eq!(m.glossy_color, c);
    let m = Material::glossy(c, 50_000_000);
    assert_eq!(m.glossy_lobe, Lobe::Phong(50_000_000));
    assert_eq!((m.matte_intensity, m.glossy_intensity), (100_000, 900_000));
    let m = Material::transparent(c, 1_500_000);
    assert_eq!((m.matte_intensity, m.glossy_intensity, m.trans_intensity), (50_000, 0, 950_000));
    assert_eq!(m.trans_eta, 1_500_000);
}

#[test]
fn zero_directions_are_refused() {
    let m = Arc::new(Material::lambertian(grey()));
    let zero = Vec3::new(0, 0, 0);
    assert_eq!(
        Cylinder::new(zero, zero, 1, 1, m.clone()).err(),
        Some(SceneError::ZeroVector)
    );
    let cyl = Cylinder::new(zero, Vec3::new(0, 2_000_000, 0), 550_000, 750_000, m).unwrap();
    assert_eq!(cyl.axis, Vec3::new(0, 2_000_000, 0));
    assert_eq!(cyl.height, 750_000);
    assert_eq!(DirectionLight::new(zero, grey()).err(), Some(SceneError::ZeroVector));
    let light = DirectionLight::new(Vec3::new(1_000_000, -1_000_000, 0), grey()).unwrap();
    assert_eq!(light.direction, Vec3::new(1_000_000, -1_000_000, 0));
}

#[test]
fn world_collects_shapes_and_lights() {
    let mut world = World::new(grey());
    assert!(world.objects.is_empty() && world.lights.is_empty());
    let m = Arc::new(Material::lambertian(grey()));
    world.add_shape(Shape::Sphere(Sphere::new(Vec3::new(0, 0, 0), 1_000_000, m.clone())));
    world.add_shape(Shape::Plane(Plane::new(Vec3::new(0, 1_000_000, 0), 0, m)));
    let mut light = Light::Point(PointLight::new(Vec3::new(0, 5_000_000, 0), grey()));
    light.set_color(Color::new(1, 2, 3));
    assert_eq!(light.get_color(), Color::new(1, 2, 3));
    world.add_light(light);
    assert_eq!(world.objects.len(), 2);
    assert_eq!(world.lights.len(), 1);
    assert_eq!(world.bg_color, grey());
    assert_eq!(world.objects[1].get_material().matte_color, grey());
}

#[test]
fn sphere_position_accessors() {
    let m = Arc::new(Material::lambertian(grey()));
    let mut s = Sphere::new(Vec3::new(1, 2, 3), 4, m);
    s.set_position(Vec3::new(-1, -2, -3));
    assert_eq!(s.get_position(), Vec3::new(-1, -2, -3));
    assert_eq!(s.radius, 4);
}

#[test]
fn camera_validation() {
    let eye = Vec3::new(0, 0, 0);
    let ahead = Vec3::new(0, 0, -1_000_000);
    let up = Vec3::up();
    assert!(Camera::new(eye, ahead, up, 1_047_198, 400, 300).is_ok());
    assert_eq!(Camera::new(eye, ahead, up, 1_047_198, 0, 300).err(), Some(SceneError::EmptyImage));
    assert_eq!(Camera::new(eye, ahead, up, 1_047_198, 4, -1).err(), Some(SceneError::EmptyImage));
    assert_eq!(Camera::new(eye, ahead, up, 0, 4, 4).err(), Some(SceneError::FieldOfView));
    assert_eq!(Camera::new(eye, ahead, up, 3_141_593, 4, 4).err(), Some(SceneError::FieldOfView));
    assert!(Camera::new(eye, ahead, up, 3_141_592, 4, 4).is_ok());
    assert_eq!(Camera::new(eye, eye, up, 1_047_198, 4, 4).err(), Some(SceneError::ZeroVector));
    let straight_up = Vec3::new(0, 1_000_000, 0);
    assert_eq!(
        Camera::new(eye, Vec3::new(0, 3_000_000, 0), straight_up, 1_047_198, 4, 4).err(),
        Some(SceneError::ParallelUp)
    );
    assert_eq!(
        Camera::new(eye, Vec3::new(0, -3_000_000, 0), straight_up, 1_047_198, 4, 4).err(),
        Some(SceneError::ParallelUp)
    );
}

#[test]
fn parallel_is_exact() {
    assert!(parallel((2, 4, 6), (1, 2, 3)));
    assert!(parallel((0, 0, 0), (1, 2, 3)));
    assert!(!parallel((2, 4, 6), (1, 2, 4)));
}

#[test]
fn demo_scene() {
    let (world, camera) = test_world();
    assert_eq!(world.objects.len(), 4);
    assert!(world.lights.is_empty());
    assert_eq!(world.bg_color, Color::new(900_000, 900_000, 900_000));
    assert!(matches!(world.objects[0], Shape::Plane(_)));
    match &world.objects[2] {
        Shape::Sphere(s) => {
            assert_eq!(s.position, Vec3::new(0, 500_000, 0));
            assert_eq!(s.material.glossy_lobe, Lobe::Phong(1_000_000_000));
        }
        _ => panic!("the third shape is a sphere"),
    }
    assert_eq!((camera.width, camera.height, camera.fov), (400, 400, 942_478));
    assert_eq!(camera.up, Vec3::up());
}

#[test]
fn recursion_stops_past_the_depth_budget() {
    let m = Material::glossy(grey(), 10_000_000);
    assert_eq!(plan_trace(MAX_ITER + 1, MAX_ITER, Some(&m)), Step::Black);
    assert_eq!(plan_trace(MAX_ITER + 1, MAX_ITER, None), Step::Black);
    assert_eq!(plan_trace(u32::MAX, MAX_ITER, None), Step::Black);
}

#[test]
fn plan_follows_material_weights() {
    assert_eq!(plan_trace(0, MAX_ITER, None), Step::Background);
    let m = Material::glossy(grey(), 10_000_000);
    assert_eq!(
        plan_trace(MAX_ITER, MAX_ITER, Some(&m)),
        Step::Shade(ShadePlan {
            bounce_depth: MAX_ITER + 1,
            glossy: Some(Lobe::Phong(10_000_000)),
            transmissive: false,
            ambient: true,
        })
    );
    let m = Material::transparent(grey(), 1_500_000);
    assert_eq!(
        plan_trace(2, MAX_ITER, Some(&m)),
        Step::Shade(ShadePlan { bounce_depth: 3, glossy: None, transmissive: true, ambient: true })
    );
    let m = Material::reflective(grey());
    assert_eq!(
        plan_trace(0, MAX_ITER, Some(&m)),
        Step::Shade(ShadePlan { bounce_depth: 1, glossy: Some(Lobe::Mirror), transmissive: false, ambient: true })
    );
}

#[test]
fn nearest_hit_takes_smallest_and_first_of_ties() {
    assert_eq!(nearest_hit(&[]), None);
    assert_eq!(nearest_hit(&[None, None]), None);
    assert_eq!(nearest_hit(&[None, Some(9), Some(4), Some(7)]), Some(2));
    assert_eq!(nearest_hit(&[Some(5), None, Some(3), Some(3)]), Some(2));
    assert_eq!(nearest_hit(&[Some(0), Some(0)]), Some(0));
    let d = |t: f64| Some(t.to_bits());
    assert_eq!(nearest_hit(&[d(5.0), d(0.25), d(1.5e10), d(0.5)]), Some(1));
}

#[test]
fn occlusion_rules_of_the_two_lights() {
    let point = Light::Point(PointLight::new(Vec3::new(0, 10_000_000, 0), grey()));
    assert!(!point.occluded(None, 10));
    assert!(point.occluded(Some(9), 10));
    assert!(!point.occluded(Some(10), 10));
    assert!(!point.occluded(Some(11), 10));
    let sun = Light::Direction(DirectionLight::new(Vec3::new(0, -1_000_000, 0), grey()).unwrap());
    assert!(!sun.occluded(None, 0));
    assert!(sun.occluded(Some(u64::MAX), 0));
}
