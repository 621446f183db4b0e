use vstd::prelude::*;
use std::sync::Arc;
use crate::geom::{Vec3, Color, parallel, cross};
use crate::shape::{SceneError, Material, Shape, Light, Lobe, Sphere, Plane};

verus! {

/// The first count of micro-radians that is no longer below a half turn.
pub const HALF_TURN: u32 = 3_141_593;

/// Everything a render reads: the shapes, the lights and the color seen where
/// a ray hits nothing.
pub struct World {
    pub objects: Vec<Shape>,
    pub lights: Vec<Light>,
    pub bg_color: Color,
}

impl World {
    pub open spec fn wf(&self) -> bool {
        &&& forall|i: int| 0 <= i < self.objects@.len() ==> (#[trigger] self.objects@[i]).wf()
        &&& forall|i: int| 0 <= i < self.lights@.len() ==> (#[trigger] self.lights@[i]).wf()
    }

    /// An empty world.
    pub fn new(bg_color: Color) -> (w: World)
        ensures
            w.objects@.len() == 0,
            w.lights@.len() == 0,
            w.bg_color == bg_color,
            w.wf(),
    {
        World { objects: Vec::new(), lights: Vec::new(), bg_color }
    }

    pub fn add_shape(&mut self, shape: Shape)
        requires
            old(self).wf(),
            shape.wf(),
        ensures
            final(self).objects@ == old(self).objects@.push(shape),
            final(self).lights@ == old(self).lights@,
            final(self).bg_color == old(self).bg_color,
            final(self).wf(),
    {
        self.objects.push(shape);
    }

    pub fn add_light(&mut self, light: Light)
        requires
            old(self).wf(),
            light.wf(),
        ensures
            final(self).lights@ == old(self).lights@.push(light),
            final(self).objects@ == old(self).objects@,
            final(self).bg_color == old(self).bg_color,
            final(self).wf(),
    {
        self.lights.push(light);
    }
}

/// A pinhole camera: where it stands, where it looks, which way is up, its
/// vertical field of view in micro-radians, and the size of its image.
pub struct Camera {
    pub location: Vec3,
    pub lookat: Vec3,
    pub up: Vec3,
    pub fov: u32,
    pub width: i32,
    pub height: i32,
}

/// Whether a camera can build an orthonormal view basis and an image from
/// these values: the reason it cannot, first in this order, or none.
pub open spec fn camera_error(
    location: Vec3,
    lookat: Vec3,
    up: Vec3,
    fov: u32,
    width: i32,
    height: i32,
) -> Option<SceneError> {
    if width <= 0 || height <= 0 {
        Some(SceneError::EmptyImage)
    } else if fov == 0 || fov >= HALF_TURN {
        Some(SceneError::FieldOfView)
    } else if lookat == location {
        Some(SceneError::ZeroVector)
    } else if cross(lookat.minus(location), up.ints()) == (0int, 0int, 0int) {
        Some(SceneError::ParallelUp)
    } else {
        None
    }
}

impl Camera {
    pub open spec fn wf(&self) -> bool {
        &&& self.location.wf()
        &&& self.lookat.wf()
        &&& self.up.wf()
        &&& camera_error(self.location, self.lookat, self.up, self.fov, self.width, self.height)
            is None
    }

    /// A camera at `location` looking at `lookat`, refused where its view basis
    /// or its image would be degenerate.
    pub fn new(location: Vec3, lookat: Vec3, up: Vec3, fov: u32, width: i32, height: i32) -> (r:
        Result<Camera, SceneError>)
        requires
            location.wf(),
            lookat.wf(),
            up.wf(),
        ensures
            match camera_error(location, lookat, up, fov, width, height) {
                Some(e) => r == Err::<Camera, SceneError>(e),
                None => r is Ok && r->Ok_0.wf() && r->Ok_0.location == location
                    && r->Ok_0.lookat == lookat && r->Ok_0.up == up && r->Ok_0.fov == fov
                    && r->Ok_0.width == width && r->Ok_0.height == height,
            },
    {
        if width <= 0 || height <= 0 {
            return Err(SceneError::EmptyImage);
        }
        if fov == 0 || fov >= HALF_TURN {
            return Err(SceneError::FieldOfView);
        }
        if lookat == location {
            return Err(SceneError::ZeroVector);
        }
        let forward = (
            lookat.x as i128 - location.x as i128,
            lookat.y as i128 - location.y as i128,
            lookat.z as i128 - location.z as i128,
        );
        if parallel(forward, (up.x as i128, up.y as i128, up.z as i128)) {
            return Err(SceneError::ParallelUp);
        }
        Ok(Camera { location, lookat, up, fov, width, height })
    }
}

/// The demonstration scene: a white matte floor, a red matte sphere, a green
/// and a blue glossy sphere in a row on it, no lights, a light grey sky, and a
/// 400 by 400 camera.
pub fn test_world() -> (r: (World, Camera))
    ensures
        r.0.wf(),
        r.1.wf(),
        r.0.objects@.len() == 4,
        r.0.lights@.len() == 0,
        r.0.bg_color == (Color { r: 900_000, g: 900_000, b: 900_000 }),
        r.0.objects@[0] matches Shape::Plane(p) && p.normal == (Vec3 { x: 0, y: 1_000_000, z: 0 })
            && p.distance == 0 && *p.material == Material::spec_preset(
            1_000_000,
            Color { r: 1_000_000, g: 1_000_000, b: 1_000_000 },
            0,
            Lobe::Phong(0),
            0,
            1_000_000,
        ),
        r.0.objects@[1] matches Shape::Sphere(s) && s.position == (Vec3 {
            x: -1_200_000i64,
            y: 500_000,
            z: 0,
        }) && s.radius == 500_000 && *s.material == Material::spec_preset(
            1_000_000,
            Color { r: 1_000_000, g: 0, b: 0 },
            0,
            Lobe::Phong(0),
            0,
            1_000_000,
        ),
        r.0.objects@[2] matches Shape::Sphere(s) && s.position == (Vec3 { x: 0, y: 500_000, z: 0 })
            && s.radius == 500_000 && *s.material == Material::spec_preset(
            100_000,
            Color { r: 700_000, g: 1_000_000, b: 700_000 },
            900_000,
            Lobe::Phong(1_000_000_000),
            0,
            1_000_000,
        ),
        r.0.objects@[3] matches Shape::Sphere(s) && s.position == (Vec3 {
            x: 1_200_000,
            y: 500_000,
            z: 0,
        }) && s.radius == 500_000 && *s.material == Material::spec_preset(
            100_000,
            Color { r: 300_000, g: 300_000, b: 1_000_000 },
            900_000,
            Lobe::Phong(10_000_000),
            0,
            1_000_000,
        ),
        r.1.location == (Vec3 { x: -1_500_000i64, y: 1_000_000, z: 3_000_000 }),
        r.1.lookat == (Vec3 { x: -300_000i64, y: 500_000, z: 0 }),
        r.1.up == Vec3::spec_up(),
        r.1.fov == 942_478,
        r.1.width == 400,
        r.1.height == 400,
{
    let mut world = World::new(Color::new(900_000, 900_000, 900_000));
    let plane_material = Arc::new(Material::lambertian(Color::new(1_000_000, 1_000_000, 1_000_000)));
    let plane = Plane::new(Vec3::new(0, 1_000_000, 0), 0, plane_material);
    let sphere1_material = Arc::new(Material::lambertian(Color::new(1_000_000, 0, 0)));
    let sphere2_material = Arc::new(
        Material::glossy(Color::new(700_000, 1_000_000, 700_000), 1_000_000_000),
    );
    let sphere3_material = Arc::new(Material::glossy(Color::new(300_000, 300_000, 1_000_000), 10_000_000));
    let sphere1 = Sphere::new(Vec3::new(-1_200_000, 500_000, 0), 500_000, sphere1_material);
    let sphere2 = Sphere::new(Vec3::new(0, 500_000, 0), 500_000, sphere2_material);
    let sphere3 = Sphere::new(Vec3::new(1_200_000, 500_000, 0), 500_000, sphere3_material);
    world.add_shape(Shape::Plane(plane));
    world.add_shape(Shape::Sphere(sphere1));
    world.add_shape(Shape::Sphere(sphere2));
    world.add_shape(Shape::Sphere(sphere3));
    let location = Vec3::new(-1_500_000, 1_000_000, 3_000_000);
    let lookat = Vec3::new(-300_000, 500_000, 0);
    let up = Vec3::up();
    proof {
        assert(cross(lookat.minus(location), up.ints()).0 != 0);
    }
    let camera = Camera::new(location, lookat, up, 942_478, 400, 400).unwrap();
    (world, camera)
}

} // verus!
