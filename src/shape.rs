use vstd::prelude::*;
use std::sync::Arc;
use crate::geom::{Vec3, Color, UNIT};

verus! {

/// The reason a scene element is refused at construction.
#[derive(Clone, Copy, Debug, PartialEq, Eq, Structural)]
pub enum SceneError {
    /// A direction that must be normalized has zero length.
    ZeroVector,
    /// The view direction is parallel to the camera's up vector, so no
    /// orthonormal basis exists.
    ParallelUp,
    /// The output image has no pixels.
    EmptyImage,
    /// The field of view does not lie strictly between zero and a half turn.
    FieldOfView,
}

/// The shape of the glossy lobe of a material.
#[derive(Clone, Copy, Debug, PartialEq, Eq, Structural)]
pub enum Lobe {
    /// A perfect mirror: bounces follow the exact reflection direction.
    Mirror,
    /// A Phong lobe with the given exponent, in millionths.
    Phong(u64),
}

/// The reflectance of a surface: a diffuse, a glossy and a transmissive part,
/// each with a weight in millionths and a color.
#[derive(Clone, Copy, Debug, PartialEq, Eq, Structural)]
pub struct Material {
    pub matte_intensity: u32,
    pub matte_color: Color,
    pub glossy_intensity: u32,
    pub glossy_lobe: Lobe,
    pub glossy_color: Color,
    pub trans_intensity: u32,
    pub trans_color: Color,
    /// The ratio of refractive indices, in millionths.
    pub trans_eta: u32,
}

pub open spec fn weight_ok(w: u32) -> bool {
    w <= UNIT
}

impl Material {
    /// Each weight lies in [0, 1] and the refractive ratio is positive.
    pub open spec fn wf(self) -> bool {
        weight_ok(self.matte_intensity) && weight_ok(self.glossy_intensity) && weight_ok(
            self.trans_intensity,
        ) && self.trans_eta > 0
    }

    pub fn new(
        matte_intensity: u32,
        matte_color: Color,
        glossy_intensity: u32,
        glossy_lobe: Lobe,
        glossy_color: Color,
        trans_intensity: u32,
        trans_color: Color,
        trans_eta: u32,
    ) -> (m: Material)
        requires
            weight_ok(matte_intensity),
            weight_ok(glossy_intensity),
            weight_ok(trans_intensity),
            trans_eta > 0,
        ensures
            m == (Material {
                matte_intensity,
                matte_color,
                glossy_intensity,
                glossy_lobe,
                glossy_color,
                trans_intensity,
                trans_color,
                trans_eta,
            }),
            m.wf(),
    {
        Material {
            matte_intensity,
            matte_color,
            glossy_intensity,
            glossy_lobe,
            glossy_color,
            trans_intensity,
            trans_color,
            trans_eta,
        }
    }

    /// A purely diffuse material.
    pub fn lambertian(color: Color) -> (m: Material)
        ensures
            m == Material::spec_preset(1_000_000, color, 0, Lobe::Phong(0), 0, 1_000_000),
            m.wf(),
    {
        Material::new(1_000_000, color, 0, Lobe::Phong(0), color, 0, color, 1_000_000)
    }

    /// A mostly mirror-like material with a faint black diffuse part.
    pub fn reflective(color: Color) -> (m: Material)
        ensures
            m == (Material {
                matte_color: Color { r: 0, g: 0, b: 0 },
                ..Material::spec_preset(100_000, color, 900_000, Lobe::Mirror, 0, 1_000_000)
            }),
            m.wf(),
    {
        Material::new(100_000, Color::black(), 900_000, Lobe::Mirror, color, 0, color, 1_000_000)
    }

    /// A mostly glossy material with a Phong lobe of the given exponent.
    pub fn glossy(color: Color, glossy_power: u64) -> (m: Material)
        ensures
            m == Material::spec_preset(100_000, color, 900_000, Lobe::Phong(glossy_power), 0, 1_000_000),
            m.wf(),
    {
        Material::new(100_000, color, 900_000, Lobe::Phong(glossy_power), color, 0, color, 1_000_000)
    }

    /// A mostly transmissive material with the given refractive ratio.
    pub fn transparent(color: Color, trans_eta: u32) -> (m: Material)
        requires
            trans_eta > 0,
        ensures
            m == Material::spec_preset(50_000, color, 0, Lobe::Phong(0), 950_000, trans_eta),
            m.wf(),
    {
        Material::new(50_000, color, 0, Lobe::Phong(0), color, 950_000, color, trans_eta)
    }

    /// A material whose three parts share one color.
    pub open spec fn spec_preset(
        matte: u32,
        color: Color,
        glossy: u32,
        lobe: Lobe,
        trans: u32,
        eta: u32,
    ) -> Material {
        Material {
            matte_intensity: matte,
            matte_color: color,
            glossy_intensity: glossy,
            glossy_lobe: lobe,
            glossy_color: color,
            trans_intensity: trans,
            trans_color: color,
            trans_eta: eta,
        }
    }
}

/// A sphere given by its center and radius.
pub struct Sphere {
    pub position: Vec3,
    pub radius: u64,
    pub material: Arc<Material>,
}

impl Sphere {
    pub fn new(position: Vec3, radius: u64, material: Arc<Material>) -> (s: Sphere)
        ensures
            s.position == position,
            s.radius == radius,
            s.material == material,
    {
        Sphere { position, radius, material }
    }

    pub fn set_position(&mut self, position: Vec3)
        ensures
            final(self).position == position,
            final(self).radius == old(self).radius,
            final(self).material == old(self).material,
    {
        self.position = position;
    }

    pub fn get_position(&self) -> (p: Vec3)
        ensures
            p == self.position,
    {
        self.position
    }
}

/// The plane of the points `p` with `p . normal + distance == 0`.
pub struct Plane {
    pub normal: Vec3,
    pub distance: i64,
    pub material: Arc<Material>,
}

impl Plane {
    pub fn new(normal: Vec3, distance: i64, material: Arc<Material>) -> (p: Plane)
        ensures
            p.normal == normal,
            p.distance == distance,
            p.material == material,
    {
        Plane { normal, distance, material }
    }
}

/// A finite, open cylinder: the points within `radius` of the segment that
/// starts at `start_cap` and runs `height` along `axis`.
pub struct Cylinder {
    pub start_cap: Vec3,
    pub axis: Vec3,
    pub radius: u64,
    pub height: u64,
    pub material: Arc<Material>,
}

impl Cylinder {
    /// The axis has a direction.
    pub open spec fn wf(&self) -> bool {
        !self.axis.is_zero()
    }

    pub fn new(start_cap: Vec3, axis: Vec3, radius: u64, height: u64, material: Arc<Material>)
        -> (r: Result<Cylinder, SceneError>)
        ensures
            r is Err <==> axis.is_zero(),
            r is Err ==> r->Err_0 == SceneError::ZeroVector,
            r is Ok ==> ({
                let c = r->Ok_0;
                &&& c.wf()
                &&& c.start_cap == start_cap
                &&& c.axis == axis
                &&& c.radius == radius
                &&& c.height == height
                &&& c.material == material
            }),
    {
        if axis.is_zero_vector() {
            return Err(SceneError::ZeroVector);
        }
        Ok(Cylinder { start_cap, axis, radius, height, material })
    }
}

/// A primitive of the scene.
pub enum Shape {
    Sphere(Sphere),
    Plane(Plane),
    Cylinder(Cylinder),
}

impl Shape {
    pub open spec fn wf(&self) -> bool {
        match self {
            Shape::Cylinder(c) => c.wf(),
            _ => true,
        }
    }

    pub open spec fn spec_material(&self) -> Material {
        match self {
            Shape::Sphere(s) => *s.material,
            Shape::Plane(p) => *p.material,
            Shape::Cylinder(c) => *c.material,
        }
    }

    /// The material of the surface.
    pub fn get_material(&self) -> (m: &Material)
        ensures
            *m == self.spec_material(),
    {
        match self {
            Shape::Sphere(s) => &s.material,
            Shape::Plane(p) => &p.material,
            Shape::Cylinder(c) => &c.material,
        }
    }
}

/// A light at a point, shining in every direction.
pub struct PointLight {
    pub position: Vec3,
    pub color: Color,
}

impl PointLight {
    pub fn new(position: Vec3, color: Color) -> (l: PointLight)
        ensures
            l.position == position,
            l.color == color,
    {
        PointLight { position, color }
    }
}

/// A light infinitely far away, shining along `direction`.
pub struct DirectionLight {
    pub direction: Vec3,
    pub color: Color,
}

impl DirectionLight {
    pub open spec fn wf(&self) -> bool {
        !self.direction.is_zero()
    }

    pub fn new(direction: Vec3, color: Color) -> (r: Result<DirectionLight, SceneError>)
        ensures
            r is Err <==> direction.is_zero(),
            r is Err ==> r->Err_0 == SceneError::ZeroVector,
            r is Ok ==> r->Ok_0.wf() && r->Ok_0.direction == direction && r->Ok_0.color == color,
    {
        if direction.is_zero_vector() {
            return Err(SceneError::ZeroVector);
        }
        Ok(DirectionLight { direction, color })
    }
}

/// A source of light in the scene.
pub enum Light {
    Point(PointLight),
    Direction(DirectionLight),
}

impl Light {
    pub open spec fn wf(&self) -> bool {
        match self {
            Light::Direction(d) => d.wf(),
            _ => true,
        }
    }

    pub open spec fn spec_color(&self) -> Color {
        match self {
            Light::Point(p) => p.color,
            Light::Direction(d) => d.color,
        }
    }

    pub fn get_color(&self) -> (c: Color)
        ensures
            c == self.spec_color(),
    {
        match self {
            Light::Point(p) => p.color,
            Light::Direction(d) => d.color,
        }
    }

    /// Whether the light is hidden from a surface point, given the nearest hit
    /// along the shadow ray toward it (as an order-preserving distance key)
    /// and the key of the distance to the light. A point light is hidden only
    /// by a hit nearer than the light; a light at infinity by any hit.
    pub fn occluded(&self, nearest: Option<u64>, light_distance: u64) -> (r: bool)
        ensures
            r == match self {
                Light::Point(_) => nearest matches Some(d) && d < light_distance,
                Light::Direction(_) => nearest is Some,
            },
    {
        match self {
            Light::Point(_) => match nearest {
                Some(d) => d < light_distance,
                None => false,
            },
            Light::Direction(_) => nearest.is_some(),
        }
    }

    pub fn set_color(&mut self, color: Color)
        ensures
            final(self).spec_color() == color,
            final(self).wf() == old(self).wf(),
    {
        match self {
            Light::Point(p) => p.color = color,
            Light::Direction(d) => d.color = color,
        }
    }
}

} // verus!
