use vstd::prelude::*;
use crate::image::Rgb;

verus! {

/// One world unit, in the millionths that every length, weight and channel is
/// written in.
pub const UNIT: i64 = 1_000_000;

/// The largest magnitude of a coordinate, so that exact products of
/// differences of coordinates fit in 128 bits.
pub const COORD_MAX: i64 = 1_099_511_627_776;

/// A point or direction in space, each component in millionths of a unit.
#[derive(Clone, Copy, Debug, PartialEq, Eq, Structural)]
pub struct Vec3 {
    pub x: i64,
    pub y: i64,
    pub z: i64,
}

pub open spec fn coord_ok(c: i64) -> bool {
    -COORD_MAX <= c <= COORD_MAX
}

/// The exact cross product of two vectors given by integer components.
pub open spec fn cross(a: (int, int, int), b: (int, int, int)) -> (int, int, int) {
    (a.1 * b.2 - a.2 * b.1, a.2 * b.0 - a.0 * b.2, a.0 * b.1 - a.1 * b.0)
}

impl Vec3 {
    /// Every component lies within the coordinate range.
    pub open spec fn wf(self) -> bool {
        coord_ok(self.x) && coord_ok(self.y) && coord_ok(self.z)
    }

    pub open spec fn is_zero(self) -> bool {
        self.x == 0 && self.y == 0 && self.z == 0
    }

    pub open spec fn ints(self) -> (int, int, int) {
        (self.x as int, self.y as int, self.z as int)
    }

    /// The components of `self - o`, exactly.
    pub open spec fn minus(self, o: Vec3) -> (int, int, int) {
        (self.x - o.x, self.y - o.y, self.z - o.z)
    }

    pub fn new(x: i64, y: i64, z: i64) -> (r: Vec3)
        ensures
            r == (Vec3 { x, y, z }),
    {
        Vec3 { x, y, z }
    }

    /// An "up" direction that leans slightly off the vertical, so that it is
    /// never exactly parallel to an axis-aligned view direction.
    pub open spec fn spec_up() -> Vec3 {
        Vec3 { x: 4240, y: 1_000_000, z: 7640 }
    }

    pub fn up() -> (r: Vec3)
        ensures
            r == Vec3::spec_up(),
            r.wf(),
    {
        Vec3 { x: 4240, y: 1_000_000, z: 7640 }
    }

    pub fn is_zero_vector(&self) -> (r: bool)
        ensures
            r == self.is_zero(),
    {
        self.x == 0 && self.y == 0 && self.z == 0
    }
}

/// Whether `a` and `b` are parallel (or one of them is zero): their exact
/// cross product vanishes.
pub fn parallel(a: (i128, i128, i128), b: (i128, i128, i128)) -> (r: bool)
    requires
        -2 * COORD_MAX <= a.0 <= 2 * COORD_MAX,
        -2 * COORD_MAX <= a.1 <= 2 * COORD_MAX,
        -2 * COORD_MAX <= a.2 <= 2 * COORD_MAX,
        -2 * COORD_MAX <= b.0 <= 2 * COORD_MAX,
        -2 * COORD_MAX <= b.1 <= 2 * COORD_MAX,
        -2 * COORD_MAX <= b.2 <= 2 * COORD_MAX,
    ensures
        r == (cross((a.0 as int, a.1 as int, a.2 as int), (b.0 as int, b.1 as int, b.2 as int))
            == (0int, 0int, 0int)),
{
    let m: i128 = 2 * (COORD_MAX as i128);
    proof {
        assert(m * m == 4835703278458516698824704) by (nonlinear_arith)
            requires m == 2199023255552;
        assert(-m * m <= a.1 * b.2 <= m * m) by (nonlinear_arith)
            requires -m <= a.1 <= m, -m <= b.2 <= m;
        assert(-m * m <= a.2 * b.1 <= m * m) by (nonlinear_arith)
            requires -m <= a.2 <= m, -m <= b.1 <= m;
        assert(-m * m <= a.2 * b.0 <= m * m) by (nonlinear_arith)
            requires -m <= a.2 <= m, -m <= b.0 <= m;
        assert(-m * m <= a.0 * b.2 <= m * m) by (nonlinear_arith)
            requires -m <= a.0 <= m, -m <= b.2 <= m;
        assert(-m * m <= a.0 * b.1 <= m * m) by (nonlinear_arith)
            requires -m <= a.0 <= m, -m <= b.1 <= m;
        assert(-m * m <= a.1 * b.0 <= m * m) by (nonlinear_arith)
            requires -m <= a.1 <= m, -m <= b.0 <= m;
    }
    let cx = a.1 * b.2 - a.2 * b.1;
    let cy = a.2 * b.0 - a.0 * b.2;
    let cz = a.0 * b.1 - a.1 * b.0;
    cx == 0 && cy == 0 && cz == 0
}

/// A channel capped at one unit.
pub open spec fn clamped(v: u32) -> int {
    if v <= UNIT { v as int } else { UNIT as int }
}

/// The 8-bit value of a channel: the capped channel scaled to 255 and rounded
/// to the nearest integer, halves rounding up.
pub open spec fn quantize(v: u32) -> int {
    (clamped(v) * 255 + UNIT / 2) / (UNIT as int)
}

/// Quantizing a channel moves it by at most half of one 255th of a unit.
pub proof fn lemma_quantize_error(v: u32)
    ensures
        0 <= quantize(v) <= 255,
        -(UNIT as int) / 2 < quantize(v) * UNIT - clamped(v) * 255 <= UNIT / 2,
{
    let c = clamped(v);
    let q = quantize(v);
    assert(0 <= c <= 1_000_000);
    assert(q * 1_000_000 <= c * 255 + 500_000 < q * 1_000_000 + 1_000_000);
}

fn quantize_channel(v: u32) -> (q: u8)
    ensures
        q == quantize(v),
{
    proof {
        lemma_quantize_error(v);
    }
    let c: u64 = if v <= 1_000_000 { v as u64 } else { 1_000_000 };
    ((c * 255 + 500_000) / 1_000_000) as u8
}

/// A color, each channel a non-negative intensity in millionths (a channel
/// may exceed one unit).
#[derive(Clone, Copy, Debug, PartialEq, Eq, Structural)]
pub struct Color {
    pub r: u32,
    pub g: u32,
    pub b: u32,
}

impl Color {
    pub fn new(r: u32, g: u32, b: u32) -> (c: Color)
        ensures
            c == (Color { r, g, b }),
    {
        Color { r, g, b }
    }

    pub fn black() -> (c: Color)
        ensures
            c == (Color { r: 0, g: 0, b: 0 }),
    {
        Color { r: 0, g: 0, b: 0 }
    }

    /// The pixel that shows this color: each channel capped at one unit and
    /// quantized to 8 bits.
    pub fn to_rgb(self) -> (p: Rgb)
        ensures
            p.r == quantize(self.r),
            p.g == quantize(self.g),
            p.b == quantize(self.b),
    {
        Rgb { r: quantize_channel(self.r), g: quantize_channel(self.g), b: quantize_channel(self.b) }
    }

    /// A copy with each channel capped at one unit.
    pub fn clamp(self) -> (c: Color)
        ensures
            c.r == if self.r <= UNIT { self.r } else { UNIT as u32 },
            c.g == if self.g <= UNIT { self.g } else { UNIT as u32 },
            c.b == if self.b <= UNIT { self.b } else { UNIT as u32 },
    {
        let one: u32 = 1_000_000;
        Color {
            r: if self.r <= one { self.r } else { one },
            g: if self.g <= one { self.g } else { one },
            b: if self.b <= one { self.b } else { one },
        }
    }
}

} // verus!
