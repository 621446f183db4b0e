use vstd::prelude::*;
use crate::shape::{Lobe, Material};

verus! {

/// The deepest bounce that the radiance recursion follows.
pub const MAX_ITER: u32 = 6;

/// Primary rays traced per pixel.
pub const SAMPLES: u32 = 3;

/// Which contributions a shaded hit gathers, and at what depth its bounce
/// rays are traced.
#[derive(Clone, Copy, Debug, PartialEq, Eq, Structural)]
pub struct ShadePlan {
    pub bounce_depth: u32,
    /// The glossy lobe to bounce along, if the surface has a glossy part.
    pub glossy: Option<Lobe>,
    /// Whether a refracted ray is traced.
    pub transmissive: bool,
    /// Whether a diffuse (ambient) bounce is traced.
    pub ambient: bool,
}

/// What tracing a ray comes to, before any arithmetic on colors.
#[derive(Clone, Copy, Debug, PartialEq, Eq, Structural)]
pub enum Step {
    /// The depth budget is spent: the ray contributes black.
    Black,
    /// The ray hits nothing: it sees the background color.
    Background,
    /// The ray hits a surface, which is shaded by this plan.
    Shade(ShadePlan),
}

/// The plan for a hit on a surface of material `m` at `depth`.
pub open spec fn shade_plan(depth: u32, m: Material) -> ShadePlan {
    ShadePlan {
        bounce_depth: (depth + 1) as u32,
        glossy: if m.glossy_intensity == 0 { None } else { Some(m.glossy_lobe) },
        transmissive: m.trans_intensity != 0,
        ambient: m.matte_intensity != 0,
    }
}

/// Decides what a ray traced at `depth` contributes, given the material of
/// the nearest surface it hits, if any.
pub fn plan_trace(depth: u32, max_iter: u32, hit: Option<&Material>) -> (s: Step)
    requires
        max_iter < u32::MAX,
    ensures
        depth > max_iter ==> s == Step::Black,
        depth <= max_iter && hit is None ==> s == Step::Background,
        depth <= max_iter && hit is Some ==> s == Step::Shade(shade_plan(depth, *hit->Some_0)),
{
    if depth > max_iter {
        return Step::Black;
    }
    match hit {
        None => Step::Background,
        Some(m) => Step::Shade(
            ShadePlan {
                bounce_depth: depth + 1,
                glossy: if m.glossy_intensity == 0 { None } else { Some(m.glossy_lobe) },
                transmissive: m.trans_intensity != 0,
                ambient: m.matte_intensity != 0,
            },
        ),
    }
}

/// Among the shapes that a ray hits, the one whose hit is nearest: `keys[i]`
/// is the distance of the hit on shape `i` as an order-preserving key, or
/// `None` where the ray misses it. The first of equally near hits wins.
pub fn nearest_hit(keys: &[Option<u64>]) -> (r: Option<usize>)
    ensures
        r is None <==> forall|j: int| 0 <= j < keys@.len() ==> keys@[j] is None,
        r matches Some(i) ==> {
            &&& i < keys@.len()
            &&& keys@[i as int] is Some
            &&& forall|j: int|
                0 <= j < keys@.len() && #[trigger] keys@[j] is Some ==> keys@[i as int]->Some_0
                    <= keys@[j]->Some_0
            &&& forall|j: int|
                0 <= j < i && #[trigger] keys@[j] is Some ==> keys@[i as int]->Some_0
                    < keys@[j]->Some_0
        },
{
    let mut best: Option<usize> = None;
    let mut i: usize = 0;
    while i < keys.len()
        invariant
            i <= keys@.len(),
            best is None <==> forall|j: int| 0 <= j < i ==> keys@[j] is None,
            best matches Some(b) ==> {
                &&& b < i
                &&& keys@[b as int] is Some
                &&& forall|j: int|
                    0 <= j < i && #[trigger] keys@[j] is Some ==> keys@[b as int]->Some_0
                        <= keys@[j]->Some_0
                &&& forall|j: int|
                    0 <= j < b && #[trigger] keys@[j] is Some ==> keys@[b as int]->Some_0
                        < keys@[j]->Some_0
            },
        decreases keys@.len() - i,
    {
        if let Some(d) = keys[i] {
            let closer = match best {
                None => true,
                Some(b) => match keys[b] {
                    Some(e) => d < e,
                    None => true,
                },
            };
            if closer {
                best = Some(i);
            }
        }
        i = i + 1;
    }
    best
}

} // verus!
