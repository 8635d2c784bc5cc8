//! When a path stops, and what it then contributes.

use vstd::prelude::*;
use crate::hittable::{all_ordered, is_nearest, scan, HitRecord, HittableList};
use crate::material::Scatter;
use crate::sphere::Crossing;

verus! {

/// The ordinal of the nearest parameter at which a hit counts: a thousandth,
/// as binary64 writes it. Nearer hits are the surface that the ray has just
/// left.
pub const T_MIN: i64 = 0x3F50_624D_D2F1_A9FC;

/// The ordinal of the farthest parameter at which a hit counts: infinity, as
/// binary64 writes it.
pub const T_MAX: i64 = 0x7FF0_0000_0000_0000;

/// The right to cast a ray into the scene once.
#[derive(Clone, Copy, Debug, PartialEq, Eq, Structural)]
pub struct Bounce {
    /// The depth that is left for the ray that a scattering surface sends on.
    pub remaining: u32,
}

/// What a ray contributes to its pixel.
#[derive(Clone, Copy, Debug, PartialEq, Eq, Structural)]
pub enum Radiance {
    /// No light.
    Black,
    /// The background gradient along the ray.
    Background,
    /// The surface's attenuation times the radiance of the scattered ray,
    /// which is traced with `depth`.
    Attenuated { depth: u32 },
}

/// What a ray of the given depth may do: nothing at depth 0, else one bounce
/// that leaves one less.
pub open spec fn ray_color_spec(depth: u32) -> Option<Bounce> {
    if depth == 0 {
        None
    } else {
        Some((Bounce { remaining: (depth - 1) as u32 }))
    }
}

impl Bounce {
    /// What the ray contributes, given what it found: the background where it
    /// hit nothing, no light where the surface absorbed it, else the tinted
    /// radiance of the scattered ray.
    pub open spec fn shade_spec(self, found: Option<Scatter>) -> Radiance {
        match found {
            None => Radiance::Background,
            Some(Scatter::Absorbed) => Radiance::Black,
            Some(Scatter::Scattered) => Radiance::Attenuated { depth: self.remaining },
        }
    }

    /// Casts the ray into the scene: its nearest hit from [`T_MIN`] to
    /// [`T_MAX`], or `None` where it hits nothing there.
    pub fn cast(&self, world: &HittableList) -> (rec: Option<HitRecord>)
        ensures
            rec == scan(world@, T_MIN as int, T_MAX as int),
            all_ordered(world@) ==> is_nearest(world@, T_MIN as int, T_MAX as int, rec),
    {
        world.hit(T_MIN, T_MAX)
    }

    /// Decides what the ray contributes. `found` is `None` where the ray hit
    /// nothing, else what the surface that it hit did with it.
    pub fn shade(self, found: Option<Scatter>) -> (r: Radiance)
        ensures
            r == self.shade_spec(found),
    {
        match found {
            None => Radiance::Background,
            Some(Scatter::Absorbed) => Radiance::Black,
            Some(Scatter::Scattered) => Radiance::Attenuated { depth: self.remaining },
        }
    }
}

/// Starts a ray with `depth` bounces left. `None` means that the depth is
/// used up: the ray is black and nothing is cast. Otherwise the ray is cast
/// once, and [`Bounce::shade`] says what it contributes.
pub fn ray_color(depth: u32) -> (b: Option<Bounce>)
    ensures
        b == ray_color_spec(depth),
        depth == 0 <==> b is None,
{
    if depth == 0 {
        None
    } else {
        Some(Bounce { remaining: depth - 1 })
    }
}

/// The radiance of a ray of the given depth that would find `found`.
pub open spec fn radiance(depth: u32, found: Option<Scatter>) -> Radiance {
    match ray_color_spec(depth) {
        None => Radiance::Black,
        Some(b) => b.shade_spec(found),
    }
}

/// What a ray found, from the scene's answer and the surface's.
pub open spec fn found(rec: Option<HitRecord>, scatter: Scatter) -> Option<Scatter> {
    match rec {
        Some(_) => Some(scatter),
        None => None,
    }
}

/// A ray with no depth left is black, whatever it would have found.
pub proof fn lemma_depth_zero_is_black(found: Option<Scatter>)
    ensures
        radiance(0, found) == Radiance::Black,
{
}

/// A scattered ray is traced with less depth than the ray that was
/// scattered, so every path ends.
pub proof fn lemma_depth_decreases(depth: u32, found: Option<Scatter>)
    ensures
        radiance(depth, found) matches Radiance::Attenuated { depth: next } ==> next < depth,
{
}

/// In a scene without primitives a ray that has depth left contributes the
/// background, never a surface's colour.
pub proof fn lemma_empty_scene_is_background(depth: u32, scatter: Scatter)
    requires
        depth > 0,
    ensures
        radiance(
            depth,
            found(scan(Seq::<Option<Crossing>>::empty(), T_MIN as int, T_MAX as int), scatter),
        ) == Radiance::Background,
{
}

/// A ray that starts on a sphere and leaves it does not hit that sphere
/// again: both roots of such a ray lie below [`T_MIN`], and the scene that
/// holds only this sphere then gives no hit.
pub proof fn lemma_no_self_intersection(c: Crossing)
    requires
        c.near < T_MIN,
        c.far < T_MIN,
    ensures
        scan(seq![Some(c)], T_MIN as int, T_MAX as int) is None,
{
    let one = seq![Some(c)];
    assert(one.drop_last() == Seq::<Option<Crossing>>::empty());
    assert(scan(one.drop_last(), T_MIN as int, T_MAX as int) is None);
    assert(one.last() == Some(c));
}

} // verus!
