//! The two tests on a vector that need no arithmetic.

use vstd::prelude::*;

verus! {

/// The ordinal of the limit below which a component counts as zero: a
/// hundred-millionth, as binary64 writes it.
pub const NEAR_ZERO: i64 = 0x3E45_798E_E230_8C3A;

/// The ordinal of one, as binary64 writes it.
pub const ONE: i64 = 0x3FF0_0000_0000_0000;

/// The three components of a vector, as ordinals.
#[derive(Clone, Copy, Debug, PartialEq, Eq, Structural)]
pub struct Vec3 {
    pub x: i64,
    pub y: i64,
    pub z: i64,
}

/// Whether `x` is smaller than the limit [`NEAR_ZERO`] in absolute value.
pub open spec fn negligible(x: i64) -> bool {
    -NEAR_ZERO < x < NEAR_ZERO
}

impl Vec3 {
    /// Whether each of the three components is negligible.
    pub open spec fn near_zero_spec(self) -> bool {
        negligible(self.x) && negligible(self.y) && negligible(self.z)
    }

    /// Whether the vector is so close to zero in every component that it
    /// cannot serve as the direction of a ray.
    pub fn near_zero(&self) -> (b: bool)
        ensures
            b == self.near_zero_spec(),
    {
        -NEAR_ZERO < self.x && self.x < NEAR_ZERO && -NEAR_ZERO < self.y && self.y < NEAR_ZERO
            && -NEAR_ZERO < self.z && self.z < NEAR_ZERO
    }
}

/// Whether a point whose squared distance from the origin is
/// `length_squared` lies inside the unit sphere. A sampler that draws points
/// from the enclosing cube keeps the first point of which this holds.
pub fn in_unit_sphere(length_squared: i64) -> (b: bool)
    ensures
        b == (length_squared < ONE),
{
    length_squared < ONE
}

} // verus!
