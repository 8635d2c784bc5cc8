//! Which root of a ray/sphere quadratic counts as the hit.

use vstd::prelude::*;

verus! {

/// One of the two roots of the quadratic.
#[derive(Clone, Copy, Debug, PartialEq, Eq, Structural)]
pub enum Root {
    /// The smaller root: where the ray's line enters the sphere.
    Near,
    /// The larger root: where it leaves.
    Far,
}

/// The two parameters at which the line of a ray meets the surface of a
/// sphere, as ordinals. A line that misses the sphere has no crossing.
#[derive(Clone, Copy, Debug, PartialEq, Eq, Structural)]
pub struct Crossing {
    pub near: i64,
    pub far: i64,
}

/// Whether `t` lies in the closed interval from `t_min` to `t_max`.
pub open spec fn within(t: int, t_min: int, t_max: int) -> bool {
    t_min <= t <= t_max
}

impl Crossing {
    /// A crossing whose roots are in order, as the roots of a quadratic with a
    /// positive leading coefficient are.
    pub open spec fn ordered(self) -> bool {
        self.near <= self.far
    }

    /// The parameter of `root`.
    pub open spec fn at_spec(self, root: Root) -> i64 {
        match root {
            Root::Near => self.near,
            Root::Far => self.far,
        }
    }

    /// The root that counts as the hit within `t_min ..= t_max`: the near one
    /// if it lies in the interval, else the far one if that does, else none.
    pub open spec fn hit_spec(self, t_min: int, t_max: int) -> Option<Root> {
        if within(self.near as int, t_min, t_max) {
            Some(Root::Near)
        } else if within(self.far as int, t_min, t_max) {
            Some(Root::Far)
        } else {
            None
        }
    }

    /// The crossing of a ray with a sphere from the discriminant of their
    /// quadratic and its two roots: `None` where the discriminant is negative,
    /// since the line of the ray then misses the sphere.
    pub fn new(discriminant: i64, near: i64, far: i64) -> (c: Option<Crossing>)
        ensures
            c == if discriminant < 0 {
                None
            } else {
                Some((Crossing { near, far }))
            },
    {
        if discriminant < 0 {
            None
        } else {
            Some(Crossing { near, far })
        }
    }

    /// The parameter of `root`.
    pub fn at(&self, root: Root) -> (t: i64)
        ensures
            t == self.at_spec(root),
    {
        match root {
            Root::Near => self.near,
            Root::Far => self.far,
        }
    }

    /// Picks the root at which a ray hits the sphere within `t_min ..= t_max`,
    /// preferring the near root; `None` where neither root lies in the
    /// interval.
    pub fn hit(&self, t_min: i64, t_max: i64) -> (root: Option<Root>)
        ensures
            root == self.hit_spec(t_min as int, t_max as int),
    {
        if !(self.near < t_min || t_max < self.near) {
            Some(Root::Near)
        } else if !(self.far < t_min || t_max < self.far) {
            Some(Root::Far)
        } else {
            None
        }
    }
}

/// The root that is picked lies in the interval, and a root is picked
/// whenever one of the two does.
pub proof fn lemma_hit_within(c: Crossing, t_min: int, t_max: int)
    ensures
        c.hit_spec(t_min, t_max) matches Some(root) ==> within(c.at_spec(root) as int, t_min, t_max),
        c.hit_spec(t_min, t_max) is None <==> !within(c.near as int, t_min, t_max) && !within(
            c.far as int,
            t_min,
            t_max,
        ),
{
}

/// Of an ordered crossing the root that is picked is the nearest one in the
/// interval: no root in the interval has a smaller parameter.
pub proof fn lemma_hit_nearest(c: Crossing, t_min: int, t_max: int, other: Root)
    requires
        c.ordered(),
        within(c.at_spec(other) as int, t_min, t_max),
    ensures
        c.hit_spec(t_min, t_max) matches Some(root) && c.at_spec(root) <= c.at_spec(other),
{
}

/// A sphere whose two roots lie below the lower bound is not hit: a ray that
/// leaves a surface outwards does not meet that surface again.
pub proof fn lemma_roots_behind_miss(c: Crossing, t_min: int, t_max: int)
    requires
        c.near < t_min,
        c.far < t_min,
    ensures
        c.hit_spec(t_min, t_max) is None,
{
}

/// Lowering the upper bound of the interval only filters: an ordered crossing
/// then reports the root it reported before if that still lies within the
/// bound, and nothing otherwise.
pub proof fn lemma_hit_shrink(c: Crossing, t_min: int, t_max: int, bound: int)
    requires
        c.ordered(),
        bound <= t_max,
    ensures
        c.hit_spec(t_min, bound) == match c.hit_spec(t_min, t_max) {
            Some(root) => if c.at_spec(root) <= bound {
                Some(root)
            } else {
                None
            },
            None => None,
        },
{
}

} // verus!
