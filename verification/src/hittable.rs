//! Which primitive of a scene a ray hits first.

use vstd::prelude::*;
use vstd::seq_lib::to_multiset_contains;
use crate::sphere::{lemma_hit_shrink, lemma_hit_within, Crossing, Root};

verus! {

/// The nearest hit of a ray in a scene.
#[derive(Clone, Copy, Debug, PartialEq, Eq, Structural)]
pub struct HitRecord {
    /// The place in the scene of the primitive that is hit.
    pub index: usize,
    /// The root of that primitive's crossing at which it is hit.
    pub root: Root,
    /// The parameter of the hit along the ray.
    pub t: i64,
    /// Whether the ray meets the surface from outside. A scan leaves it
    /// `false`; [`HitRecord::set_face_normal`] sets it.
    pub front_face: bool,
}

/// A scene as one ray meets it: for each primitive, in the scene's order, its
/// crossing with the line of the ray, or `None` where the line misses it.
pub struct HittableList {
    pub objects: Vec<Option<Crossing>>,
}

/// The parameter at which a primitive alone is hit within `t_min ..= t_max`.
pub open spec fn object_hit(object: Option<Crossing>, t_min: int, t_max: int) -> Option<int> {
    match object {
        Some(c) => match c.hit_spec(t_min, t_max) {
            Some(root) => Some(c.at_spec(root) as int),
            None => None,
        },
        None => None,
    }
}

/// Whether every crossing of `objects` has its roots in order.
pub open spec fn all_ordered(objects: Seq<Option<Crossing>>) -> bool {
    forall|i: int|
        0 <= i < objects.len() ==> match #[trigger] objects[i] {
            Some(c) => c.ordered(),
            None => true,
        }
}

/// Whether `rec` is the nearest hit of `objects` within `t_min ..= t_max`:
/// nothing, where no primitive alone is hit; else the hit of a primitive that
/// no other primitive's hit lies before, and the last such primitive in the
/// scene's order, with the side of the surface not yet set.
pub open spec fn is_nearest(
    objects: Seq<Option<Crossing>>,
    t_min: int,
    t_max: int,
    rec: Option<HitRecord>,
) -> bool {
    match rec {
        None => forall|i: int|
            0 <= i < objects.len() ==> #[trigger] object_hit(objects[i], t_min, t_max) is None,
        Some(h) => {
            &&& 0 <= h.index < objects.len()
            &&& objects[h.index as int] matches Some(c)
            &&& c.hit_spec(t_min, t_max) == Some(h.root)
            &&& h.t == c.at_spec(h.root)
            &&& !h.front_face
            &&& forall|i: int|
                0 <= i < objects.len() ==> match #[trigger] object_hit(objects[i], t_min, t_max) {
                    Some(t) => h.t <= t && (i > h.index ==> h.t < t),
                    None => true,
                }
        },
    }
}

/// The upper bound that is left for the primitives after those that gave
/// `rec`: the parameter of the hit found so far, or `t_max` without one.
pub open spec fn closest_so_far(rec: Option<HitRecord>, t_max: int) -> int {
    match rec {
        Some(h) => h.t as int,
        None => t_max,
    }
}

/// The hit that a scan of `objects` in order ends with, where each primitive
/// is asked for a hit no farther than the closest found before it.
pub open spec fn scan(objects: Seq<Option<Crossing>>, t_min: int, t_max: int) -> Option<HitRecord>
    decreases objects.len(),
{
    if objects.len() == 0 {
        None
    } else {
        let before = scan(objects.drop_last(), t_min, t_max);
        match objects.last() {
            Some(c) => match c.hit_spec(t_min, closest_so_far(before, t_max)) {
                Some(root) => Some(
                    HitRecord {
                        index: (objects.len() - 1) as usize,
                        root,
                        t: c.at_spec(root),
                        front_face: false,
                    },
                ),
                None => before,
            },
            None => before,
        }
    }
}

/// Whether a ray whose direction has the dot product `facing` with the
/// outward normal meets the surface from outside.
pub open spec fn front_face_spec(facing: i64) -> bool {
    facing < 0
}

/// The dot product of the ray's direction with the normal that is shaded
/// with: that with the outward normal where the ray comes from outside, else
/// that with its opposite.
pub open spec fn shaded_facing(facing: i64) -> int {
    if front_face_spec(facing) {
        facing as int
    } else {
        -facing
    }
}

/// The normal that is shaded with never points along the ray.
pub proof fn lemma_normal_opposes_ray(facing: i64)
    ensures
        shaded_facing(facing) <= 0,
{
}

impl HitRecord {
    /// Records on which side the ray meets the surface. `facing` is the dot
    /// product of the ray's direction with the outward normal at the hit: the
    /// ray comes from outside where it is negative, and the normal to shade
    /// with is then the outward one, else its opposite.
    pub fn set_face_normal(&mut self, facing: i64)
        ensures
            final(self).front_face == front_face_spec(facing),
            final(self).index == old(self).index,
            final(self).root == old(self).root,
            final(self).t == old(self).t,
    {
        self.front_face = facing < 0;
    }
}

impl View for HittableList {
    type V = Seq<Option<Crossing>>;

    open spec fn view(&self) -> Seq<Option<Crossing>> {
        self.objects@
    }
}

impl HittableList {
    /// The nearest hit of the ray within `t_min ..= t_max`, or `None` where
    /// it hits nothing there. The primitives are asked in order, each for a
    /// hit no farther than the closest found so far; of two primitives hit at
    /// the same parameter the later one is reported.
    pub fn hit(&self, t_min: i64, t_max: i64) -> (rec: Option<HitRecord>)
        ensures
            rec == scan(self@, t_min as int, t_max as int),
            all_ordered(self@) ==> is_nearest(self@, t_min as int, t_max as int, rec),
            self@.len() == 0 ==> rec is None,
    {
        let mut rec: Option<HitRecord> = None;
        let mut closest: i64 = t_max;
        let n: usize = self.objects.len();
        let mut i: usize = 0;
        while i < n
            invariant
                n == self.objects@.len(),
                0 <= i <= n,
                rec == scan(self@.take(i as int), t_min as int, t_max as int),
                closest == closest_so_far(rec, t_max as int),
            decreases n - i,
        {
            proof {
                assert(self@.take(i + 1).drop_last() == self@.take(i as int));
            }
            if let Some(c) = self.objects[i] {
                if let Some(root) = c.hit(t_min, closest) {
                    let t: i64 = c.at(root);
                    rec = Some(HitRecord { index: i, root, t, front_face: false });
                    closest = t;
                }
            }
            i = i + 1;
        }
        proof {
            assert(self@.take(n as int) == self@);
            if all_ordered(self@) {
                lemma_scan_is_nearest(self@, t_min as int, t_max as int);
            }
        }
        rec
    }
}

/// Of a scene whose crossings are ordered the scan ends with the nearest hit:
/// asking each primitive only up to the closest hit found so far loses
/// nothing.
pub proof fn lemma_scan_is_nearest(objects: Seq<Option<Crossing>>, t_min: int, t_max: int)
    requires
        all_ordered(objects),
        objects.len() <= usize::MAX,
    ensures
        is_nearest(objects, t_min, t_max, scan(objects, t_min, t_max)),
    decreases objects.len(),
{
    if objects.len() > 0 {
        let front = objects.drop_last();
        let last = objects.len() - 1;
        assert forall|i: int| 0 <= i < front.len() implies match #[trigger] front[i] {
            Some(c) => c.ordered(),
            None => true,
        } by {
            assert(front[i] == objects[i]);
        }
        lemma_scan_is_nearest(front, t_min, t_max);
        let before = scan(front, t_min, t_max);
        let bound = closest_so_far(before, t_max);
        // The bound is no larger than `t_max`, so the last primitive reports
        // within it what it reports alone, unless that lies beyond the bound.
        if let Some(h) = before {
            lemma_hit_within(front[h.index as int]->0, t_min, t_max);
        }
        if let Some(c) = objects[last] {
            lemma_hit_shrink(c, t_min, t_max, bound);
        }
        match scan(objects, t_min, t_max) {
            None => {
                assert forall|i: int| 0 <= i < objects.len() implies #[trigger] object_hit(
                    objects[i],
                    t_min,
                    t_max,
                ) is None by {
                    if i < last {
                        assert(object_hit(front[i], t_min, t_max) is None);
                    }
                }
            },
            Some(h) => {
                assert forall|i: int| 0 <= i < objects.len() implies match #[trigger] object_hit(
                    objects[i],
                    t_min,
                    t_max,
                ) {
                    Some(t) => h.t <= t && (i > h.index ==> h.t < t),
                    None => true,
                } by {
                    if i < last {
                        assert(object_hit(front[i], t_min, t_max) == object_hit(
                            objects[i],
                            t_min,
                            t_max,
                        ));
                    }
                }
            },
        }
    }
}

/// A scene has one nearest hit: two records that both are the nearest hit of
/// the same scene are equal.
pub proof fn lemma_nearest_unique(
    objects: Seq<Option<Crossing>>,
    t_min: int,
    t_max: int,
    a: Option<HitRecord>,
    b: Option<HitRecord>,
)
    requires
        is_nearest(objects, t_min, t_max, a),
        is_nearest(objects, t_min, t_max, b),
    ensures
        a == b,
{
    match (a, b) {
        (Some(g), Some(h)) => {
            assert(object_hit(objects[g.index as int], t_min, t_max) == Some(g.t as int));
            assert(object_hit(objects[h.index as int], t_min, t_max) == Some(h.t as int));
        },
        (Some(g), None) => {
            assert(object_hit(objects[g.index as int], t_min, t_max) is Some);
        },
        (None, Some(h)) => {
            assert(object_hit(objects[h.index as int], t_min, t_max) is Some);
        },
        (None, None) => {},
    }
}

/// The parameter of a record, if there is one.
pub open spec fn parameter(rec: Option<HitRecord>) -> Option<i64> {
    match rec {
        Some(h) => Some(h.t),
        None => None,
    }
}

/// The order of the primitives does not change whether a ray hits the scene,
/// nor how far away: two scenes that hold the same crossings, each as often
/// as the other, give hits at the same parameter.
pub proof fn lemma_order_free(
    p: Seq<Option<Crossing>>,
    q: Seq<Option<Crossing>>,
    t_min: int,
    t_max: int,
)
    requires
        all_ordered(p),
        p.len() <= usize::MAX,
        q.len() <= usize::MAX,
        p.to_multiset() == q.to_multiset(),
    ensures
        parameter(scan(p, t_min, t_max)) == parameter(scan(q, t_min, t_max)),
{
    assert forall|j: int| 0 <= j < q.len() implies match #[trigger] q[j] {
        Some(c) => c.ordered(),
        None => true,
    } by {
        assert(q.contains(q[j]));
        to_multiset_contains(q, q[j]);
        to_multiset_contains(p, q[j]);
    }
    lemma_scan_is_nearest(p, t_min, t_max);
    lemma_scan_is_nearest(q, t_min, t_max);
    let a = scan(p, t_min, t_max);
    let b = scan(q, t_min, t_max);
    if let Some(g) = a {
        let x = p[g.index as int];
        assert(p.contains(x));
        to_multiset_contains(p, x);
        to_multiset_contains(q, x);
        let j = choose|j: int| 0 <= j < q.len() && q[j] == x;
        assert(object_hit(q[j], t_min, t_max) == Some(g.t as int));
    }
    if let Some(h) = b {
        let y = q[h.index as int];
        assert(q.contains(y));
        to_multiset_contains(q, y);
        to_multiset_contains(p, y);
        let i = choose|i: int| 0 <= i < p.len() && p[i] == y;
        assert(object_hit(p[i], t_min, t_max) == Some(h.t as int));
    }
}

} // verus!
