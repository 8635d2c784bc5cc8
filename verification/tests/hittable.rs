use raytracer::hittable::{HitRecord, HittableList};
use raytracer::scalar::ordinal;
use raytracer::sphere::{Crossing, Root};

fn ord(x: f64) -> i64 {
    ordinal(x.to_bits())
}

fn record(index: usize, root: Root, t: i64) -> HitRecord {
    HitRecord { index, root, t, front_face: false }
}

#[test]
fn empty_scene_is_never_hit() {
    let world = HittableList { objects: vec![] };
    assert_eq!(world.hit(0, 100), None);
    assert_eq!(world.hit(i64::MIN, i64::MAX), None);
}

#[test]
fn scene_of_misses_is_never_hit() {
    let world = HittableList { objects: vec![None, None, None] };
    assert_eq!(world.hit(0, 100), None);
}

#[test]
fn single_primitive_is_hit_at_its_own_root() {
    let world = HittableList { objects: vec![Some(Crossing { near: 3, far: 7 })] };
    assert_eq!(world.hit(0, 100), Some(record(0, Root::Near, 3)));
    assert_eq!(world.hit(4, 100), Some(record(0, Root::Far, 7)));
    assert_eq!(world.hit(8, 100), None);
}

#[test]
fn the_closest_primitive_wins_whatever_its_place() {
    let a = Some(Crossing { near: 30, far: 40 });
    let b = Some(Crossing { near: 10, far: 20 });
    let c = Some(Crossing { near: 50, far: 60 });
    assert_eq!(HittableList { objects: vec![a, b, c] }.hit(0, 100), Some(record(1, Root::Near, 10)));
    assert_eq!(HittableList { objects: vec![b, a, c] }.hit(0, 100), Some(record(0, Root::Near, 10)));
    assert_eq!(HittableList { objects: vec![c, a, b] }.hit(0, 100), Some(record(2, Root::Near, 10)));
}

#[test]
fn of_two_primitives_at_the_same_parameter_the_later_wins() {
    let a = Some(Crossing { near: 10, far: 20 });
    let b = Some(Crossing { near: -4, far: 10 });
    assert_eq!(HittableList { objects: vec![a, b] }.hit(0, 100), Some(record(1, Root::Far, 10)));
    assert_eq!(HittableList { objects: vec![b, a] }.hit(0, 100), Some(record(1, Root::Near, 10)));
}

#[test]
fn misses_between_hits_are_passed_over() {
    let world = HittableList {
        objects: vec![
            None,
            Some(Crossing { near: 30, far: 40 }),
            None,
            Some(Crossing { near: -9, far: -8 }),
            Some(Crossing { near: 35, far: 45 }),
        ],
    };
    assert_eq!(world.hit(0, 100), Some(record(1, Root::Near, 30)));
}

#[test]
fn a_far_root_beyond_the_closest_hit_does_not_count() {
    // From inside the second sphere its far root would count alone, but the
    // first sphere is hit before it.
    let world = HittableList {
        objects: vec![Some(Crossing { near: 5, far: 6 }), Some(Crossing { near: -2, far: 9 })],
    };
    assert_eq!(world.hit(0, 100), Some(record(0, Root::Near, 5)));
    assert_eq!(world.hit(0, 4), None);
}

#[test]
fn scene_is_scanned_with_ordinals_of_real_roots() {
    // A ray from the origin down the negative z axis meets a sphere of
    // radius 0.5 around (0, 0, -1) at 0.5 and 1.5, and a sphere of radius 100
    // around (0, -100.5, -1) not at all on its way to it.
    let small = Crossing::new(ord(0.25), ord(0.5), ord(1.5));
    let ground = Crossing::new(ord(-100.25), ord(f64::NAN), ord(f64::NAN));
    assert_eq!(ground, None);
    let world = HittableList { objects: vec![ground, small] };
    let rec = world.hit(ord(0.001), ord(f64::INFINITY));
    assert_eq!(rec, Some(record(1, Root::Near, ord(0.5))));
}

#[test]
fn set_face_normal_tells_front_from_back() {
    let mut rec = record(4, Root::Far, 17);
    rec.set_face_normal(-1);
    assert_eq!(rec, HitRecord { index: 4, root: Root::Far, t: 17, front_face: true });
    rec.set_face_normal(0);
    assert_eq!(rec, HitRecord { index: 4, root: Root::Far, t: 17, front_face: false });
    rec.set_face_normal(1);
    assert!(!rec.front_face);
    rec.set_face_normal(ord(-0.25));
    assert!(rec.front_face);
    rec.set_face_normal(ord(-0.0));
    assert!(!rec.front_face);
}
