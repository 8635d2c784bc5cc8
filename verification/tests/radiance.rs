use raytracer::hittable::{HitRecord, HittableList};
use raytracer::material::Scatter;
use raytracer::radiance::{ray_color, Bounce, Radiance, T_MAX, T_MIN};
use raytracer::sphere::{Crossing, Root};

#[test]
fn depth_zero_casts_nothing() {
    assert_eq!(ray_color(0), None);
}

#[test]
fn positive_depth_leaves_one_less() {
    assert_eq!(ray_color(1), Some(Bounce { remaining: 0 }));
    assert_eq!(ray_color(50), Some(Bounce { remaining: 49 }));
    assert_eq!(ray_color(u32::MAX), Some(Bounce { remaining: u32::MAX - 1 }));
}

#[test]
fn a_miss_shows_the_background() {
    assert_eq!(Bounce { remaining: 7 }.shade(None), Radiance::Background);
    assert_eq!(Bounce { remaining: 0 }.shade(None), Radiance::Background);
}

#[test]
fn an_absorbed_ray_is_black() {
    assert_eq!(Bounce { remaining: 7 }.shade(Some(Scatter::Absorbed)), Radiance::Black);
}

#[test]
fn a_scattered_ray_is_traced_with_what_is_left() {
    assert_eq!(
        Bounce { remaining: 7 }.shade(Some(Scatter::Scattered)),
        Radiance::Attenuated { depth: 7 }
    );
    assert_eq!(
        Bounce { remaining: 0 }.shade(Some(Scatter::Scattered)),
        Radiance::Attenuated { depth: 0 }
    );
}

#[test]
fn a_path_of_scattering_surfaces_ends_when_the_depth_is_used_up() {
    let mut depth: u32 = 5;
    let mut casts: u32 = 0;
    while let Some(bounce) = ray_color(depth) {
        casts += 1;
        match bounce.shade(Some(Scatter::Scattered)) {
            Radiance::Attenuated { depth: next } => {
                assert!(next < depth);
                depth = next;
            }
            other => panic!("a scattered ray must be traced on, got {:?}", other),
        }
    }
    assert_eq!(casts, 5);
    assert_eq!(depth, 0);
}

#[test]
fn empty_scene_shows_the_background() {
    let world = HittableList { objects: vec![] };
    let bounce = ray_color(50).unwrap();
    let rec = bounce.cast(&world);
    assert_eq!(rec, None);
    assert_eq!(bounce.shade(rec.map(|_| Scatter::Scattered)), Radiance::Background);
}

#[test]
fn cast_looks_from_a_thousandth_to_infinity() {
    let bounce = ray_color(1).unwrap();
    let at = |near: i64, far: i64| HittableList { objects: vec![Some(Crossing { near, far })] };
    assert_eq!(
        bounce.cast(&at(T_MIN, T_MAX)),
        Some(HitRecord { index: 0, root: Root::Near, t: T_MIN, front_face: false })
    );
    assert_eq!(
        bounce.cast(&at(T_MIN - 1, T_MAX)),
        Some(HitRecord { index: 0, root: Root::Far, t: T_MAX, front_face: false })
    );
    assert_eq!(bounce.cast(&at(T_MIN - 1, T_MAX + 1)), None);
}

#[test]
fn a_ray_leaving_a_surface_does_not_hit_it_again() {
    // The roots of a ray that starts on the sphere and points away from it:
    // one at the origin of the ray, give or take rounding, one behind it.
    let bounce = ray_color(1).unwrap();
    let word = |x: f64| raytracer::scalar::ordinal(x.to_bits());
    for (near, far) in [(-2.0, 0.0), (-2.0, -0.0), (-0.5, 1e-16), (-1e300, -1e-16)] {
        let world = HittableList { objects: vec![Crossing::new(word(1.0), word(near), word(far))] };
        assert_eq!(bounce.cast(&world), None);
    }
}
