use raydium::geom::Roots;
use raydium::math::scalar_from_bits;
use raydium::ray::color;
use raydium::ray::exhausted;
use raydium::ray::Encounter;
use raydium::ray::HitList;
use raydium::ray::HitRecord;
use raydium::ray::NormalFace;
use raydium::ray::Shade;

fn key(x: f64) -> i64 {
    scalar_from_bits(x.to_bits())
}

fn scene(surfaces: &[Option<(f64, f64)>]) -> HitList {
    let mut list = HitList::new();
    for s in surfaces {
        list.0.push(s.map(|(near, far)| Roots { near: key(near), far: key(far) }));
    }
    list
}

#[test]
fn facing_is_front_only_against_the_normal() {
    assert_eq!(NormalFace::facing(key(-1.0)), NormalFace::FrontOuter);
    assert_eq!(NormalFace::facing(key(-1.0e-300)), NormalFace::FrontOuter);
    assert_eq!(NormalFace::facing(key(0.0)), NormalFace::BackInner);
    assert_eq!(NormalFace::facing(key(-0.0)), NormalFace::BackInner);
    assert_eq!(NormalFace::facing(key(0.25)), NormalFace::BackInner);
}

#[test]
fn sphere_intersection_keeps_the_outward_normal() {
    // Direction (0, 0, -1) against the outward normal (0, 0, 1).
    let dot = 0.0 * 0.0 + 0.0 * 0.0 + -1.0 * 1.0;
    let face = NormalFace::facing(key(dot));
    assert_eq!(face, NormalFace::FrontOuter);
    assert!(!face.flips());
}

#[test]
fn recorded_normal_never_points_along_the_ray() {
    for &dot in [-7.0, -1.0, -1.0e-9, 0.0, 1.0e-9, 1.0, 7.0].iter() {
        let face = NormalFace::facing(key(dot));
        let oriented = if face.flips() { -dot } else { dot };
        assert!(oriented <= 0.0);
    }
}

#[test]
fn only_the_back_face_flips() {
    assert!(!NormalFace::FrontOuter.flips());
    assert!(NormalFace::BackInner.flips());
}

#[test]
fn new_record_faces_front() {
    let record = HitRecord::new(42, 3);
    assert_eq!(record, HitRecord { t: 42, normal_face: NormalFace::FrontOuter, surface: 3 });
}

#[test]
fn record_from_ray_is_oriented() {
    assert_eq!(
        HitRecord::from_ray(-5, 42, 3),
        HitRecord { t: 42, normal_face: NormalFace::FrontOuter, surface: 3 }
    );
    assert_eq!(
        HitRecord::from_ray(5, 42, 3),
        HitRecord { t: 42, normal_face: NormalFace::BackInner, surface: 3 }
    );
    assert_eq!(
        HitRecord::from_ray(0, 42, 3),
        HitRecord { t: 42, normal_face: NormalFace::BackInner, surface: 3 }
    );
}

#[test]
fn set_face_normal_changes_the_face_only() {
    let mut record = HitRecord::new(42, 3);
    record.set_face_normal(9);
    assert_eq!(record, HitRecord { t: 42, normal_face: NormalFace::BackInner, surface: 3 });
    record.set_face_normal(-9);
    assert_eq!(record, HitRecord { t: 42, normal_face: NormalFace::FrontOuter, surface: 3 });
}

#[test]
fn default_scene_is_empty() {
    let list = HitList::default();
    assert!(list.0.is_empty());
    assert_eq!(list.hit(i64::MIN, i64::MAX), None);
}

#[test]
fn empty_scene_has_no_hit() {
    let list = HitList::new();
    assert!(list.0.is_empty());
    assert_eq!(list.hit(key(0.001), key(f64::INFINITY)), None);
}

#[test]
fn nearest_of_two_overlapping_spheres_in_either_order() {
    // Two spheres on the ray's line: one crossed at 4 and 6, one at 3.5 and 4.5.
    let a = Some((4.0, 6.0));
    let b = Some((3.5, 4.5));
    let first = scene(&[a, b]).hit(key(0.001), key(f64::INFINITY)).unwrap();
    let second = scene(&[b, a]).hit(key(0.001), key(f64::INFINITY)).unwrap();
    assert_eq!(first.t, key(3.5));
    assert_eq!(second.t, key(3.5));
    assert_eq!(first.surface, 1);
    assert_eq!(second.surface, 0);
    assert_eq!(first.normal_face, NormalFace::FrontOuter);
}

#[test]
fn nearest_hit_is_the_same_for_every_order_of_three() {
    let s = [Some((7.0, 9.0)), Some((2.0, 3.0)), Some((2.5, 8.0))];
    let orders = [[0, 1, 2], [0, 2, 1], [1, 0, 2], [1, 2, 0], [2, 0, 1], [2, 1, 0]];
    for order in orders.iter() {
        let list = scene(&[s[order[0]], s[order[1]], s[order[2]]]);
        let found = list.hit(key(0.001), key(f64::INFINITY)).unwrap();
        assert_eq!(found.t, key(2.0));
        assert_eq!(order[found.surface], 1);
    }
}

#[test]
fn later_surface_wins_a_tie() {
    let list = scene(&[Some((4.0, 6.0)), Some((4.0, 5.0)), Some((5.0, 6.0))]);
    let found = list.hit(key(0.001), key(f64::INFINITY)).unwrap();
    assert_eq!(found.t, key(4.0));
    assert_eq!(found.surface, 1);
}

#[test]
fn surfaces_without_roots_are_passed_over() {
    let list = scene(&[None, Some((4.0, 6.0)), None]);
    let found = list.hit(key(0.001), key(f64::INFINITY)).unwrap();
    assert_eq!(found, HitRecord { t: key(4.0), normal_face: NormalFace::FrontOuter, surface: 1 });
    assert_eq!(scene(&[None, None]).hit(key(0.001), key(f64::INFINITY)), None);
}

#[test]
fn hits_outside_the_window_do_not_count() {
    let list = scene(&[Some((4.0, 6.0)), Some((-3.0, -1.0)), Some((20.0, 30.0))]);
    assert_eq!(list.hit(key(7.0), key(10.0)), None);
    assert_eq!(list.hit(key(0.001), key(3.0)), None);
    let found = list.hit(key(10.0), key(f64::INFINITY)).unwrap();
    assert_eq!((found.surface, found.t), (2, key(20.0)));
}

#[test]
fn far_root_of_a_surface_can_be_the_nearest_hit() {
    // The ray starts inside the first sphere and in front of the second.
    let list = scene(&[Some((-1.0, 1.0)), Some((3.0, 5.0))]);
    let found = list.hit(key(0.001), key(f64::INFINITY)).unwrap();
    assert_eq!((found.surface, found.t), (0, key(1.0)));
}

#[test]
fn a_nearer_hit_hides_the_roots_behind_it() {
    // With the bound tightened to 2, the second surface's roots are out of reach.
    let list = scene(&[Some((2.0, 9.0)), Some((2.5, 3.0))]);
    let found = list.hit(key(0.001), key(f64::INFINITY)).unwrap();
    assert_eq!((found.surface, found.t), (0, key(2.0)));
}

#[test]
fn depth_zero_is_black_whatever_was_met() {
    assert!(exhausted(0));
    assert_eq!(color(0, Encounter::Miss), Shade::Black);
    assert_eq!(color(0, Encounter::Absorbed), Shade::Black);
    assert_eq!(color(0, Encounter::Scattered), Shade::Black);
}

#[test]
fn a_ray_with_depth_left_is_not_exhausted() {
    assert!(!exhausted(1));
    assert!(!exhausted(50));
    assert!(!exhausted(u32::MAX));
}

#[test]
fn a_miss_shows_the_sky() {
    assert_eq!(color(1, Encounter::Miss), Shade::Sky);
    assert_eq!(color(50, Encounter::Miss), Shade::Sky);
}

#[test]
fn an_absorbed_ray_is_black() {
    assert_eq!(color(1, Encounter::Absorbed), Shade::Black);
    assert_eq!(color(50, Encounter::Absorbed), Shade::Black);
}

#[test]
fn a_scattered_ray_goes_on_with_one_bounce_fewer() {
    assert_eq!(color(50, Encounter::Scattered), Shade::Bounce { depth: 49 });
    assert_eq!(color(1, Encounter::Scattered), Shade::Bounce { depth: 0 });
    assert_eq!(color(u32::MAX, Encounter::Scattered), Shade::Bounce { depth: u32::MAX - 1 });
}

#[test]
fn a_mirror_box_ends_after_the_depth_it_was_given() {
    let mut depth = 5;
    let mut lookups = 0;
    let shade = loop {
        if exhausted(depth) {
            break Shade::Black;
        }
        lookups += 1;
        match color(depth, Encounter::Scattered) {
            Shade::Bounce { depth: rest } => depth = rest,
            last => break last,
        }
    };
    assert_eq!(shade, Shade::Black);
    assert_eq!(lookups, 5);
}
