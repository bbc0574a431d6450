use cer_tracer::cer_object::{RayCerIntQuery, Vec3};
use cer_tracer::scalar::Scalar;
use cer_tracer::scene_cer::{bias, is_candidate, nearest_hit, needs_retest, SceneCer};
use std::cell::Cell;

fn s(x: f32) -> Scalar {
    Scalar::from_bits(x.to_bits())
}

fn hit(hit_t: f32, other_t: Option<f32>) -> RayCerIntQuery {
    let v = Vec3::new(s(0.0), s(1.0), s(0.0));
    RayCerIntQuery::hit(s(hit_t), other_t.map(s), v, v)
}

/// An object that reports `first` on the ray 0 and `second` on the ray 1.
#[derive(Clone, Debug, PartialEq)]
struct Stub {
    first: RayCerIntQuery,
    second: RayCerIntQuery,
}

fn stub(first: RayCerIntQuery) -> Stub {
    Stub { first, second: RayCerIntQuery::miss() }
}

fn ask(obj: &Stub, ray: &u8) -> RayCerIntQuery {
    if *ray == 0 {
        obj.first
    } else {
        obj.second
    }
}

#[test]
fn bias_is_one_thousandth() {
    assert_eq!(bias().to_bits(), 0.001f32.to_bits());
}

#[test]
fn hits_inside_the_bias_do_not_count() {
    assert!(is_candidate(hit(0.5, None)));
    assert!(is_candidate(hit(0.0011, None)));
    assert!(!is_candidate(hit(0.001, None)));
    assert!(!is_candidate(hit(0.0005, None)));
    assert!(!is_candidate(hit(-3.0, None)));
    assert!(!is_candidate(hit(f32::NAN, None)));
    assert!(!is_candidate(RayCerIntQuery::miss()));
    let mut stale = hit(5.0, None);
    stale.did_hit = false;
    assert!(!is_candidate(stale));
}

#[test]
fn retest_only_just_inside_a_surface() {
    assert!(needs_retest(hit(0.0005, Some(2.0))));
    assert!(needs_retest(hit(0.0, Some(2.0))));
    assert!(!needs_retest(hit(0.0005, Some(-2.0))));
    assert!(!needs_retest(hit(0.0005, None)));
    assert!(!needs_retest(hit(0.5, Some(2.0))));
    assert!(!needs_retest(hit(0.001, Some(2.0))));
    assert!(!needs_retest(RayCerIntQuery::miss()));
}

#[test]
fn nearest_is_the_smallest_distance() {
    let reports = vec![hit(5.0, None), hit(2.0, None), hit(9.0, None)];
    assert_eq!(nearest_hit(&reports), Some(1));
    let reports = vec![hit(5.0, None), RayCerIntQuery::miss(), hit(0.0001, None), hit(7.0, None)];
    assert_eq!(nearest_hit(&reports), Some(0));
}

#[test]
fn nothing_is_nearest_where_nothing_counts() {
    assert_eq!(nearest_hit(&Vec::new()), None);
    assert_eq!(nearest_hit(&vec![RayCerIntQuery::miss(), hit(0.0002, None)]), None);
}

#[test]
fn of_equal_distances_the_later_wins() {
    let reports = vec![hit(4.0, Some(6.0)), hit(4.0, Some(6.0))];
    assert_eq!(nearest_hit(&reports), Some(1));
    let reports = vec![hit(9.0, None), hit(4.0, None), hit(4.0, None), hit(4.0, None), hit(5.0, None)];
    assert_eq!(nearest_hit(&reports), Some(3));
}

#[test]
fn coincident_spheres_give_the_one_added_later() {
    let mut scene = SceneCer::default();
    scene.add_object(stub(hit(4.0, Some(6.0))));
    scene.add_object(stub(hit(4.0, Some(6.0))));
    let found = scene.find_nearest_hit(&0u8, &1u8, ask);
    assert_eq!(found, Some((1, hit(4.0, Some(6.0)))));
}

#[test]
fn scene_keeps_the_order_of_adding() {
    let mut scene = SceneCer::default();
    assert_eq!(scene.len(), 0);
    assert!(scene.get(0).is_none());
    scene.add_object(stub(hit(1.0, None)));
    scene.add_object(stub(hit(2.0, None)));
    scene.add_object(stub(hit(3.0, None)));
    assert_eq!(scene.len(), 3);
    assert_eq!(scene.get(0), Some(&stub(hit(1.0, None))));
    assert_eq!(scene.get(2), Some(&stub(hit(3.0, None))));
    assert!(scene.get(3).is_none());
    let seen: Vec<Scalar> = scene.iter().map(|o| o.first.hit_t).collect();
    assert_eq!(seen, vec![s(1.0), s(2.0), s(3.0)]);
}

#[test]
fn scene_clone_owns_its_objects() {
    let mut scene = SceneCer::default();
    scene.add_object(stub(hit(1.0, None)));
    let mut copy = scene.clone();
    copy.add_object(stub(hit(2.0, None)));
    assert_eq!(scene.len(), 1);
    assert_eq!(copy.len(), 2);
    assert_eq!(copy.get(0), scene.get(0));
}

#[test]
fn nearest_hit_of_a_scene() {
    let mut scene = SceneCer::default();
    scene.add_object(stub(hit(5.0, None)));
    scene.add_object(stub(RayCerIntQuery::miss()));
    scene.add_object(stub(hit(2.5, Some(4.0))));
    scene.add_object(stub(hit(8.0, None)));
    assert_eq!(scene.find_nearest_hit(&0u8, &1u8, ask), Some((2, hit(2.5, Some(4.0)))));
}

#[test]
fn empty_scene_has_no_hit() {
    let scene: SceneCer<Stub> = SceneCer::default();
    assert_eq!(scene.find_nearest_hit(&0u8, &1u8, ask), None);
    assert!(!scene.test_ray(&0u8, |o: &Stub, r: &u8| ask(o, r).did_hit));
}

#[test]
fn surface_just_left_is_tested_again_from_further_on() {
    let mut scene = SceneCer::default();
    scene.add_object(Stub { first: hit(0.0002, Some(2.0)), second: hit(1.999, Some(-0.001)) });
    scene.add_object(stub(hit(3.0, None)));
    assert_eq!(scene.find_nearest_hit(&0u8, &1u8, ask), Some((0, hit(1.999, Some(-0.001)))));
}

#[test]
fn second_test_that_misses_drops_the_object() {
    let mut scene = SceneCer::default();
    scene.add_object(Stub { first: hit(0.0002, Some(2.0)), second: RayCerIntQuery::miss() });
    assert_eq!(scene.find_nearest_hit(&0u8, &1u8, ask), None);
    scene.add_object(stub(hit(3.0, None)));
    assert_eq!(scene.find_nearest_hit(&0u8, &1u8, ask), Some((1, hit(3.0, None))));
}

#[test]
fn surface_behind_is_not_tested_again() {
    let asked = Cell::new(0u32);
    let mut scene = SceneCer::default();
    scene.add_object(Stub { first: hit(0.0002, Some(-2.0)), second: hit(1.0, None) });
    let found = scene.find_nearest_hit(&0u8, &1u8, |o: &Stub, r: &u8| {
        asked.set(asked.get() + 1);
        ask(o, r)
    });
    assert_eq!(found, None);
    assert_eq!(asked.get(), 1);
}

#[test]
fn visibility_stops_at_the_first_hit() {
    let asked = Cell::new(0u32);
    let mut scene = SceneCer::default();
    scene.add_object(stub(RayCerIntQuery::miss()));
    scene.add_object(stub(hit(0.0001, None)));
    scene.add_object(stub(hit(3.0, None)));
    let blocked = scene.test_ray(&0u8, |o: &Stub, r: &u8| {
        asked.set(asked.get() + 1);
        ask(o, r).did_hit
    });
    assert!(blocked);
    assert_eq!(asked.get(), 2);
}

#[test]
fn visibility_is_clear_where_nothing_is_hit() {
    let mut scene = SceneCer::default();
    scene.add_object(stub(RayCerIntQuery::miss()));
    scene.add_object(stub(RayCerIntQuery::miss()));
    assert!(!scene.test_ray(&0u8, |o: &Stub, r: &u8| ask(o, r).did_hit));
}
