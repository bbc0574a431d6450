use cer_tracer::cer_object::{
    has_real_roots, plane_did_hit, select_roots, sphere_did_hit, sphere_normal_flipped,
    RayCerIntQuery, Vec3,
};
use cer_tracer::scalar::Scalar;

fn s(x: f32) -> Scalar {
    Scalar::from_bits(x.to_bits())
}

fn roots_of(origin_z: f32, radius: f32) -> (f32, f32, f32) {
    // A ray from (0, 0, origin_z) along +z against a sphere at the origin.
    let a = 1.0f32;
    let b = 2.0 * origin_z;
    let c = origin_z * origin_z - radius * radius;
    let disc = b * b - 4.0 * a * c;
    let root = disc.sqrt();
    (disc, (-b + root) / (2.0 * a), (-b - root) / (2.0 * a))
}

#[test]
fn ray_from_outside_hits_the_near_side() {
    let (disc, t1, t2) = roots_of(-5.0, 1.0);
    assert!(has_real_roots(s(disc)));
    assert_eq!(select_roots(s(t1), s(t2)), Some((s(4.0), s(6.0))));
    let (disc, t1, t2) = roots_of(-3.5, 1.5);
    assert!(has_real_roots(s(disc)));
    assert_eq!(select_roots(s(t1), s(t2)), Some((s(2.0), s(5.0))));
}

#[test]
fn ray_from_inside_hits_the_root_ahead() {
    let (_, t1, t2) = roots_of(0.0, 2.0);
    assert_eq!(select_roots(s(t1), s(t2)), Some((s(2.0), s(-2.0))));
    assert_eq!(select_roots(s(-2.0), s(2.0)), Some((s(2.0), s(-2.0))));
}

#[test]
fn sphere_behind_the_ray_is_missed() {
    let (disc, t1, t2) = roots_of(5.0, 1.0);
    assert!(has_real_roots(s(disc)));
    assert_eq!(select_roots(s(t1), s(t2)), None);
    assert!(!sphere_did_hit(s(disc), s(t1), s(t2)));
}

#[test]
fn smaller_root_wins_in_either_order() {
    assert_eq!(select_roots(s(3.0), s(7.0)), Some((s(3.0), s(7.0))));
    assert_eq!(select_roots(s(7.0), s(3.0)), Some((s(3.0), s(7.0))));
}

#[test]
fn of_equal_roots_the_second_is_the_hit() {
    assert_eq!(select_roots(s(0.0), s(-0.0)), Some((s(-0.0), s(0.0))));
    assert_eq!(select_roots(s(-0.0), s(0.0)), Some((s(0.0), s(-0.0))));
    assert_eq!(select_roots(s(4.0), s(4.0)), Some((s(4.0), s(4.0))));
}

#[test]
fn roots_that_are_no_numbers_are_a_miss() {
    assert_eq!(select_roots(s(f32::NAN), s(1.0)), None);
    assert_eq!(select_roots(s(1.0), s(f32::NAN)), None);
    assert_eq!(select_roots(s(f32::NAN), s(f32::NAN)), None);
    assert!(!sphere_did_hit(s(1.0), s(f32::NAN), s(2.0)));
}

#[test]
fn negative_discriminant_has_no_roots() {
    assert!(!has_real_roots(s(-0.5)));
    assert!(!has_real_roots(s(f32::NAN)));
    assert!(has_real_roots(s(0.0)));
    assert!(has_real_roots(s(-0.0)));
    assert!(has_real_roots(s(12.0)));
    let (disc, t1, t2) = roots_of(-5.0, 1.0);
    assert!(sphere_did_hit(s(disc), s(t1), s(t2)));
    assert!(!sphere_did_hit(s(-1.0), s(t1), s(t2)));
}

#[test]
fn normal_is_turned_to_face_the_ray() {
    assert_eq!(sphere_normal_flipped(s(1.0), s(-0.7)), Some(false));
    assert_eq!(sphere_normal_flipped(s(1.0), s(0.7)), Some(true));
    assert_eq!(sphere_normal_flipped(s(1.0), s(0.0)), Some(true));
}

#[test]
fn negative_radius_always_turns_the_normal() {
    assert_eq!(sphere_normal_flipped(s(-1.0), s(-0.7)), Some(true));
    assert_eq!(sphere_normal_flipped(s(-1.0), s(0.7)), Some(true));
    assert_eq!(sphere_normal_flipped(s(-0.0), s(-0.7)), Some(true));
}

#[test]
fn facing_that_is_no_number_is_no_hit() {
    assert_eq!(sphere_normal_flipped(s(1.0), s(f32::NAN)), None);
    assert_eq!(sphere_normal_flipped(s(-1.0), s(f32::NAN)), None);
}

#[test]
fn plane_is_hit_ahead_only() {
    assert!(plane_did_hit(s(-1.0), s(3.0)));
    assert!(plane_did_hit(s(0.25), s(0.0)));
    assert!(!plane_did_hit(s(-1.0), s(-3.0)));
}

#[test]
fn parallel_ray_misses_the_plane() {
    assert!(!plane_did_hit(s(0.0), s(f32::INFINITY)));
    assert!(!plane_did_hit(s(-0.0), s(3.0)));
    assert!(!plane_did_hit(s(f32::NAN), s(3.0)));
    assert!(!plane_did_hit(s(1.0), s(f32::NAN)));
}

#[test]
fn default_record_is_unset() {
    let q = RayCerIntQuery::default();
    assert!(!q.did_hit);
    assert!(f32::from_bits(q.hit_t.to_bits()).is_nan());
    assert_eq!(q.other_t, None);
    assert!(q.normal_int.is_unset());
    assert!(q.coords_int.is_unset());
    for v in [q.normal_int, q.coords_int] {
        assert!(f32::from_bits(v.x.to_bits()).is_nan());
        assert!(f32::from_bits(v.y.to_bits()).is_nan());
        assert!(f32::from_bits(v.z.to_bits()).is_nan());
    }
    assert_eq!(q, RayCerIntQuery::miss());
}

#[test]
fn hit_record_keeps_what_it_is_given() {
    let n = Vec3::new(s(0.0), s(0.0), s(-1.0));
    let p = Vec3::new(s(0.0), s(0.0), s(-1.0));
    let q = RayCerIntQuery::hit(s(4.0), Some(s(6.0)), n, p);
    assert!(q.did_hit);
    assert_eq!(q.hit_t, s(4.0));
    assert_eq!(q.other_t, Some(s(6.0)));
    assert_eq!(q.normal_int, n);
    assert_eq!(q.coords_int, p);
    assert!(!n.is_unset());
    assert!(!Vec3::new(s(f32::NAN), s(f32::NAN), s(1.0)).is_unset());
}
