//! What an intersection test reports, and the decisions that a sphere and a
//! plane take once the arithmetic is done.
//!
//! The caller solves the quadratic or the linear equation on binary32 numbers
//! and hands over the discriminant, the roots and the dot products. The
//! functions here decide from their signs and order whether the ray hits,
//! which root is the hit, and whether the normal is turned round. A value that
//! is not a number never counts as a hit.

use crate::scalar::Scalar;
use vstd::prelude::*;

verus! {

/// A point or a direction: three binary32 numbers.
#[derive(Clone, Copy, Debug, PartialEq, Eq, Structural)]
pub struct Vec3 {
    pub x: Scalar,
    pub y: Scalar,
    pub z: Scalar,
}

impl Vec3 {
    pub fn new(x: Scalar, y: Scalar, z: Scalar) -> (v: Vec3)
        ensures
            v.x == x,
            v.y == y,
            v.z == z,
    {
        Vec3 { x: x, y: y, z: z }
    }

    /// Whether no coordinate is a number, as in a record that was never
    /// filled in.
    pub open spec fn spec_is_unset(self) -> bool {
        self.x.is_nan() && self.y.is_nan() && self.z.is_nan()
    }

    #[verifier::when_used_as_spec(spec_is_unset)]
    pub fn is_unset(self) -> (r: bool)
        ensures
            r == self.spec_is_unset(),
    {
        self.x.is_nan() && self.y.is_nan() && self.z.is_nan()
    }
}

/// The result of one intersection test.
///
/// `hit_t` is the ray parameter of the hit. `other_t` is the other root where
/// the surface has two (a sphere), which tells entering from leaving; a plane
/// has none. `normal_int` is the unit normal at the hit and `coords_int` the
/// point of the hit.
#[derive(Clone, Copy, Debug, PartialEq)]
pub struct RayCerIntQuery {
    pub did_hit: bool,
    pub hit_t: Scalar,
    pub other_t: Option<Scalar>,
    pub normal_int: Vec3,
    pub coords_int: Vec3,
}

impl RayCerIntQuery {
    /// Whether the record is the unset one: no hit, and not a number
    /// anywhere, so that nobody takes it for a hit at the origin.
    pub open spec fn is_unset(self) -> bool {
        &&& !self.did_hit
        &&& self.hit_t.is_nan()
        &&& self.other_t is None
        &&& self.normal_int.is_unset()
        &&& self.coords_int.is_unset()
    }

    /// The unset record.
    pub open spec fn unset() -> RayCerIntQuery {
        RayCerIntQuery {
            did_hit: false,
            hit_t: Scalar::nan(),
            other_t: None,
            normal_int: Vec3 { x: Scalar::nan(), y: Scalar::nan(), z: Scalar::nan() },
            coords_int: Vec3 { x: Scalar::nan(), y: Scalar::nan(), z: Scalar::nan() },
        }
    }

    /// The record of a miss: the unset record.
    pub fn miss() -> (q: RayCerIntQuery)
        ensures
            q == RayCerIntQuery::unset(),
            q.is_unset(),
    {
        let nan = Scalar::nan();
        RayCerIntQuery {
            did_hit: false,
            hit_t: nan,
            other_t: None,
            normal_int: Vec3 { x: nan, y: nan, z: nan },
            coords_int: Vec3 { x: nan, y: nan, z: nan },
        }
    }

    /// The record of a hit at `hit_t`.
    pub fn hit(hit_t: Scalar, other_t: Option<Scalar>, normal_int: Vec3, coords_int: Vec3) -> (q:
        RayCerIntQuery)
        ensures
            q == (RayCerIntQuery {
                did_hit: true,
                hit_t: hit_t,
                other_t: other_t,
                normal_int: normal_int,
                coords_int: coords_int,
            }),
    {
        RayCerIntQuery {
            did_hit: true,
            hit_t: hit_t,
            other_t: other_t,
            normal_int: normal_int,
            coords_int: coords_int,
        }
    }
}

impl Default for RayCerIntQuery {
    /// The unset record.
    fn default() -> (q: RayCerIntQuery)
        ensures
            q == RayCerIntQuery::unset(),
            q.is_unset(),
    {
        RayCerIntQuery::miss()
    }
}

/// Whether a quadratic with this discriminant has real roots: the
/// discriminant is a number and not below zero.
pub open spec fn spec_has_real_roots(discriminant: Scalar) -> bool {
    discriminant.ge(Scalar::zero())
}

#[verifier::when_used_as_spec(spec_has_real_roots)]
pub fn has_real_roots(discriminant: Scalar) -> (r: bool)
    ensures
        r == spec_has_real_roots(discriminant),
{
    discriminant.ge(Scalar::zero())
}

/// Whether the surface is met at or in front of the ray's origin: both roots
/// are numbers and one of them is not below zero.
pub open spec fn root_ahead(t1: Scalar, t2: Scalar) -> bool {
    !t1.is_nan() && !t2.is_nan() && (t1.ge(Scalar::zero()) || t2.ge(Scalar::zero()))
}

/// Picks the hit among the two roots of a sphere's quadratic and returns it
/// with the other root, or nothing where the sphere lies behind the ray.
///
/// The hit is the only root that is not below zero, or the smaller one where
/// neither is; of two equal roots the second is the hit.
pub fn select_roots(t1: Scalar, t2: Scalar) -> (roots: Option<(Scalar, Scalar)>)
    ensures
        roots is Some <==> root_ahead(t1, t2),
        roots matches Some((hit_t, other_t)) ==> {
            &&& (hit_t == t1 && other_t == t2) || (hit_t == t2 && other_t == t1)
            &&& hit_t.ge(Scalar::zero())
            &&& other_t.ge(Scalar::zero()) ==> hit_t.le(other_t)
            &&& t1.ge(Scalar::zero()) && t2.ge(Scalar::zero()) && !t1.lt(t2) ==> hit_t == t2
                && other_t == t1
        },
{
    if t1.is_nan() || t2.is_nan() {
        return None;
    }
    let zero = Scalar::zero();
    if t1.lt(zero) {
        if t2.lt(zero) {
            None
        } else {
            Some((t2, t1))
        }
    } else if t2.lt(zero) {
        Some((t1, t2))
    } else if t1.lt(t2) {
        Some((t1, t2))
    } else {
        Some((t2, t1))
    }
}

/// The visibility test of a sphere: whether the ray meets it at all, with
/// the root logic of [`select_roots`] and nothing else.
pub fn sphere_did_hit(discriminant: Scalar, t1: Scalar, t2: Scalar) -> (r: bool)
    ensures
        r == (has_real_roots(discriminant) && root_ahead(t1, t2)),
{
    has_real_roots(discriminant) && select_roots(t1, t2).is_some()
}

/// Whether the outward normal of a sphere is turned round, given the
/// sphere's radius and `facing`, the dot product of the ray's direction with
/// the outward normal. Nothing where `facing` is not a number: there is no
/// valid hit then.
///
/// A radius with the sign bit set always turns the normal inward. Otherwise
/// the normal is turned to face the ray where the ray comes from behind
/// (`facing >= 0`).
pub fn sphere_normal_flipped(radius: Scalar, facing: Scalar) -> (flip: Option<bool>)
    ensures
        flip is None <==> facing.is_nan(),
        flip matches Some(f) ==> f == (radius.is_sign_negative() || facing.ge(Scalar::zero())),
{
    if facing.is_nan() {
        None
    } else {
        Some(radius.is_sign_negative() || facing.ge(Scalar::zero()))
    }
}

/// Whether a ray hits a plane, given `facing`, the dot product of the ray's
/// direction with the plane's normal, and the root `t` of the linear
/// equation: the ray is not parallel to the plane (`facing` is a number other
/// than zero) and the root is not below zero.
pub fn plane_did_hit(facing: Scalar, t: Scalar) -> (r: bool)
    ensures
        r == (!facing.is_nan() && !facing.num_eq(Scalar::zero()) && t.ge(Scalar::zero())),
{
    !facing.is_nan() && !facing.num_eq(Scalar::zero()) && t.ge(Scalar::zero())
}

} // verus!
