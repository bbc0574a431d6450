//! The integrator: how far a path is followed, and how the light along it is
//! put together.
//!
//! What a surface sends on and what colour two colours make are arithmetic on
//! binary32 numbers; the caller hands them in as functions. What is decided
//! here is the shape of the recursion: when it stops, which object a ray
//! meets, and in which order the continuation rays are followed.

use crate::cer_mat::RefractiveStack;
use crate::cer_object::RayCerIntQuery;
use crate::scalar::Scalar;
use crate::scene_cer::{found, SceneCer};
use vstd::prelude::*;

verus! {

/// The number of bounces after which a path is given up.
pub const MAX_RAY_DEPTH: u32 = 16;

/// The number of paths that are averaged for one pixel.
pub const NUM_SAMPLES: usize = 32;

/// Whether a path that has bounced `depth` times is followed further.
pub open spec fn spec_may_bounce(depth: u32) -> bool {
    depth < MAX_RAY_DEPTH
}

#[verifier::when_used_as_spec(spec_may_bounce)]
pub fn may_bounce(depth: u32) -> (r: bool)
    ensures
        r == spec_may_bounce(depth),
{
    depth < MAX_RAY_DEPTH
}

/// The arithmetic that the integrator leaves to its caller.
///
/// `query(object, ray)` tests one object against a ray. `nudged(ray)` is the
/// ray started one bias further on, for the second test of a surface that the
/// ray starts just inside of. `scatter(object, ray, report, stack)` is what
/// the surface does with the ray: its colour, the rays to follow with their
/// weights, and the stack of media as the surface leaves it.
/// `modulate(colour, incoming, weight)` works the light that comes back along
/// a continuation ray into a colour. `background(ray)` is the light of a ray
/// that meets nothing.
pub struct Shading<Q, N, S, M, B> {
    pub query: Q,
    pub nudged: N,
    pub scatter: S,
    pub modulate: M,
    pub background: B,
}

/// Whether every function of `shading` may be called on every argument.
pub open spec fn total<O, R, C, Q, N, S, M, B>(shading: Shading<Q, N, S, M, B>) -> bool where
    Q: Fn(&O, &R) -> RayCerIntQuery,
    N: Fn(&R) -> R,
    S: Fn(&O, &R, &RayCerIntQuery, RefractiveStack) -> (C, Vec<(R, Scalar)>, RefractiveStack),
    M: Fn(C, C, Scalar) -> C,
    B: Fn(&R) -> C,
 {
    &&& forall|o: &O, r: &R| call_requires(shading.query, (o, r))
    &&& forall|r: &R| call_requires(shading.nudged, (r,))
    &&& forall|o: &O, r: &R, q: &RayCerIntQuery, s: RefractiveStack|
        call_requires(shading.scatter, (o, r, q, s))
    &&& forall|a: C, b: C, w: Scalar| call_requires(shading.modulate, (a, b, w))
    &&& forall|r: &R| call_requires(shading.background, (r,))
}

/// Whether `color` may come back along `ray` after `depth` bounces, with the
/// stack of media going from `before` to `after`.
///
/// A path that has used up its bounces gets the background and leaves the
/// stack alone. So does a ray that meets nothing. Otherwise the nearest
/// object scatters the ray, on a stack that equals `before`, and the colour
/// that it gives is modulated by what comes back along each of its
/// continuation rays in turn ([`folded`]).
pub open spec fn traced<O, R, C, Q, N, S, M, B>(
    shading: Shading<Q, N, S, M, B>,
    objects: Seq<O>,
    depth: u32,
    ray: R,
    before: RefractiveStack,
    color: C,
    after: RefractiveStack,
) -> bool where
    Q: Fn(&O, &R) -> RayCerIntQuery,
    N: Fn(&R) -> R,
    S: Fn(&O, &R, &RayCerIntQuery, RefractiveStack) -> (C, Vec<(R, Scalar)>, RefractiveStack),
    M: Fn(C, C, Scalar) -> C,
    B: Fn(&R) -> C,

    decreases MAX_RAY_DEPTH - depth, 0int,
{
    if !may_bounce(depth) {
        call_ensures(shading.background, (&ray,), color) && after@ == before@
    } else {
        exists|nudged_ray: R, nearest: Option<(usize, RayCerIntQuery)>|
            {
                &&& #[trigger] found(objects, &shading.query, ray, nudged_ray, nearest)
                &&& call_ensures(shading.nudged, (&ray,), nudged_ray)
                &&& match nearest {
                    None => call_ensures(shading.background, (&ray,), color) && after@ == before@,
                    Some((k, report)) => k < objects.len() && exists|
                        handed: RefractiveStack,
                        given: (C, Vec<(R, Scalar)>, RefractiveStack),
                    |
                        {
                            &&& #[trigger] call_ensures(
                                shading.scatter,
                                (&objects[k as int], &ray, &report, handed),
                                given,
                            )
                            &&& handed@ == before@
                            &&& folded(
                                shading,
                                objects,
                                (depth + 1) as u32,
                                given.1@,
                                0,
                                given.0,
                                given.2,
                                color,
                                after,
                            )
                        },
                }
            }
    }
}

/// Whether following the rays `rays[from..]` in turn, each after `depth`
/// bounces, takes the colour `acc` to `color` and the stack from `stack` to
/// `after`: each ray is traced ([`traced`]), and what comes back along it is
/// worked into the colour with the ray's weight.
pub open spec fn folded<O, R, C, Q, N, S, M, B>(
    shading: Shading<Q, N, S, M, B>,
    objects: Seq<O>,
    depth: u32,
    rays: Seq<(R, Scalar)>,
    from: int,
    acc: C,
    stack: RefractiveStack,
    color: C,
    after: RefractiveStack,
) -> bool where
    Q: Fn(&O, &R) -> RayCerIntQuery,
    N: Fn(&R) -> R,
    S: Fn(&O, &R, &RayCerIntQuery, RefractiveStack) -> (C, Vec<(R, Scalar)>, RefractiveStack),
    M: Fn(C, C, Scalar) -> C,
    B: Fn(&R) -> C,

    decreases MAX_RAY_DEPTH - depth, 1 + rays.len() - from,
{
    if from < 0 || from >= rays.len() {
        color == acc && after@ == stack@
    } else {
        exists|incoming: C, mid: RefractiveStack, next: C|
            {
                &&& #[trigger] came_back(incoming, mid, next)
                &&& traced(shading, objects, depth, rays[from].0, stack, incoming, mid)
                &&& call_ensures(shading.modulate, (acc, incoming, rays[from].1), next)
                &&& folded(shading, objects, depth, rays, from + 1, next, mid, color, after)
            }
    }
}

/// Names what one continuation ray brought: the light `incoming` that came
/// back along it, the stack `mid` that it left, and the colour `next` that
/// the light was worked into. It says nothing of them.
pub open spec fn came_back<C>(incoming: C, mid: RefractiveStack, next: C) -> bool {
    true
}

/// Follows `ray` through `scene` and returns the light that comes back
/// along it, as [`traced`] says.
///
/// A path that has used up its bounces, or a ray that meets nothing, gets
/// `background(ray)`. Otherwise the nearest object scatters the ray: it
/// gives a colour and the rays to follow, each with a weight, and may change
/// the stack of media. Each of these rays is followed in turn with one
/// bounce more, and what comes back along it is worked into the colour by
/// `modulate(colour, incoming, weight)`.
pub fn send_ray<O, R, C, Q, N, S, M, B>(
    ray: &R,
    scene: &SceneCer<O>,
    depth: u32,
    ri_stack: &mut RefractiveStack,
    shading: &Shading<Q, N, S, M, B>,
) -> (color: C) where
    Q: Fn(&O, &R) -> RayCerIntQuery,
    N: Fn(&R) -> R,
    S: Fn(&O, &R, &RayCerIntQuery, RefractiveStack) -> (C, Vec<(R, Scalar)>, RefractiveStack),
    M: Fn(C, C, Scalar) -> C,
    B: Fn(&R) -> C,

    requires
        total::<O, R, C, Q, N, S, M, B>(*shading),
    ensures
        traced(*shading, scene@, depth, *ray, *old(ri_stack), color, *final(ri_stack)),
        !may_bounce(depth) ==> call_ensures(shading.background, (ray,), color),
        !may_bounce(depth) ==> final(ri_stack)@ == old(ri_stack)@,
    decreases MAX_RAY_DEPTH - depth,
{
    if !may_bounce(depth) {
        return (shading.background)(ray);
    }
    let ghost before = *ri_stack;
    let nudged_ray = (shading.nudged)(ray);
    let nearest = scene.find_nearest_hit(ray, &nudged_ray, &shading.query);
    let (index, report) = match nearest {
        Some(hit) => hit,
        None => {
            return (shading.background)(ray);
        },
    };
    let obj = match scene.get(index) {
        Some(obj) => obj,
        None => {
            assert(false);
            return (shading.background)(ray);
        },
    };
    let handed = ri_stack.clone();
    let ghost handed_stack = handed;
    let given = (shading.scatter)(obj, ray, &report, handed);
    let ghost given_all = given;
    let (emitted, rays, scattered) = given;
    *ri_stack = scattered;
    let mut color = emitted;
    let mut i: usize = 0;
    while i < rays.len()
        invariant
            i <= rays@.len(),
            may_bounce(depth),
            total::<O, R, C, Q, N, S, M, B>(*shading),
            rays@ == given_all.1@,
            forall|last: C, after: RefractiveStack| #[trigger]
                folded(*shading, scene@, (depth + 1) as u32, rays@, i as int, color, *ri_stack, last, after)
                    ==> folded(
                    *shading,
                    scene@,
                    (depth + 1) as u32,
                    rays@,
                    0,
                    given_all.0,
                    given_all.2,
                    last,
                    after,
                ),
        decreases rays@.len() - i,
    {
        let ghost acc = color;
        let ghost stack = *ri_stack;
        let incoming = send_ray(&rays[i].0, scene, depth + 1, ri_stack, shading);
        let ghost came = incoming;
        let next = (shading.modulate)(color, incoming, rays[i].1);
        color = next;
        proof {
            let mid = *ri_stack;
            assert forall|last: C, after: RefractiveStack| #[trigger]
                folded(
                    *shading,
                    scene@,
                    (depth + 1) as u32,
                    rays@,
                    i + 1,
                    color,
                    mid,
                    last,
                    after,
                ) implies folded(
                *shading,
                scene@,
                (depth + 1) as u32,
                rays@,
                0,
                given_all.0,
                given_all.2,
                last,
                after,
            ) by {
                assert(came_back(came, mid, color));
                assert(folded(
                    *shading,
                    scene@,
                    (depth + 1) as u32,
                    rays@,
                    i as int,
                    acc,
                    stack,
                    last,
                    after,
                ));
            }
        }
        i += 1;
    }
    proof {
        assert(folded(
            *shading,
            scene@,
            (depth + 1) as u32,
            rays@,
            i as int,
            color,
            *ri_stack,
            color,
            *ri_stack,
        ));
        assert(call_ensures(
            shading.scatter,
            (&scene@[index as int], ray, &report, handed_stack),
            given_all,
        ));
    }
    color
}

} // verus!
