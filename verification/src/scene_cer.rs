//! The scene: the objects in the order in which they were added, the
//! visibility test and the nearest-hit query.
//!
//! The scene does not know what an object or a ray is. The caller hands it
//! the intersection test as a function, and the scene decides which of the
//! reported hits counts.

use crate::cer_object::RayCerIntQuery;
use crate::scalar::Scalar;
use vstd::prelude::*;

verus! {

/// The encoding of the bias, one thousandth: a hit nearer than this along the
/// ray is the surface that the ray has just left.
pub const BIAS_BITS: u32 = 0x3A83_126F;

/// The bias as a number.
pub open spec fn spec_bias() -> Scalar {
    Scalar { bits: BIAS_BITS }
}

#[verifier::when_used_as_spec(spec_bias)]
pub fn bias() -> (b: Scalar)
    ensures
        b == spec_bias(),
{
    Scalar::from_bits(BIAS_BITS)
}

/// Whether a reported hit is to be tested again from a point moved on by the
/// bias: it lies inside the bias, and the other root lies farther along the
/// ray, so the ray starts just inside the surface.
pub open spec fn spec_needs_retest(q: RayCerIntQuery) -> bool {
    q.did_hit && q.hit_t.lt(bias()) && (q.other_t matches Some(other_t) && other_t.gt(q.hit_t))
}

#[verifier::when_used_as_spec(spec_needs_retest)]
pub fn needs_retest(q: RayCerIntQuery) -> (r: bool)
    ensures
        r == spec_needs_retest(q),
{
    q.did_hit && q.hit_t.lt(bias()) && match q.other_t {
        Some(other_t) => other_t.gt(q.hit_t),
        None => false,
    }
}

/// Whether a report counts as a hit of the scene: a hit beyond the bias.
pub open spec fn spec_is_candidate(q: RayCerIntQuery) -> bool {
    q.did_hit && q.hit_t.gt(bias())
}

#[verifier::when_used_as_spec(spec_is_candidate)]
pub fn is_candidate(q: RayCerIntQuery) -> (r: bool)
    ensures
        r == spec_is_candidate(q),
{
    q.did_hit && q.hit_t.gt(bias())
}

/// Whether report `k` is the nearest hit among `seen`: it counts, no report
/// that counts is nearer, and every later one that counts is farther. Of
/// several hits at the same smallest distance the last is the nearest.
pub open spec fn is_nearest(seen: Seq<RayCerIntQuery>, k: int) -> bool {
    &&& 0 <= k < seen.len()
    &&& is_candidate(seen[k])
    &&& forall|i: int|
        0 <= i < seen.len() && is_candidate(#[trigger] seen[i]) ==> seen[k].hit_t.le(seen[i].hit_t)
    &&& forall|i: int|
        k < i < seen.len() && is_candidate(#[trigger] seen[i]) ==> seen[k].hit_t.lt(seen[i].hit_t)
}

/// Whether no report among `seen` counts.
pub open spec fn none_counts(seen: Seq<RayCerIntQuery>) -> bool {
    forall|i: int| 0 <= i < seen.len() ==> !is_candidate(#[trigger] seen[i])
}

/// The index of the nearest hit among the reports, or nothing where none
/// counts.
pub fn nearest_hit(queries: &Vec<RayCerIntQuery>) -> (nearest: Option<usize>)
    ensures
        nearest is None <==> none_counts(queries@),
        nearest matches Some(k) ==> is_nearest(queries@, k as int),
{
    let mut nearest: Option<usize> = None;
    let mut i: usize = 0;
    while i < queries.len()
        invariant
            i <= queries@.len(),
            nearest is None <==> none_counts(queries@.take(i as int)),
            nearest matches Some(k) ==> is_nearest(queries@.take(i as int), k as int),
        decreases queries@.len() - i,
    {
        let ghost before = queries@.take(i as int);
        let ghost after = queries@.take(i + 1);
        assert(forall|j: int| 0 <= j < i ==> after[j] == before[j]);
        assert(after[i as int] == queries@[i as int]);
        if is_candidate(queries[i]) {
            let replace = match nearest {
                Some(k) => {
                    assert(is_candidate(before[k as int]));
                    queries[k].hit_t.ge(queries[i].hit_t)
                },
                None => true,
            };
            if replace {
                proof {
                    assert forall|j: int|
                        0 <= j < after.len() && is_candidate(#[trigger] after[j]) implies after[i as int].hit_t.le(
                        after[j].hit_t,
                    ) by {
                        if j < i {
                            let k = nearest->0 as int;
                            assert(is_candidate(before[j]));
                            assert(before[k].hit_t.le(before[j].hit_t));
                        }
                    }
                }
                nearest = Some(i);
            } else {
                proof {
                    let k = nearest->0 as int;
                    assert(before[k].hit_t.lt(after[i as int].hit_t));
                    assert forall|j: int|
                        0 <= j < after.len() && is_candidate(#[trigger] after[j]) implies after[k].hit_t.le(
                        after[j].hit_t,
                    ) by {
                        if j < i {
                            assert(is_candidate(before[j]));
                        }
                    }
                    assert forall|j: int|
                        k < j < after.len() && is_candidate(#[trigger] after[j]) implies after[k].hit_t.lt(
                        after[j].hit_t,
                    ) by {
                        if j < i {
                            assert(is_candidate(before[j]));
                        }
                    }
                }
            }
        } else {
            proof {
                if nearest is Some {
                    let k = nearest->0 as int;
                    assert forall|j: int|
                        0 <= j < after.len() && is_candidate(#[trigger] after[j]) implies after[k].hit_t.le(
                        after[j].hit_t,
                    ) by {
                        assert(is_candidate(before[j]));
                    }
                    assert forall|j: int|
                        k < j < after.len() && is_candidate(#[trigger] after[j]) implies after[k].hit_t.lt(
                        after[j].hit_t,
                    ) by {
                        assert(is_candidate(before[j]));
                    }
                } else {
                    assert forall|j: int| 0 <= j < after.len() implies !is_candidate(
                        #[trigger] after[j],
                    ) by {
                        if j < i {
                            assert(!is_candidate(before[j]));
                        }
                    }
                }
            }
        }
        proof {
            if nearest is Some {
                assert(!none_counts(after)) by {
                    let k = nearest->0 as int;
                    assert(is_candidate(after[k]));
                }
            }
        }
        i += 1;
    }
    assert(queries@.take(i as int) =~= queries@);
    nearest
}

/// Two reports cannot both be the nearest.
pub proof fn lemma_nearest_is_unique(seen: Seq<RayCerIntQuery>, j: int, k: int)
    requires
        is_nearest(seen, j),
        is_nearest(seen, k),
    ensures
        j == k,
{
    if j < k {
        assert(seen[j].hit_t.lt(seen[k].hit_t));
        assert(seen[k].hit_t.le(seen[j].hit_t));
    } else if k < j {
        assert(seen[k].hit_t.lt(seen[j].hit_t));
        assert(seen[j].hit_t.le(seen[k].hit_t));
    }
}

/// Of two hits that count and lie at the same distance, the one reported
/// later wins: a hit as near as the nearest is not reported after it.
pub proof fn lemma_tie_goes_to_later(seen: Seq<RayCerIntQuery>, j: int, k: int)
    requires
        is_nearest(seen, k),
        0 <= j < seen.len(),
        is_candidate(seen[j]),
        seen[j].hit_t.num_eq(seen[k].hit_t),
    ensures
        j <= k,
{
    if k < j {
        assert(seen[k].hit_t.lt(seen[j].hit_t));
    }
}

/// What the nearest-hit query may report of one object: what the test on the
/// ray returned, or, where that is to be tested again, what the test on the
/// moved ray returned.
pub open spec fn observed<O, R, F: Fn(&O, &R) -> RayCerIntQuery>(
    query: F,
    obj: O,
    ray: R,
    nudged_ray: R,
    q: RayCerIntQuery,
) -> bool {
    exists|first: RayCerIntQuery|
        #![trigger call_ensures(query, (&obj, &ray), first)]
        call_ensures(query, (&obj, &ray), first) && if needs_retest(first) {
            call_ensures(query, (&obj, &nudged_ray), q)
        } else {
            q == first
        }
}

/// Whether `nearest` answers the nearest-hit query on `objects`: there is
/// one report for each object that the query may have seen of it
/// ([`observed`]), and `nearest` is the index and the report of the nearest
/// among them ([`is_nearest`]), or nothing where none counts.
pub open spec fn found<O, R, F: Fn(&O, &R) -> RayCerIntQuery>(
    objects: Seq<O>,
    query: F,
    ray: R,
    nudged_ray: R,
    nearest: Option<(usize, RayCerIntQuery)>,
) -> bool {
    exists|seen: Seq<RayCerIntQuery>|
        {
            &&& seen.len() == objects.len()
            &&& forall|i: int|
                0 <= i < seen.len() ==> observed(
                    query,
                    objects[i],
                    ray,
                    nudged_ray,
                    #[trigger] seen[i],
                )
            &&& nearest is None <==> none_counts(seen)
            &&& nearest matches Some((k, q)) ==> is_nearest(seen, k as int) && q == seen[k as int]
        }
}

/// The objects of a scene, in the order in which they were added.
#[derive(Debug)]
pub struct SceneCer<O> {
    cer_objects: Vec<O>,
}

impl<O> View for SceneCer<O> {
    type V = Seq<O>;

    closed spec fn view(&self) -> Seq<O> {
        self.cer_objects@
    }
}

impl<O> Default for SceneCer<O> {
    /// The empty scene.
    fn default() -> (scene: SceneCer<O>)
        ensures
            scene@ == Seq::<O>::empty(),
    {
        SceneCer { cer_objects: Vec::new() }
    }
}

impl<O> AsRef<SceneCer<O>> for SceneCer<O> {
    fn as_ref(&self) -> (scene: &SceneCer<O>)
        ensures
            scene == self,
    {
        self
    }
}

impl<O: Clone> Clone for SceneCer<O> {
    /// A scene with a clone of each object, in the same order.
    fn clone(&self) -> (scene: SceneCer<O>)
        ensures
            scene@.len() == self@.len(),
            forall|i: int| 0 <= i < self@.len() ==> cloned(self@[i], #[trigger] scene@[i]),
    {
        SceneCer { cer_objects: self.cer_objects.clone() }
    }
}

impl<O> SceneCer<O> {
    /// Adds an object behind those that the scene holds. The scene owns it.
    pub fn add_object(&mut self, obj: O)
        ensures
            final(self)@ == old(self)@.push(obj),
    {
        self.cer_objects.push(obj);
    }

    /// The number of objects.
    pub fn len(&self) -> (n: usize)
        ensures
            n == self@.len(),
    {
        self.cer_objects.len()
    }

    /// The object that was added as the `index`-th, counted from 0.
    pub fn get(&self, index: usize) -> (obj: Option<&O>)
        ensures
            obj is Some <==> index < self@.len(),
            obj matches Some(o) ==> *o == self@[index as int],
    {
        if index < self.cer_objects.len() {
            Some(&self.cer_objects[index])
        } else {
            None
        }
    }

    /// The objects in the order in which they were added.
    pub fn iter(&self) -> (objects: std::slice::Iter<'_, O>)
        ensures
            vstd::std_specs::slice::into_iter_elts(objects) == self@,
    {
        self.cer_objects.iter()
    }

    /// Whether anything is in the way of a ray: the answer of the first
    /// object whose test says so. Objects behind it are not asked.
    pub fn test_ray<R, F: Fn(&O, &R) -> bool>(&self, ray: &R, did_ray_hit: F) -> (hit: bool)
        requires
            forall|i: int| 0 <= i < self@.len() ==> call_requires(did_ray_hit, (&self@[i], ray)),
        ensures
            hit ==> exists|i: int|
                #![trigger self@[i]]
                0 <= i < self@.len() && call_ensures(did_ray_hit, (&self@[i], ray), true)
                    && forall|j: int|
                    #![trigger self@[j]]
                    0 <= j < i ==> call_ensures(did_ray_hit, (&self@[j], ray), false),
            !hit ==> forall|i: int|
                #![trigger self@[i]]
                0 <= i < self@.len() ==> call_ensures(did_ray_hit, (&self@[i], ray), false),
    {
        let mut i: usize = 0;
        while i < self.cer_objects.len()
            invariant
                i <= self@.len(),
                forall|j: int|
                    0 <= j < self@.len() ==> call_requires(did_ray_hit, (&self@[j], ray)),
                forall|j: int|
                    #![trigger self@[j]]
                    0 <= j < i ==> call_ensures(did_ray_hit, (&self@[j], ray), false),
            decreases self@.len() - i,
        {
            if did_ray_hit(&self.cer_objects[i], ray) {
                assert(call_ensures(did_ray_hit, (&self@[i as int], ray), true));
                return true;
            }
            i += 1;
        }
        false
    }

    /// Tests every object in turn and reports `(index, report)` of the
    /// nearest hit, or nothing where no report counts.
    ///
    /// Each object is tested on `ray`. Where that report is to be tested
    /// again ([`needs_retest`]), the object is tested on `nudged_ray`, the
    /// same ray started one bias further on, and that report stands for the
    /// object. Of the reports, the nearest is chosen as [`is_nearest`] says.
    pub fn find_nearest_hit<R, F: Fn(&O, &R) -> RayCerIntQuery>(
        &self,
        ray: &R,
        nudged_ray: &R,
        query: F,
    ) -> (nearest: Option<(usize, RayCerIntQuery)>)
        requires
            forall|i: int|
                0 <= i < self@.len() ==> call_requires(query, (&self@[i], ray)) && call_requires(
                    query,
                    (&self@[i], nudged_ray),
                ),
        ensures
            found(self@, query, *ray, *nudged_ray, nearest),
    {
        let mut reports: Vec<RayCerIntQuery> = Vec::new();
        let mut i: usize = 0;
        while i < self.cer_objects.len()
            invariant
                i <= self@.len(),
                reports@.len() == i,
                forall|j: int|
                    0 <= j < self@.len() ==> call_requires(query, (&self@[j], ray))
                        && call_requires(query, (&self@[j], nudged_ray)),
                forall|j: int|
                    0 <= j < i ==> observed(
                        query,
                        self@[j],
                        *ray,
                        *nudged_ray,
                        #[trigger] reports@[j],
                    ),
            decreases self@.len() - i,
        {
            let first = query(&self.cer_objects[i], ray);
            let report = if needs_retest(first) {
                query(&self.cer_objects[i], nudged_ray)
            } else {
                first
            };
            assert(observed(query, self@[i as int], *ray, *nudged_ray, report)) by {
                assert(call_ensures(query, (&self@[i as int], ray), first));
            }
            reports.push(report);
            i += 1;
        }
        match nearest_hit(&reports) {
            Some(k) => Some((k, reports[k])),
            None => None,
        }
    }
}

} // verus!
