//! Materials, as far as their behaviour is a decision: the stack of media
//! that a path is inside of, and what a transparent surface does with it.
//!
//! The directions and colours of scattering are arithmetic on binary32
//! numbers and are computed by the caller.

use crate::cer_object::RayCerIntQuery;
use crate::scalar::Scalar;
use vstd::prelude::*;

verus! {

/// The refractive indices of the media that a path is inside of, the
/// outermost first. The outermost is the surroundings, of index one, and is
/// never taken off: the last index is always that of the medium that the ray
/// is in.
///
/// Only the media entered are stored; the surroundings are understood.
#[derive(Debug)]
pub struct RefractiveStack {
    media: Vec<Scalar>,
}

/// The stack after a ray has entered a medium of index `index`.
pub open spec fn entered(stack: Seq<Scalar>, index: Scalar) -> Seq<Scalar> {
    stack.push(index)
}

/// The stack after a ray has left the medium that it was in. Leaving the
/// surroundings changes nothing.
pub open spec fn exited(stack: Seq<Scalar>) -> Seq<Scalar> {
    if stack.len() > 1 {
        stack.drop_last()
    } else {
        stack
    }
}

/// A ray that enters a medium and leaves it again finds the stack as it was.
pub proof fn lemma_enter_then_exit_restores(stack: Seq<Scalar>, index: Scalar)
    requires
        stack.len() >= 1,
    ensures
        exited(entered(stack, index)) == stack,
{
    assert(stack.push(index).drop_last() =~= stack);
}

impl View for RefractiveStack {
    type V = Seq<Scalar>;

    /// The indices from the surroundings inward: index one, then the media
    /// entered and not left.
    closed spec fn view(&self) -> Seq<Scalar> {
        seq![Scalar::one()] + self.media@
    }
}

impl RefractiveStack {
    /// The stack of a path that starts in the surroundings: index one alone.
    pub fn new() -> (stack: RefractiveStack)
        ensures
            stack@ == seq![Scalar::one()],
    {
        let stack = RefractiveStack { media: Vec::new() };
        assert(stack@ =~= seq![Scalar::one()]);
        stack
    }

    /// The number of media that the ray has entered and not left: one less
    /// than the number of indices, since the surroundings are always there.
    pub fn depth(&self) -> (n: usize)
        ensures
            n == self@.len() - 1,
            self@[0] == Scalar::one(),
    {
        self.media.len()
    }

    /// The index of the medium that the ray is in.
    pub fn top(&self) -> (index: Scalar)
        ensures
            self@.len() >= 1,
            index == self@.last(),
    {
        let held = self.media.len();
        if held == 0 {
            Scalar::one()
        } else {
            self.media[held - 1]
        }
    }

    /// The indices, the outermost first.
    pub fn to_vec(&self) -> (indices: Vec<Scalar>)
        ensures
            indices@ == self@,
    {
        let mut indices: Vec<Scalar> = Vec::new();
        indices.push(Scalar::one());
        let mut i: usize = 0;
        while i < self.media.len()
            invariant
                i <= self.media@.len(),
                indices@ == seq![Scalar::one()] + self.media@.take(i as int),
            decreases self.media@.len() - i,
        {
            indices.push(self.media[i]);
            assert(self.media@.take(i + 1) =~= self.media@.take(i as int).push(self.media@[i as int]));
            assert(indices@ =~= seq![Scalar::one()] + self.media@.take(i + 1));
            i += 1;
        }
        assert(self.media@.take(i as int) =~= self.media@);
        indices
    }

    /// The ray enters a medium of index `index`. Returns the index of the
    /// medium that it comes from.
    pub fn enter(&mut self, index: Scalar) -> (outside: Scalar)
        ensures
            final(self)@ == entered(old(self)@, index),
            old(self)@.len() >= 1,
            outside == old(self)@.last(),
    {
        let outside = self.top();
        self.media.push(index);
        assert(self@ =~= entered(old(self)@, index));
        outside
    }

    /// The ray leaves the medium that it is in. Returns the index of the
    /// medium that it comes out into.
    pub fn exit(&mut self) -> (outside: Scalar)
        ensures
            final(self)@ == exited(old(self)@),
            final(self)@.len() >= 1,
            outside == final(self)@.last(),
    {
        self.media.pop();
        assert(self@ =~= exited(old(self)@));
        self.top()
    }
}

impl Clone for RefractiveStack {
    fn clone(&self) -> (stack: RefractiveStack)
        ensures
            stack@ == self@,
    {
        RefractiveStack { media: self.media.clone() }
    }
}

/// A mirror-like surface. It has no parameters.
#[derive(Clone, Copy, Debug, PartialEq, Eq, Structural)]
pub struct MetalMat {}

impl MetalMat {
    pub fn new() -> (mat: MetalMat)
        ensures
            mat == (MetalMat {  }),
    {
        MetalMat {  }
    }
}

/// How a ray crosses the surface of a transparent body: whether it leaves
/// the body, and the two indices whose quotient `from / to` is the
/// refraction ratio.
#[derive(Clone, Copy, Debug, PartialEq, Eq, Structural)]
pub struct Crossing {
    pub exiting: bool,
    pub from: Scalar,
    pub to: Scalar,
}

/// A transparent material of one refractive index.
#[derive(Clone, Copy, Debug, PartialEq, Eq, Structural)]
pub struct DielectricMat {
    refractive_i: Scalar,
}

/// Whether a hit with these two roots leaves the body: the product of the
/// roots is negative, which is to say that their sign bits differ.
pub open spec fn is_exit(hit_t: Scalar, other_t: Scalar) -> bool {
    hit_t.is_sign_negative() != other_t.is_sign_negative()
}

/// The stack of media after a ray has crossed the surface of a body of index
/// `index` as `report` says: unchanged without a second root, else one body
/// shorter or longer.
pub open spec fn crossed(stack: Seq<Scalar>, index: Scalar, report: RayCerIntQuery) -> Seq<Scalar> {
    match report.other_t {
        None => stack,
        Some(other_t) => if is_exit(report.hit_t, other_t) {
            exited(stack)
        } else {
            entered(stack, index)
        },
    }
}

/// How a ray crosses the surface of a body of index `index` as `report`
/// says, coming with the stack `stack`: nothing without a second root; out
/// of the body into the medium below it on the stack; or from the medium on
/// top of the stack into the body.
pub open spec fn crossing(stack: Seq<Scalar>, index: Scalar, report: RayCerIntQuery) -> Option<
    Crossing,
> {
    match report.other_t {
        None => None,
        Some(other_t) => if is_exit(report.hit_t, other_t) {
            Some(Crossing { exiting: true, from: index, to: exited(stack).last() })
        } else {
            Some(Crossing { exiting: false, from: stack.last(), to: index })
        },
    }
}

impl DielectricMat {
    pub closed spec fn spec_refractive_index(self) -> Scalar {
        self.refractive_i
    }

    pub fn new(refractive_i: Scalar) -> (mat: DielectricMat)
        ensures
            mat.refractive_index() == refractive_i,
    {
        DielectricMat { refractive_i: refractive_i }
    }

    #[verifier::when_used_as_spec(spec_refractive_index)]
    pub fn refractive_index(self) -> (index: Scalar)
        ensures
            index == self.spec_refractive_index(),
    {
        self.refractive_i
    }

    /// Takes a ray across the surface of the body and keeps the stack of
    /// media in step.
    ///
    /// A report without a second root gives nothing and leaves the stack
    /// alone: light does not go on from there. A ray that leaves the body
    /// ([`is_exit`]) takes the body's index off the stack; the ratio is the
    /// body's index over that of the medium it comes out into. A ray that
    /// enters puts the body's index onto the stack; the ratio is the index
    /// of the medium it comes from over the body's.
    pub fn cross_boundary(&self, int_query: &RayCerIntQuery, ri_stack: &mut RefractiveStack) -> (c:
        Option<Crossing>)
        ensures
            c == crossing(old(ri_stack)@, self.refractive_index(), *int_query),
            final(ri_stack)@ == crossed(old(ri_stack)@, self.refractive_index(), *int_query),
    {
        match int_query.other_t {
            None => None,
            Some(other_t) => {
                if int_query.hit_t.is_sign_negative() != other_t.is_sign_negative() {
                    let outside = ri_stack.exit();
                    Some(Crossing { exiting: true, from: self.refractive_i, to: outside })
                } else {
                    let outside = ri_stack.enter(self.refractive_i);
                    Some(Crossing { exiting: false, from: outside, to: self.refractive_i })
                }
            },
        }
    }

    /// Whether the surface reflects the ray rather than refracting it: no
    /// refracted ray exists (`sin_ratio`, the sine of the angle of incidence
    /// times the refraction ratio, is above one), or the reflectance is above
    /// the number drawn.
    pub fn reflects(sin_ratio: Scalar, reflectance: Scalar, draw: Scalar) -> (r: bool)
        ensures
            r == (sin_ratio.gt(Scalar::one()) || reflectance.gt(draw)),
    {
        sin_ratio.gt(Scalar::one()) || reflectance.gt(draw)
    }
}

/// A ray that enters a transparent body and then leaves it finds the stack
/// of media as it was before.
pub proof fn lemma_through_body_restores(
    stack: Seq<Scalar>,
    index: Scalar,
    entry: RayCerIntQuery,
    exit: RayCerIntQuery,
)
    requires
        stack.len() >= 1,
        entry.other_t matches Some(other_t) && !is_exit(entry.hit_t, other_t),
        exit.other_t matches Some(other_t) && is_exit(exit.hit_t, other_t),
    ensures
        crossed(crossed(stack, index, entry), index, exit) == stack,
{
    lemma_enter_then_exit_restores(stack, index);
}

} // verus!
