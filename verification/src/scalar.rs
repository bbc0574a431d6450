//! Single-precision numbers as the verified code sees them.
//!
//! The renderer's arithmetic is done on hardware binary32 numbers outside this
//! crate. The decisions taken on those numbers (which root is nearer, whether
//! a distance clears the bias, which side of a surface a ray is on) only need
//! their sign and their order, and both can be read off the 32-bit encoding
//! with integer operations. A [`Scalar`] is that encoding.

use vstd::prelude::*;

verus! {

/// The encoding's top bit: set for negative numbers, negative zero included.
pub const SIGN_BIT: u32 = 0x8000_0000;

/// The encoding of positive infinity. A larger magnitude is not a number.
pub const INFINITY_BITS: u32 = 0x7F80_0000;

/// The encoding of positive zero.
pub const ZERO_BITS: u32 = 0;

/// The encoding of one.
pub const ONE_BITS: u32 = 0x3F80_0000;

/// The encoding of the quiet not-a-number that marks an unset value.
pub const NAN_BITS: u32 = 0x7FC0_0000;

/// A binary32 number, held by its encoding.
///
/// The derived `==` compares encodings: it tells the two zeros apart and finds
/// a not-a-number equal to itself. The numeric comparisons are the methods
/// [`Scalar::lt`], [`Scalar::le`], [`Scalar::gt`], [`Scalar::ge`] and
/// [`Scalar::num_eq`].
#[derive(Clone, Copy, Debug, PartialEq, Eq, Structural)]
pub struct Scalar {
    pub bits: u32,
}

impl Scalar {
    /// The encoding with the sign bit cleared.
    pub open spec fn magnitude(self) -> int {
        if self.bits >= SIGN_BIT {
            self.bits - SIGN_BIT
        } else {
            self.bits as int
        }
    }

    /// Whether the sign bit is set.
    pub open spec fn spec_is_sign_negative(self) -> bool {
        self.bits >= SIGN_BIT
    }

    /// Whether the encoding stands for no number at all.
    pub open spec fn spec_is_nan(self) -> bool {
        self.magnitude() > INFINITY_BITS
    }

    /// The place of a number on the extended real line, as an integer.
    ///
    /// Among encodings of one sign a larger magnitude is a number farther from
    /// zero, so the signed magnitude orders the numbers as their values do.
    /// Both zeros have rank 0. Meaningless for a not-a-number.
    pub open spec fn rank(self) -> int {
        if self.spec_is_sign_negative() {
            -self.magnitude()
        } else {
            self.magnitude()
        }
    }

    /// Numeric `<`: false as soon as either side is not a number.
    pub open spec fn spec_lt(self, other: Scalar) -> bool {
        !self.spec_is_nan() && !other.spec_is_nan() && self.rank() < other.rank()
    }

    /// Numeric `<=`: false as soon as either side is not a number.
    pub open spec fn spec_le(self, other: Scalar) -> bool {
        !self.spec_is_nan() && !other.spec_is_nan() && self.rank() <= other.rank()
    }

    /// Numeric `>`.
    pub open spec fn spec_gt(self, other: Scalar) -> bool {
        other.spec_lt(self)
    }

    /// Numeric `>=`.
    pub open spec fn spec_ge(self, other: Scalar) -> bool {
        other.spec_le(self)
    }

    /// Numeric `==`: the zeros are equal, a not-a-number equals nothing.
    pub open spec fn spec_num_eq(self, other: Scalar) -> bool {
        !self.spec_is_nan() && !other.spec_is_nan() && self.rank() == other.rank()
    }

    pub open spec fn spec_zero() -> Scalar {
        Scalar { bits: ZERO_BITS }
    }

    pub open spec fn spec_one() -> Scalar {
        Scalar { bits: ONE_BITS }
    }

    pub open spec fn spec_nan() -> Scalar {
        Scalar { bits: NAN_BITS }
    }

    /// Wraps an encoding.
    pub fn from_bits(bits: u32) -> (s: Scalar)
        ensures
            s.bits == bits,
    {
        Scalar { bits }
    }

    /// The encoding.
    pub fn to_bits(self) -> (bits: u32)
        ensures
            bits == self.bits,
    {
        self.bits
    }

    /// Positive zero.
    #[verifier::when_used_as_spec(spec_zero)]
    pub fn zero() -> (s: Scalar)
        ensures
            s == Scalar::spec_zero(),
    {
        Scalar { bits: ZERO_BITS }
    }

    /// One.
    #[verifier::when_used_as_spec(spec_one)]
    pub fn one() -> (s: Scalar)
        ensures
            s == Scalar::spec_one(),
    {
        Scalar { bits: ONE_BITS }
    }

    /// The not-a-number that marks an unset value.
    #[verifier::when_used_as_spec(spec_nan)]
    pub fn nan() -> (s: Scalar)
        ensures
            s == Scalar::spec_nan(),
            s.spec_is_nan(),
    {
        Scalar { bits: NAN_BITS }
    }

    fn magnitude_bits(self) -> (m: u32)
        ensures
            m == self.magnitude(),
    {
        if self.bits >= SIGN_BIT {
            self.bits - SIGN_BIT
        } else {
            self.bits
        }
    }

    #[verifier::when_used_as_spec(spec_is_sign_negative)]
    pub fn is_sign_negative(self) -> (r: bool)
        ensures
            r == self.spec_is_sign_negative(),
    {
        self.bits >= SIGN_BIT
    }

    #[verifier::when_used_as_spec(spec_is_nan)]
    pub fn is_nan(self) -> (r: bool)
        ensures
            r == self.spec_is_nan(),
    {
        self.magnitude_bits() > INFINITY_BITS
    }

    #[verifier::when_used_as_spec(spec_lt)]
    pub fn lt(self, other: Scalar) -> (r: bool)
        ensures
            r == self.spec_lt(other),
    {
        if self.is_nan() || other.is_nan() {
            return false;
        }
        let a: u32 = self.magnitude_bits();
        let b: u32 = other.magnitude_bits();
        if self.is_sign_negative() {
            if other.is_sign_negative() {
                a > b
            } else {
                a > 0 || b > 0
            }
        } else {
            !other.is_sign_negative() && a < b
        }
    }

    #[verifier::when_used_as_spec(spec_num_eq)]
    pub fn num_eq(self, other: Scalar) -> (r: bool)
        ensures
            r == self.spec_num_eq(other),
    {
        if self.is_nan() || other.is_nan() {
            return false;
        }
        let a: u32 = self.magnitude_bits();
        let b: u32 = other.magnitude_bits();
        if self.is_sign_negative() == other.is_sign_negative() {
            a == b
        } else {
            a == 0 && b == 0
        }
    }

    #[verifier::when_used_as_spec(spec_le)]
    pub fn le(self, other: Scalar) -> (r: bool)
        ensures
            r == self.spec_le(other),
    {
        self.lt(other) || self.num_eq(other)
    }

    #[verifier::when_used_as_spec(spec_gt)]
    pub fn gt(self, other: Scalar) -> (r: bool)
        ensures
            r == self.spec_gt(other),
    {
        other.lt(self)
    }

    #[verifier::when_used_as_spec(spec_ge)]
    pub fn ge(self, other: Scalar) -> (r: bool)
        ensures
            r == self.spec_ge(other),
    {
        other.le(self)
    }
}

/// Of two numbers exactly one of `<`, numeric `==` and `>` holds; as soon as
/// one side is not a number, none does.
pub proof fn lemma_trichotomy(a: Scalar, b: Scalar)
    ensures
        a.is_nan() || b.is_nan() ==> !a.lt(b) && !a.num_eq(b) && !a.gt(b),
        !a.is_nan() && !b.is_nan() ==> (a.lt(b) && !a.num_eq(b) && !a.gt(b)) || (!a.lt(b)
            && a.num_eq(b) && !a.gt(b)) || (!a.lt(b) && !a.num_eq(b) && a.gt(b)),
        a.le(b) <==> a.lt(b) || a.num_eq(b),
{
}

/// Numeric `<` and `<=` chain.
pub proof fn lemma_order_transitive(a: Scalar, b: Scalar, c: Scalar)
    ensures
        a.lt(b) && b.lt(c) ==> a.lt(c),
        a.le(b) && b.le(c) ==> a.le(c),
        a.lt(b) && b.le(c) ==> a.lt(c),
        a.le(b) && b.lt(c) ==> a.lt(c),
{
}

} // verus!
