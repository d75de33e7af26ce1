//! Real-valued quantities, carried as IEEE-754 binary64 bit patterns.
//!
//! The library never rounds: it stores such values, negates them, takes
//! their magnitude and orders them, all of which are exact on the bits.

use vstd::prelude::*;

verus! {

/// Mask of the 63 magnitude bits (exponent and fraction).
pub const MAGNITUDE_MASK: u64 = 0x7fff_ffff_ffff_ffff;

/// Mask of the sign bit.
pub const SIGN_MASK: u64 = 0x8000_0000_0000_0000;

/// Magnitude bits of positive infinity; anything larger is not a number.
pub const INFINITY_BITS: u64 = 0x7ff0_0000_0000_0000;

/// A binary64 value, held by its bit pattern.
#[derive(Clone, Copy, Debug, PartialEq, Eq, Structural)]
pub struct Scalar {
    pub bits: u64,
}

impl Scalar {
    /// The magnitude bits: the pattern with its sign cleared.
    pub open spec fn magnitude(self) -> u64 {
        self.bits & MAGNITUDE_MASK
    }

    /// Whether the sign bit is set.
    pub open spec fn negative(self) -> bool {
        self.bits & SIGN_MASK != 0
    }

    /// Whether the pattern encodes no number.
    pub open spec fn nan(self) -> bool {
        self.magnitude() > INFINITY_BITS
    }

    /// Position of the value on the number line: patterns of numbers are
    /// ordered as their values are, and both zeros sit at 0.
    pub open spec fn rank(self) -> int {
        if self.negative() {
            -(self.magnitude() as int)
        } else {
            self.magnitude() as int
        }
    }

    /// `self < other` as binary64 defines it: false when either is not a
    /// number, otherwise the order of the values.
    pub open spec fn below(self, other: Scalar) -> bool {
        !self.nan() && !other.nan() && self.rank() < other.rank()
    }

    /// The lesser of two values: a value that is not a number yields to
    /// the other, and of two equal values the first is kept.
    pub open spec fn lesser(self, other: Scalar) -> Scalar {
        if self.nan() || other.below(self) {
            other
        } else {
            self
        }
    }

    /// The greater of two values: a value that is not a number yields to
    /// the other, and of two equal values the first is kept.
    pub open spec fn greater(self, other: Scalar) -> Scalar {
        if self.nan() || self.below(other) {
            other
        } else {
            self
        }
    }

    /// The value with its sign flipped.
    pub open spec fn negated(self) -> Scalar {
        Scalar { bits: self.bits ^ SIGN_MASK }
    }

    /// The value with its sign cleared.
    pub open spec fn absolute(self) -> Scalar {
        Scalar { bits: self.bits & MAGNITUDE_MASK }
    }

    /// Whether two patterns stand for the same value: both for none, or
    /// both for the same number, the two zeros being one.
    pub open spec fn same_value(self, other: Scalar) -> bool {
        if self.nan() {
            other.nan()
        } else {
            !other.nan() && self.rank() == other.rank()
        }
    }

    /// The lesser of two values does not depend on their order.
    pub proof fn lemma_lesser_commutes(self, other: Scalar)
        ensures
            self.lesser(other).same_value(other.lesser(self)),
    {
    }

    /// The greater of two values does not depend on their order.
    pub proof fn lemma_greater_commutes(self, other: Scalar)
        ensures
            self.greater(other).same_value(other.greater(self)),
    {
    }

    /// A value and its negation have the same magnitude.
    pub proof fn lemma_negated_absolute(self)
        ensures
            self.negated().absolute() == self.absolute(),
    {
        let b = self.bits;
        assert((b ^ 0x8000_0000_0000_0000) & 0x7fff_ffff_ffff_ffff == b & 0x7fff_ffff_ffff_ffff)
            by (bit_vector);
    }

    /// Flipping the sign twice gives the value back.
    pub proof fn lemma_negated_twice(self)
        ensures
            self.negated().negated() == self,
    {
        let b = self.bits;
        assert((b ^ 0x8000_0000_0000_0000) ^ 0x8000_0000_0000_0000 == b) by (bit_vector);
    }

    pub fn from_bits(bits: u64) -> (s: Scalar)
        ensures
            s.bits == bits,
    {
        Scalar { bits }
    }

    pub fn to_bits(self) -> (bits: u64)
        ensures
            bits == self.bits,
    {
        self.bits
    }

    pub fn is_nan(self) -> (b: bool)
        ensures
            b == self.nan(),
    {
        (self.bits & MAGNITUDE_MASK) > INFINITY_BITS
    }

    /// Exact sign flip.
    pub fn neg(self) -> (s: Scalar)
        ensures
            s == self.negated(),
    {
        Scalar { bits: self.bits ^ SIGN_MASK }
    }

    /// Exact magnitude.
    pub fn abs(self) -> (s: Scalar)
        ensures
            s == self.absolute(),
    {
        Scalar { bits: self.bits & MAGNITUDE_MASK }
    }

    /// Strict order of binary64 values.
    pub fn lt(self, other: Scalar) -> (b: bool)
        ensures
            b == self.below(other),
    {
        if self.is_nan() || other.is_nan() {
            return false;
        }
        let ma: u64 = self.bits & MAGNITUDE_MASK;
        let mb: u64 = other.bits & MAGNITUDE_MASK;
        let na: bool = self.bits & SIGN_MASK != 0;
        let nb: bool = other.bits & SIGN_MASK != 0;
        if na {
            if nb {
                mb < ma
            } else {
                ma != 0 || mb != 0
            }
        } else {
            if nb {
                false
            } else {
                ma < mb
            }
        }
    }

    /// The lesser of the two values.
    pub fn min(self, other: Scalar) -> (s: Scalar)
        ensures
            s == self.lesser(other),
    {
        if self.is_nan() || other.lt(self) {
            other
        } else {
            self
        }
    }

    /// The greater of the two values.
    pub fn max(self, other: Scalar) -> (s: Scalar)
        ensures
            s == self.greater(other),
    {
        if self.is_nan() || self.lt(other) {
            other
        } else {
            self
        }
    }

    /// Strict order, read from the other side.
    pub fn gt(self, other: Scalar) -> (b: bool)
        ensures
            b == other.below(self),
    {
        other.lt(self)
    }
}

} // verus!
