//! Double-precision numbers, carried by their bit patterns.
use vstd::prelude::*;

verus! {

/// The sign bit of a double.
pub const SIGN_BIT: u64 = 0x8000_0000_0000_0000;

/// The bit pattern of positive infinity; every larger magnitude is a NaN.
pub const INFINITY_BITS: u64 = 0x7FF0_0000_0000_0000;

/// The bit pattern of `0.0`.
pub const ZERO_BITS: u64 = 0;

/// The bit pattern of `1.0`.
pub const ONE_BITS: u64 = 0x3FF0_0000_0000_0000;

/// The bit pattern of `2.0`.
pub const TWO_BITS: u64 = 0x4000_0000_0000_0000;

/// An IEEE-754 double, held as its 64 bits.
///
/// `==` on `Number` compares bit patterns. It is finer than the numeric
/// equality of doubles: `0.0` and `-0.0` differ, and a NaN equals itself.
#[derive(Clone, Copy, Debug, PartialEq, Eq, Hash, Structural)]
pub struct Number {
    pub bits: u64,
}

impl Number {
    /// The bits without the sign bit.
    pub open spec fn magnitude(self) -> int {
        if self.bits >= SIGN_BIT {
            self.bits - SIGN_BIT
        } else {
            self.bits as int
        }
    }

    /// Whether the sign bit is set.
    pub open spec fn is_negative(self) -> bool {
        self.bits >= SIGN_BIT
    }

    /// Whether the bits encode a NaN.
    pub open spec fn is_nan(self) -> bool {
        self.magnitude() > INFINITY_BITS
    }

    /// An integer that orders the doubles other than NaN as their values do:
    /// the magnitude, negated under a sign bit. Both zeros have rank 0.
    pub open spec fn rank(self) -> int {
        if self.is_negative() {
            -self.magnitude()
        } else {
            self.magnitude()
        }
    }

    /// The IEEE-754 comparison `self < other`: false when either is a NaN.
    pub open spec fn lt(self, other: Number) -> bool {
        !self.is_nan() && !other.is_nan() && self.rank() < other.rank()
    }

    /// The IEEE-754 comparison `self > other`.
    pub open spec fn gt(self, other: Number) -> bool {
        other.lt(self)
    }

    /// Whether `self` lies in `[min, max]` as the range check sees it: neither
    /// below `min` nor above `max`. A NaN on either side of a comparison makes
    /// that comparison false, so a NaN wavelength is within every range.
    pub open spec fn within(self, min: Number, max: Number) -> bool {
        !self.lt(min) && !self.gt(max)
    }

    /// The double with the given bits.
    pub fn from_bits(bits: u64) -> (r: Number)
        ensures
            r.bits == bits,
    {
        Number { bits }
    }

    /// The bits of the double.
    pub fn to_bits(self) -> (r: u64)
        ensures
            r == self.bits,
    {
        self.bits
    }

    /// `0.0`
    pub fn zero() -> (r: Number)
        ensures
            r.bits == ZERO_BITS,
    {
        Number { bits: ZERO_BITS }
    }

    /// `1.0`
    pub fn one() -> (r: Number)
        ensures
            r.bits == ONE_BITS,
    {
        Number { bits: ONE_BITS }
    }

    /// `2.0`
    pub fn two() -> (r: Number)
        ensures
            r.bits == TWO_BITS,
    {
        Number { bits: TWO_BITS }
    }

    /// The bits without the sign bit.
    fn abs_bits(self) -> (r: u64)
        ensures
            r == self.magnitude(),
    {
        if self.bits >= SIGN_BIT {
            self.bits - SIGN_BIT
        } else {
            self.bits
        }
    }

    /// Whether the double is a NaN.
    pub fn nan(self) -> (r: bool)
        ensures
            r == self.is_nan(),
    {
        self.abs_bits() > INFINITY_BITS
    }

    /// `self < other` as doubles compare.
    pub fn less(self, other: Number) -> (r: bool)
        ensures
            r == self.lt(other),
    {
        if self.nan() || other.nan() {
            return false;
        }
        let a = self.abs_bits();
        let b = other.abs_bits();
        if self.bits >= SIGN_BIT {
            if other.bits >= SIGN_BIT {
                a > b
            } else {
                a > 0 || b > 0
            }
        } else {
            if other.bits >= SIGN_BIT {
                false
            } else {
                a < b
            }
        }
    }

    /// `self > other` as doubles compare.
    pub fn greater(self, other: Number) -> (r: bool)
        ensures
            r == self.gt(other),
    {
        other.less(self)
    }
}

/// The order of doubles is strict and transitive, and the two zeros are
/// level: neither is below the other.
pub proof fn lemma_order(a: Number, b: Number, c: Number)
    ensures
        !a.lt(a),
        !(a.lt(b) && b.lt(a)),
        a.lt(b) && b.lt(c) ==> a.lt(c),
        a.magnitude() == 0 && b.magnitude() == 0 ==> !a.lt(b) && !b.lt(a),
{
}

/// Between two doubles that are in order lies every double that is strictly
/// between them, and each of the two.
pub proof fn lemma_within(w: Number, min: Number, max: Number)
    ensures
        min.lt(w) && w.lt(max) ==> w.within(min, max),
        !min.is_nan() && !max.is_nan() && !max.lt(min) ==> min.within(min, max) && max.within(
            min,
            max,
        ),
        w.is_nan() ==> w.within(min, max),
{
}

} // verus!
