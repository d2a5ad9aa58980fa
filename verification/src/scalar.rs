//! Double-precision numbers, held as their IEEE-754 bit patterns.
//!
//! The pipeline orders, classifies, negates and moves measured values. Each of
//! these is decided by the bit pattern alone, so the values are kept as such.

use vstd::prelude::*;

verus! {

/// The pattern with only the sign bit set.
pub const SIGN_BIT: u64 = 0x8000_0000_0000_0000;

/// The pattern of positive infinity. A larger magnitude is a NaN.
pub const INFINITY_BITS: u64 = 0x7ff0_0000_0000_0000;

/// The pattern of one.
pub const ONE_BITS: u64 = 0x3ff0_0000_0000_0000;

/// The pattern of ten.
pub const TEN_BITS: u64 = 0x4024_0000_0000_0000;

/// A double, identified by its bit pattern.
///
/// `==` on this type compares patterns: the two zeros differ, and a NaN equals
/// itself. Comparison by numeric value is [`Scalar::less_than`] and its kin.
#[derive(Clone, Copy, Debug, PartialEq, Eq, Structural)]
pub struct Scalar {
    pub bits: u64,
}

impl Scalar {
    /// The sign bit is set.
    pub open spec fn negative(self) -> bool {
        self.bits >= SIGN_BIT
    }

    /// The pattern without its sign bit. Magnitudes order as absolute values do.
    pub open spec fn magnitude(self) -> int {
        if self.negative() {
            self.bits - SIGN_BIT
        } else {
            self.bits as int
        }
    }

    pub open spec fn nan(self) -> bool {
        self.magnitude() > INFINITY_BITS
    }

    pub open spec fn finite(self) -> bool {
        self.magnitude() < INFINITY_BITS
    }

    /// An integer that orders non-NaN values as their numeric values do; both
    /// zeros map to 0.
    pub open spec fn rank(self) -> int {
        if self.negative() {
            -self.magnitude()
        } else {
            self.magnitude()
        }
    }

    /// An integer that orders all patterns by the IEEE-754 total order, in which
    /// negative zero precedes positive zero and NaNs lie at the two ends.
    pub open spec fn total_rank(self) -> int {
        if self.negative() {
            -1 - self.magnitude()
        } else {
            self.magnitude()
        }
    }

    /// Numeric `self < other`: false where either is a NaN.
    pub open spec fn lt(self, other: Scalar) -> bool {
        !self.nan() && !other.nan() && self.rank() < other.rank()
    }

    /// Numeric `self <= other`: false where either is a NaN.
    pub open spec fn le(self, other: Scalar) -> bool {
        !self.nan() && !other.nan() && self.rank() <= other.rank()
    }

    /// The value with its sign bit flipped.
    pub open spec fn flipped(self) -> Scalar {
        if self.negative() {
            Scalar { bits: (self.bits - SIGN_BIT) as u64 }
        } else {
            Scalar { bits: (self.bits + SIGN_BIT) as u64 }
        }
    }

    /// The value zero, with a clear sign bit.
    pub fn zero() -> (value: Scalar)
        ensures
            value.bits == 0,
    {
        Scalar { bits: 0 }
    }

    /// The value one.
    pub fn one() -> (value: Scalar)
        ensures
            value.bits == ONE_BITS,
    {
        Scalar { bits: ONE_BITS }
    }

    /// The value whose pattern is `bits`.
    pub fn from_bits(bits: u64) -> (value: Scalar)
        ensures
            value.bits == bits,
    {
        Scalar { bits }
    }

    pub fn is_negative(self) -> (result: bool)
        ensures
            result == self.negative(),
    {
        self.bits >= SIGN_BIT
    }

    fn magnitude_bits(self) -> (result: u64)
        ensures
            result == self.magnitude(),
    {
        if self.bits >= SIGN_BIT {
            self.bits - SIGN_BIT
        } else {
            self.bits
        }
    }

    pub fn is_nan(self) -> (result: bool)
        ensures
            result == self.nan(),
    {
        self.magnitude_bits() > INFINITY_BITS
    }

    /// Neither infinite nor a NaN.
    pub fn is_finite(self) -> (result: bool)
        ensures
            result == self.finite(),
    {
        self.magnitude_bits() < INFINITY_BITS
    }

    /// Numeric `self < other`.
    pub fn less_than(self, other: Scalar) -> (result: bool)
        ensures
            result == self.lt(other),
    {
        if self.is_nan() || other.is_nan() {
            return false;
        }
        let a: u64 = self.magnitude_bits();
        let b: u64 = other.magnitude_bits();
        if self.is_negative() {
            if other.is_negative() {
                b < a
            } else {
                a > 0 || b > 0
            }
        } else {
            !other.is_negative() && a < b
        }
    }

    /// Numeric `self <= other`.
    pub fn at_most(self, other: Scalar) -> (result: bool)
        ensures
            result == self.le(other),
    {
        if self.is_nan() || other.is_nan() {
            return false;
        }
        !other.less_than(self)
    }

    /// `self` comes before `other` in the total order.
    pub fn precedes(self, other: Scalar) -> (result: bool)
        ensures
            result == (self.total_rank() < other.total_rank()),
    {
        if self.is_negative() {
            if other.is_negative() {
                other.magnitude_bits() < self.magnitude_bits()
            } else {
                true
            }
        } else {
            !other.is_negative() && self.magnitude_bits() < other.magnitude_bits()
        }
    }

    /// The negated value.
    pub fn negated(self) -> (result: Scalar)
        ensures
            result == self.flipped(),
    {
        if self.bits >= SIGN_BIT {
            Scalar { bits: self.bits - SIGN_BIT }
        } else {
            Scalar { bits: self.bits + SIGN_BIT }
        }
    }

    /// Strictly greater than zero.
    pub fn is_positive(self) -> (result: bool)
        ensures
            result == (Scalar { bits: 0 }).lt(self),
    {
        Scalar::zero().less_than(self)
    }
}

/// Negating twice gives the value back, pattern for pattern.
pub proof fn negation_is_an_involution(value: Scalar)
    ensures
        value.flipped().flipped() == value,
{
}

/// Negation turns the numeric order around.
pub proof fn negation_reverses_order(a: Scalar, b: Scalar)
    ensures
        a.lt(b) == b.flipped().lt(a.flipped()),
{
}

/// The total order tells any two different patterns apart.
pub proof fn total_rank_is_injective(a: Scalar, b: Scalar)
    ensures
        a.total_rank() == b.total_rank() ==> a == b,
{
}

/// Among values that are not NaN, the total order refines the numeric one.
pub proof fn total_order_refines_numeric_order(a: Scalar, b: Scalar)
    ensures
        a.lt(b) ==> a.total_rank() < b.total_rank(),
{
}

/// Of two numbers that are not NaN exactly one is smaller, unless both are the same number;
/// two zeros are. A NaN is neither smaller, larger nor equal.
pub proof fn numbers_are_ordered(a: Scalar, b: Scalar, c: Scalar)
    ensures
        !a.lt(a),
        a.lt(b) ==> !b.lt(a) && a.le(b),
        a.lt(b) && b.lt(c) ==> a.lt(c),
        a.le(b) && b.le(c) ==> a.le(c),
        !a.nan() && !b.nan() ==> a.lt(b) || b.le(a),
        a.nan() || b.nan() ==> !a.lt(b) && !a.le(b),
        !a.nan() ==> a.le(a),
        (Scalar { bits: 0 }).le(Scalar { bits: 0x8000_0000_0000_0000 }),
        (Scalar { bits: 0x8000_0000_0000_0000 }).le(Scalar { bits: 0 }),
        (Scalar { bits: 0 }).lt(Scalar { bits: ONE_BITS }),
        (Scalar { bits: ONE_BITS }).lt(Scalar { bits: TEN_BITS }),
{
}

/// Negation mirrors a number at zero and changes nothing else of it; every number but NaN
/// is finite or one of the two infinities.
pub proof fn negation_mirrors_at_zero(a: Scalar)
    ensures
        a.flipped().rank() == -a.rank(),
        a.flipped().negative() != a.negative(),
        a.flipped().magnitude() == a.magnitude(),
        a.flipped().nan() == a.nan(),
        a.flipped().finite() == a.finite(),
        a.nan() ==> !a.finite(),
        !a.nan() && !a.finite() <==> a.bits == 0x7ff0_0000_0000_0000 || a.bits
            == 0xfff0_0000_0000_0000,
{
}

} // verus!
