//! Real numbers as IEEE 754 binary64 bit patterns, with the standard's order
//! on them stated over integers.

use vstd::prelude::*;

verus! {

/// The sign bit of a binary64 pattern.
pub const SIGN_BIT: u64 = 0x8000_0000_0000_0000;

/// The pattern of positive infinity; every larger magnitude is not a number.
pub const INFINITY_BITS: u64 = 0x7FF0_0000_0000_0000;

/// The pattern of the number one.
pub const ONE_BITS: u64 = 0x3FF0_0000_0000_0000;

/// A binary64 value, held as the 64 bits that encode it: one sign bit,
/// eleven exponent bits, fifty-two fraction bits.
///
/// Two scalars are `==` when their bits agree, which is finer than numeric
/// equality: the two zeros differ in their bits and are the same number.
#[derive(Clone, Copy, Debug, PartialEq, Eq, Hash, Structural)]
pub struct Scalar {
    pub bits: u64,
}

impl Scalar {
    /// The pattern without its sign bit.
    pub open spec fn magnitude(self) -> int {
        if self.bits >= SIGN_BIT {
            self.bits - SIGN_BIT
        } else {
            self.bits as int
        }
    }

    /// Whether the sign bit is set.
    pub open spec fn is_negative(self) -> bool {
        self.bits >= SIGN_BIT
    }

    /// Whether the pattern encodes no number.
    pub open spec fn is_nan(self) -> bool {
        self.magnitude() > INFINITY_BITS
    }

    /// An integer that orders the numbers as binary64 does: for two patterns
    /// that encode numbers, the first number is below the second exactly when
    /// its rank is below the other's, and they are the same number exactly
    /// when the ranks agree. Both zeros have rank zero.
    pub open spec fn rank(self) -> int {
        if self.is_negative() {
            -self.magnitude()
        } else {
            self.magnitude()
        }
    }

    /// Numeric `<`: false as soon as one side is not a number.
    pub open spec fn lt(self, other: Scalar) -> bool {
        !self.is_nan() && !other.is_nan() && self.rank() < other.rank()
    }

    /// Numeric `<=`: false as soon as one side is not a number.
    pub open spec fn le(self, other: Scalar) -> bool {
        !self.is_nan() && !other.is_nan() && self.rank() <= other.rank()
    }

    /// Numeric `==`: false as soon as one side is not a number.
    pub open spec fn same_number(self, other: Scalar) -> bool {
        !self.is_nan() && !other.is_nan() && self.rank() == other.rank()
    }

    /// The scalar with the given bits.
    pub fn from_bits(bits: u64) -> (s: Scalar)
        ensures
            s.bits == bits,
    {
        Scalar { bits }
    }

    /// The bits of the scalar.
    pub fn to_bits(self) -> (bits: u64)
        ensures
            bits == self.bits,
    {
        self.bits
    }

    /// The number zero, with a clear sign bit.
    pub fn zero() -> (s: Scalar)
        ensures
            s.bits == 0,
    {
        Scalar { bits: 0 }
    }

    /// The number one.
    pub fn one() -> (s: Scalar)
        ensures
            s.bits == ONE_BITS,
    {
        Scalar { bits: ONE_BITS }
    }

    fn magnitude_bits(self) -> (m: u64)
        ensures
            m == self.magnitude(),
    {
        if self.bits >= SIGN_BIT {
            self.bits - SIGN_BIT
        } else {
            self.bits
        }
    }

    /// Tells whether the pattern encodes no number.
    pub fn not_a_number(self) -> (b: bool)
        ensures
            b == self.is_nan(),
    {
        self.magnitude_bits() > INFINITY_BITS
    }

    /// Tells whether `self < other` as numbers.
    pub fn less_than(self, other: Scalar) -> (b: bool)
        ensures
            b == self.lt(other),
    {
        if self.not_a_number() || other.not_a_number() {
            return false;
        }
        let a: u64 = self.magnitude_bits();
        let b: u64 = other.magnitude_bits();
        if self.bits >= SIGN_BIT {
            if other.bits >= SIGN_BIT {
                b < a
            } else {
                a > 0 || b > 0
            }
        } else {
            if other.bits >= SIGN_BIT {
                false
            } else {
                a < b
            }
        }
    }

    /// Tells whether `self <= other` as numbers.
    pub fn at_most(self, other: Scalar) -> (b: bool)
        ensures
            b == self.le(other),
    {
        if self.not_a_number() || other.not_a_number() {
            return false;
        }
        let a: u64 = self.magnitude_bits();
        let b: u64 = other.magnitude_bits();
        if self.bits >= SIGN_BIT {
            if other.bits >= SIGN_BIT {
                b <= a
            } else {
                true
            }
        } else {
            if other.bits >= SIGN_BIT {
                a == 0 && b == 0
            } else {
                a <= b
            }
        }
    }

    /// Tells whether the two are the same number.
    pub fn equals(self, other: Scalar) -> (b: bool)
        ensures
            b == self.same_number(other),
    {
        if self.not_a_number() || other.not_a_number() {
            return false;
        }
        let a: u64 = self.magnitude_bits();
        let b: u64 = other.magnitude_bits();
        if (self.bits >= SIGN_BIT) == (other.bits >= SIGN_BIT) {
            a == b
        } else {
            a == 0 && b == 0
        }
    }
}

/// `<=` is transitive, and no side of a true `<=` is not a number.
pub proof fn lemma_le_transitive(a: Scalar, b: Scalar, c: Scalar)
    requires
        a.le(b),
        b.le(c),
    ensures
        a.le(c),
{
}

/// Of two numbers, one is `<=` the other; `<` is `<=` without equality.
pub proof fn lemma_order_total(a: Scalar, b: Scalar)
    requires
        !a.is_nan(),
        !b.is_nan(),
    ensures
        a.le(b) || b.le(a),
        a.lt(b) <==> a.le(b) && !a.same_number(b),
        a.le(b) && b.le(a) <==> a.same_number(b),
        a.lt(b) <==> !b.le(a),
{
}

} // verus!
