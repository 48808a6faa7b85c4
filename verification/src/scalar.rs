//! Numbers that are carried and compared but never computed with.
//!
//! A document holds widths, opacities and positions as IEEE 754 doubles. The rules here
//! only store them, order them and clamp them, and all of that can be read off the 64 bits
//! of the double: below the sign bit, a larger magnitude is a larger integer. [`Scalar`] is
//! a double by its bits, and [`Scalar::rank`] is the integer that orders it.

use vstd::prelude::*;

verus! {

/// Bits of the smallest infinity's magnitude. A magnitude above it is not a number.
pub const INFINITE: u64 = 0x7FF0_0000_0000_0000;

/// The weight of the sign bit.
pub const SIGN: u64 = 0x8000_0000_0000_0000;

/// A double, by its bits.
///
/// Two are `==` when their bits are. [`Scalar::equals`] is the comparison of the numbers,
/// in which zero equals negative zero and a NaN equals nothing.
#[derive(Clone, Copy, Debug, PartialEq, Eq, Structural)]
pub struct Scalar {
    pub bits: u64,
}

/// The bits of 0.0.
pub const ZERO: u64 = 0;

/// The bits of 0.25.
pub const QUARTER: u64 = 0x3FD0_0000_0000_0000;

/// The bits of 1.0.
pub const ONE: u64 = 0x3FF0_0000_0000_0000;

/// The bits of 1.36.
pub const LINE_HEIGHT: u64 = 0x3FF5_C28F_5C28_F5C3;

impl Scalar {
    /// The bits without the sign.
    pub open spec fn magnitude(self) -> int {
        if self.bits >= SIGN {
            self.bits - SIGN
        } else {
            self.bits as int
        }
    }

    /// Where a number stands among the numbers: an order-preserving integer in which both
    /// zeros are 0.
    pub open spec fn rank(self) -> int {
        if self.bits >= SIGN {
            -self.magnitude()
        } else {
            self.magnitude()
        }
    }

    pub open spec fn not_a_number(self) -> bool {
        self.magnitude() > INFINITE
    }

    pub open spec fn finite(self) -> bool {
        self.magnitude() < INFINITE
    }

    /// `self < other`, as numbers. Never true of a NaN.
    pub open spec fn below(self, other: Scalar) -> bool {
        !self.not_a_number() && !other.not_a_number() && self.rank() < other.rank()
    }

    /// `self == other`, as numbers. Never true of a NaN.
    pub open spec fn equal_to(self, other: Scalar) -> bool {
        !self.not_a_number() && !other.not_a_number() && self.rank() == other.rank()
    }

    /// Where a value stands in the total order of all doubles: negative NaNs, negative
    /// infinity, the negative numbers, negative zero, zero, the positive numbers, infinity,
    /// NaNs.
    pub open spec fn total_rank(self) -> int {
        if self.bits >= SIGN {
            -self.magnitude() - 1
        } else {
            self.magnitude()
        }
    }

    /// The larger of two numbers; the other one where one is a NaN. Of two zeros, `self`.
    pub open spec fn larger(self, other: Scalar) -> Scalar {
        if self.not_a_number() || self.below(other) {
            other
        } else {
            self
        }
    }

    /// The smaller of two numbers; the other one where one is a NaN. Of two zeros, `self`.
    pub open spec fn smaller(self, other: Scalar) -> Scalar {
        if self.not_a_number() || other.below(self) {
            other
        } else {
            self
        }
    }

    /// `self` brought between `low` and `high`; a NaN stays one.
    pub open spec fn between(self, low: Scalar, high: Scalar) -> Scalar {
        if self.below(low) {
            low
        } else if high.below(self) {
            high
        } else {
            self
        }
    }

    fn size(self) -> (size: u64)
        ensures
            size == self.magnitude(),
    {
        if self.bits >= SIGN {
            self.bits - SIGN
        } else {
            self.bits
        }
    }

    pub fn is_nan(self) -> (answer: bool)
        ensures
            answer == self.not_a_number(),
    {
        self.size() > INFINITE
    }

    pub fn is_finite(self) -> (answer: bool)
        ensures
            answer == self.finite(),
    {
        self.size() < INFINITE
    }

    pub fn lt(self, other: Scalar) -> (answer: bool)
        ensures
            answer == self.below(other),
    {
        if self.is_nan() || other.is_nan() {
            return false;
        }
        let a: u64 = self.size();
        let b: u64 = other.size();
        if self.bits >= SIGN {
            if other.bits >= SIGN {
                b < a
            } else {
                a > 0 || b > 0
            }
        } else {
            other.bits < SIGN && a < b
        }
    }

    pub fn equals(self, other: Scalar) -> (answer: bool)
        ensures
            answer == self.equal_to(other),
    {
        !self.is_nan() && !other.is_nan() && !self.lt(other) && !other.lt(self)
    }

    /// Whether `self` comes strictly before `other` in the total order of all doubles.
    pub fn before(self, other: Scalar) -> (answer: bool)
        ensures
            answer == (self.total_rank() < other.total_rank()),
    {
        let a: u64 = self.size();
        let b: u64 = other.size();
        if self.bits >= SIGN {
            other.bits < SIGN || b < a
        } else {
            other.bits < SIGN && a < b
        }
    }

    pub fn max(self, other: Scalar) -> (larger: Scalar)
        ensures
            larger == self.larger(other),
    {
        if self.is_nan() || self.lt(other) {
            other
        } else {
            self
        }
    }

    pub fn min(self, other: Scalar) -> (smaller: Scalar)
        ensures
            smaller == self.smaller(other),
    {
        if self.is_nan() || other.lt(self) {
            other
        } else {
            self
        }
    }

    pub fn clamp(self, low: Scalar, high: Scalar) -> (clamped: Scalar)
        ensures
            clamped == self.between(low, high),
    {
        if self.lt(low) {
            low
        } else if high.lt(self) {
            high
        } else {
            self
        }
    }
}

/// The total order is total, and tells every two bit patterns apart.
pub proof fn total_order_separates(a: Scalar, b: Scalar)
    ensures
        a == b || a.total_rank() < b.total_rank() || b.total_rank() < a.total_rank(),
{
    assert(a.total_rank() == b.total_rank() ==> a.bits == b.bits);
}

/// How two doubles compare by their bits: among those without the sign bit the one of more bits
/// is the larger, among those with it the smaller; one with it is below one without it, but for
/// the two zeros, which are equal; and what is above an infinity compares with nothing.
pub proof fn doubles_compare_by_their_bits(a: Scalar, b: Scalar)
    requires
        a.bits <= b.bits,
    ensures
        ({
            let sign = 0x8000_0000_0000_0000u64;
            let both = b.bits <= 0x7FF0_0000_0000_0000u64 || (sign <= a.bits && b.bits
                <= 0xFFF0_0000_0000_0000u64) || (a.bits <= 0x7FF0_0000_0000_0000u64 && sign
                <= b.bits <= 0xFFF0_0000_0000_0000u64);
            &&& !both ==> !a.below(b) && !b.below(a) && !a.equal_to(b)
            &&& both && b.bits < sign ==> (a.below(b) <==> a.bits < b.bits) && !b.below(a)
            &&& both && sign <= a.bits ==> (b.below(a) <==> a.bits < b.bits) && !a.below(b)
            &&& both && a.bits < sign && sign <= b.bits ==> !a.below(b) && (b.below(a) <==> !(a.bits
                == 0 && b.bits == sign))
            &&& both ==> (a.equal_to(b) <==> !a.below(b) && !b.below(a))
        }),
        a.not_a_number() <==> 0x7FF0_0000_0000_0000u64 < a.bits < 0x8000_0000_0000_0000u64
            || 0xFFF0_0000_0000_0000u64 < a.bits,
        a.finite() <==> a.bits < 0x7FF0_0000_0000_0000u64 || 0x8000_0000_0000_0000u64 <= a.bits
            < 0xFFF0_0000_0000_0000u64,
{
}

/// The larger and the smaller of two are one of the two, on their side of both; beside what is
/// no number the other is taken. What is brought between two bounds is between them, and stays
/// as it is where it was.
pub proof fn the_larger_and_the_smaller_are_one_of_the_two(a: Scalar, b: Scalar, c: Scalar)
    ensures
        a.larger(b) == a || a.larger(b) == b,
        a.smaller(b) == a || a.smaller(b) == b,
        !a.larger(b).below(a) && !a.larger(b).below(b),
        !a.below(a.smaller(b)) && !b.below(a.smaller(b)),
        a.not_a_number() ==> a.larger(b) == b && a.smaller(b) == b,
        b.not_a_number() ==> a.larger(b) == a || a.not_a_number(),
        b.not_a_number() ==> a.smaller(b) == a || a.not_a_number(),
        a.not_a_number() ==> c.below(b) || a.between(b, c) == a,
        !c.below(b) ==> !a.between(b, c).below(b) && !c.below(a.between(b, c)),
        !a.below(b) && !c.below(a) ==> a.between(b, c) == a,
        a.below(b) ==> a.between(b, c) == b,
        !a.below(b) && c.below(a) ==> a.between(b, c) == c,
{
}

/// The total order by the bits: a value with the sign bit stands before every one without it,
/// and among the former more bits stand earlier, among the latter later.
pub proof fn the_total_order_goes_by_the_bits(a: Scalar, b: Scalar)
    requires
        a.bits < b.bits,
    ensures
        b.bits < 0x8000_0000_0000_0000u64 ==> a.total_rank() < b.total_rank(),
        0x8000_0000_0000_0000u64 <= a.bits ==> b.total_rank() < a.total_rank(),
        a.bits < 0x8000_0000_0000_0000u64 && 0x8000_0000_0000_0000u64 <= b.bits ==> b.total_rank()
            < a.total_rank(),
{
}

} // verus!
