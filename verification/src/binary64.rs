//! Binary64 numbers by their bit patterns, ordered as IEEE 754 orders them.
use vstd::prelude::*;

verus! {

/// A binary64 number, held as its bit pattern.
#[derive(Debug, Clone, Copy, PartialEq, Eq, Structural)]
pub struct Real {
    pub bits: u64,
}

/// The bits of a number without its sign.
pub open spec fn magnitude(bits: u64) -> int {
    if bits >= 0x8000_0000_0000_0000 {
        bits - 0x8000_0000_0000_0000
    } else {
        bits as int
    }
}

impl Real {
    /// A pattern whose magnitude exceeds that of infinity is not a number.
    pub open spec fn nan(self) -> bool {
        magnitude(self.bits) > 0x7ff0_0000_0000_0000
    }

    /// The place of a number in the order: magnitudes order the bit patterns of
    /// one sign, and the two zeros are equal.
    pub open spec fn rank(self) -> int {
        if self.bits >= 0x8000_0000_0000_0000 {
            -magnitude(self.bits)
        } else {
            magnitude(self.bits)
        }
    }

    /// `self < other`; false where either is not a number.
    pub open spec fn below(self, other: Real) -> bool {
        !self.nan() && !other.nan() && self.rank() < other.rank()
    }

    /// `self <= other`; false where either is not a number.
    pub open spec fn upto(self, other: Real) -> bool {
        !self.nan() && !other.nan() && self.rank() <= other.rank()
    }

    /// The same number with the other sign.
    pub open spec fn negated(self) -> Real {
        if self.bits >= 0x8000_0000_0000_0000 {
            Real { bits: (self.bits - 0x8000_0000_0000_0000) as u64 }
        } else {
            Real { bits: (self.bits + 0x8000_0000_0000_0000) as u64 }
        }
    }

    /// The lesser of two numbers; where one is not a number, the other.
    pub open spec fn lesser(self, other: Real) -> Real {
        if self.nan() || other.below(self) {
            other
        } else {
            self
        }
    }

    pub open spec fn spec_zero() -> Real {
        Real { bits: 0 }
    }

    /// Zero.
    pub fn zero() -> (r: Real)
        ensures
            r == Real::spec_zero(),
    {
        Real { bits: 0 }
    }

    /// Whether this is not a number.
    pub fn is_nan(self) -> (r: bool)
        ensures
            r == self.nan(),
    {
        let m: u64 = if self.bits >= 0x8000_0000_0000_0000 {
            self.bits - 0x8000_0000_0000_0000
        } else {
            self.bits
        };
        m > 0x7ff0_0000_0000_0000
    }

    fn place(self) -> (r: i128)
        ensures
            r == self.rank(),
    {
        if self.bits >= 0x8000_0000_0000_0000 {
            -((self.bits - 0x8000_0000_0000_0000) as i128)
        } else {
            self.bits as i128
        }
    }

    /// `self < other`.
    pub fn less(self, other: Real) -> (r: bool)
        ensures
            r == self.below(other),
    {
        !self.is_nan() && !other.is_nan() && self.place() < other.place()
    }

    /// `self <= other`.
    pub fn at_most(self, other: Real) -> (r: bool)
        ensures
            r == self.upto(other),
    {
        !self.is_nan() && !other.is_nan() && self.place() <= other.place()
    }

    /// The same number with the other sign.
    pub fn negate(self) -> (r: Real)
        ensures
            r == self.negated(),
    {
        if self.bits >= 0x8000_0000_0000_0000 {
            Real { bits: self.bits - 0x8000_0000_0000_0000 }
        } else {
            Real { bits: self.bits + 0x8000_0000_0000_0000 }
        }
    }

    /// The lesser of two numbers; where one is not a number, the other.
    pub fn min(self, other: Real) -> (r: Real)
        ensures
            r == self.lesser(other),
    {
        if self.is_nan() || other.less(self) {
            other
        } else {
            self
        }
    }
}

/// Numbers are totally ordered once what is not a number is left out.
pub proof fn real_order_is_total(a: Real, b: Real, c: Real)
    requires
        !a.nan(),
        !b.nan(),
        !c.nan(),
    ensures
        a.upto(a),
        a.upto(b) || b.upto(a),
        a.upto(b) && b.upto(c) ==> a.upto(c),
        a.below(b) <==> !b.upto(a),
{
}

/// What is not a number stands in no order with anything.
pub proof fn nan_is_unordered(a: Real, b: Real)
    requires
        a.nan(),
    ensures
        !a.below(b) && !b.below(a) && !a.upto(b) && !b.upto(a),
{
}

/// Negation undoes itself and turns the order round.
pub proof fn negation_reverses_order(a: Real, b: Real)
    ensures
        a.negated().negated() == a,
        a.below(b) <==> b.negated().below(a.negated()),
{
}

/// The lesser of two numbers is one of them and at most each.
pub proof fn lesser_is_a_lower_bound(a: Real, b: Real)
    requires
        !a.nan(),
        !b.nan(),
    ensures
        a.lesser(b) == a || a.lesser(b) == b,
        a.lesser(b).upto(a),
        a.lesser(b).upto(b),
{
}

/// Among bit patterns without a sign the order is that of the patterns, and a
/// sign puts a number below zero, except that the two zeros are equal.
pub proof fn the_order_is_that_of_the_bits(a: u64, b: u64)
    requires
        a <= 0x7ff0_0000_0000_0000,
        b <= 0x7ff0_0000_0000_0000,
    ensures
        (Real { bits: a }).below(Real { bits: b }) <==> a < b,
        (Real { bits: a }).upto(Real { bits: b }) <==> a <= b,
        ({
            let minus = Real { bits: (b + 0x8000_0000_0000_0000) as u64 };
            &&& minus.upto(Real { bits: a })
            &&& minus.below(Real { bits: a }) <==> a > 0 || b > 0
            &&& (Real { bits: b }).negated() == minus
        }),
{
}

/// What is not a number has all bits of the exponent and one below them.
pub proof fn what_is_no_number_has_a_full_exponent(bits: u64)
    ensures
        bits < 0x8000_0000_0000_0000 ==> ((Real { bits }).nan() <==> bits
            > 0x7ff0_0000_0000_0000),
        bits >= 0x8000_0000_0000_0000 ==> ((Real { bits }).nan() <==> bits
            > 0xfff0_0000_0000_0000),
        Real::spec_zero().bits == 0,
{
}

/// The lesser of two numbers is the first where it is at most the second, and the
/// second where it is below the first; what is no number gives way.
pub proof fn the_lesser_is_the_one_below(a: Real, b: Real)
    ensures
        a.upto(b) ==> a.lesser(b) == a,
        b.below(a) ==> a.lesser(b) == b,
        a.nan() ==> a.lesser(b) == b,
        !a.nan() && b.nan() ==> a.lesser(b) == a,
{
}

} // verus!
