//! Single-precision numbers as bit patterns.
//!
//! Ratios, sizes and cursor positions are single-precision numbers. What the
//! library does with them is compare and clamp, and both can be decided on the
//! IEEE 754 bit pattern: apart from the sign bit, the patterns of the numbers
//! are ordered as the numbers are.

use vstd::prelude::*;

verus! {

/// A single-precision number, held as its IEEE 754 bit pattern.
#[derive(Clone, Copy, Debug, PartialEq, Eq, Structural)]
pub struct Scalar {
    pub bits: u32,
}

/// A point or an extent.
#[derive(Clone, Copy, Debug, PartialEq, Eq, Structural)]
pub struct Point {
    pub x: Scalar,
    pub y: Scalar,
}

/// The pattern of positive infinity; a larger magnitude is not a number.
pub const INFINITY_BITS: u32 = 0x7F80_0000;

/// The sign bit on its own.
pub const SIGN_BIT: u32 = 0x8000_0000;

/// The pattern of `0.0`.
pub const ZERO_BITS: u32 = 0x0000_0000;

/// The pattern of `1.0`.
pub const ONE_BITS: u32 = 0x3F80_0000;

impl Scalar {
    /// The pattern without its sign.
    pub open spec fn magnitude(self) -> int {
        if self.bits >= SIGN_BIT {
            self.bits - SIGN_BIT
        } else {
            self.bits as int
        }
    }

    /// Not a number: compares with nothing, itself included.
    pub open spec fn nan(self) -> bool {
        self.magnitude() > INFINITY_BITS
    }

    /// Where the number stands among the numbers. Both zeros stand at 0.
    pub open spec fn rank(self) -> int {
        if self.bits >= SIGN_BIT {
            -self.magnitude()
        } else {
            self.magnitude()
        }
    }

    /// `self < other`.
    pub open spec fn less(self, other: Scalar) -> bool {
        !self.nan() && !other.nan() && self.rank() < other.rank()
    }

    /// `self <= other`.
    pub open spec fn at_most(self, other: Scalar) -> bool {
        !self.nan() && !other.nan() && self.rank() <= other.rank()
    }

    /// `self == other` as numbers: the two zeros are equal, and nothing equals
    /// what is not a number.
    pub open spec fn equal(self, other: Scalar) -> bool {
        !self.nan() && !other.nan() && self.rank() == other.rank()
    }

    /// The number moved into `low..=high`; what is not a number stays as it is.
    pub open spec fn clamped(self, low: Scalar, high: Scalar) -> Scalar {
        if self.less(low) {
            low
        } else if high.less(self) {
            high
        } else {
            self
        }
    }

    /// The lesser of two numbers; the other one where one is not a number.
    pub open spec fn lesser(self, other: Scalar) -> Scalar {
        if self.nan() || other.less(self) {
            other
        } else {
            self
        }
    }

    pub fn is_nan(self) -> (r: bool)
        ensures
            r == self.nan(),
    {
        if self.bits >= SIGN_BIT {
            self.bits - SIGN_BIT > INFINITY_BITS
        } else {
            self.bits > INFINITY_BITS
        }
    }

    pub fn lt(self, other: Scalar) -> (r: bool)
        ensures
            r == self.less(other),
    {
        if self.is_nan() || other.is_nan() {
            return false;
        }
        if self.bits >= SIGN_BIT {
            if other.bits >= SIGN_BIT {
                self.bits > other.bits
            } else {
                self.bits > SIGN_BIT || other.bits > 0
            }
        } else {
            other.bits < SIGN_BIT && self.bits < other.bits
        }
    }

    pub fn le(self, other: Scalar) -> (r: bool)
        ensures
            r == self.at_most(other),
    {
        !self.is_nan() && !other.is_nan() && !other.lt(self)
    }

    /// Equality of the numbers, not of the patterns.
    pub fn same(self, other: Scalar) -> (r: bool)
        ensures
            r == self.equal(other),
    {
        self.le(other) && other.le(self)
    }

    pub fn min(self, other: Scalar) -> (r: Scalar)
        ensures
            r == self.lesser(other),
    {
        if self.is_nan() || other.lt(self) {
            other
        } else {
            self
        }
    }

    pub fn clamp(self, low: Scalar, high: Scalar) -> (r: Scalar)
        requires
            low.at_most(high),
        ensures
            r == self.clamped(low, high),
    {
        if self.lt(low) {
            low
        } else if high.lt(self) {
            high
        } else {
            self
        }
    }
}

/// How numbers compare, by their patterns: those from zero up as the patterns
/// do, those below zero the other way round, every one below zero before every
/// one that is not, the two zeros alike, and a pattern beyond the infinities
/// with nothing.
pub proof fn numbers_compare_by_pattern(a: Scalar, b: Scalar)
    ensures
        a.bits <= 0x7F80_0000 && b.bits <= 0x7F80_0000 ==> {
            &&& a.less(b) == (a.bits < b.bits)
            &&& a.at_most(b) == (a.bits <= b.bits)
            &&& a.equal(b) == (a.bits == b.bits)
        },
        0x8000_0000 <= a.bits <= 0xFF80_0000 && 0x8000_0000 <= b.bits <= 0xFF80_0000 ==> {
            &&& a.less(b) == (a.bits > b.bits)
            &&& a.at_most(b) == (a.bits >= b.bits)
            &&& a.equal(b) == (a.bits == b.bits)
        },
        0x8000_0000 < a.bits <= 0xFF80_0000 && b.bits <= 0x7F80_0000 ==> {
            &&& a.less(b) && a.at_most(b) && !a.equal(b)
            &&& !b.less(a) && !b.at_most(a)
        },
        a.bits == 0x8000_0000 && b.bits <= 0x7F80_0000 ==> {
            &&& a.less(b) == (b.bits > 0)
            &&& a.at_most(b) && b.at_most(a) == (b.bits == 0)
            &&& a.equal(b) == (b.bits == 0)
            &&& !b.less(a)
        },
        0x7F80_0000 < a.bits < 0x8000_0000 || 0xFF80_0000 < a.bits ==> {
            &&& !a.less(b) && !a.at_most(b) && !a.equal(b)
            &&& !b.less(a) && !b.at_most(a) && !b.equal(a)
        },
        !(0x7F80_0000 < a.bits < 0x8000_0000 || 0xFF80_0000 < a.bits) ==> a.at_most(a) && a.equal(a),
{
}

/// The lesser of two numbers is one of them and not above the other; of a number
/// and what is none, it is the number.
pub proof fn lesser_is_below_both(a: Scalar, b: Scalar)
    ensures
        a.at_most(a) && b.at_most(b) ==> {
            &&& a.lesser(b) == a || a.lesser(b) == b
            &&& a.lesser(b).at_most(a) && a.lesser(b).at_most(b)
        },
        a.at_most(a) && !b.at_most(b) ==> a.lesser(b) == a,
        !a.at_most(a) ==> a.lesser(b) == b,
{
}

/// Clamping moves a number to the nearer end of the range, and leaves one inside
/// it alone.
pub proof fn clamp_moves_to_the_nearer_end(x: Scalar, low: Scalar, high: Scalar)
    requires
        low.at_most(high),
    ensures
        x.less(low) ==> x.clamped(low, high) == low,
        high.less(x) ==> x.clamped(low, high) == high,
        !x.less(low) && !high.less(x) ==> x.clamped(low, high) == x,
{
}

/// A clamped number lies in the range it was clamped to, and clamping it again
/// changes nothing.
pub proof fn clamp_lands_in_range(x: Scalar, low: Scalar, high: Scalar)
    requires
        low.at_most(high),
    ensures
        x.nan() ==> x.clamped(low, high) == x,
        !x.nan() ==> low.at_most(x.clamped(low, high)) && x.clamped(low, high).at_most(high),
        x.clamped(low, high).clamped(low, high) == x.clamped(low, high),
        low.at_most(x) && x.at_most(high) ==> x.clamped(low, high) == x,
{
}

} // verus!
