//! Real numbers as they are stored: binary64 bit patterns, compared without
//! floating-point arithmetic.

use vstd::prelude::*;

verus! {

/// The bit pattern of infinity. A magnitude above it is no number.
pub const INFINITY_BITS: u64 = 0x7FF0_0000_0000_0000;

/// The sign bit.
pub const SIGN_BIT: u64 = 0x8000_0000_0000_0000;

pub const ZERO: u64 = 0x0000_0000_0000_0000;

pub const ONE_HALF: u64 = 0x3FE0_0000_0000_0000;

pub const SEVEN_TENTHS: u64 = 0x3FE6_6666_6666_6666;

pub const ONE: u64 = 0x3FF0_0000_0000_0000;

pub const TWO: u64 = 0x4000_0000_0000_0000;

pub const TWENTY: u64 = 0x4034_0000_0000_0000;

pub const TWENTY_FIVE: u64 = 0x4039_0000_0000_0000;

pub const THIRTY: u64 = 0x403E_0000_0000_0000;

pub const SIXTY: u64 = 0x404E_0000_0000_0000;

pub const HUNDRED: u64 = 0x4059_0000_0000_0000;

pub const MINUS_HUNDRED: u64 = 0xC059_0000_0000_0000;

pub const HUNDRED_EIGHTY: u64 = 0x4066_8000_0000_0000;

/// A binary64 number, by its bit pattern.
#[derive(Debug, Clone, Copy, PartialEq, Eq, Structural)]
pub struct Real {
    pub bits: u64,
}

/// A number together with the shortest decimal text that denotes it, as it is
/// shown in messages.
#[derive(Debug, PartialEq)]
pub struct PrintedReal {
    pub value: Real,
    pub text: String,
}

/// A `PrintedReal` with its text as a sequence of characters.
pub struct PrintedRealView {
    pub value: Real,
    pub text: Seq<char>,
}

impl View for PrintedReal {
    type V = PrintedRealView;

    open spec fn view(&self) -> PrintedRealView {
        PrintedRealView { value: self.value, text: self.text@ }
    }
}

impl Clone for PrintedReal {
    fn clone(&self) -> (r: Self)
        ensures
            r == *self,
    {
        PrintedReal { value: self.value, text: self.text.clone() }
    }
}

impl Real {
    /// The pattern without its sign.
    pub open spec fn magnitude(self) -> int {
        if self.bits < SIGN_BIT {
            self.bits as int
        } else {
            self.bits - SIGN_BIT
        }
    }

    /// Whether the pattern stands for a number at all, infinities among them.
    pub open spec fn is_number(self) -> bool {
        self.magnitude() <= INFINITY_BITS
    }

    /// The place of a number in the order of all numbers. The two zeros share
    /// one place.
    pub open spec fn rank(self) -> int {
        if self.bits < SIGN_BIT {
            self.magnitude()
        } else {
            -self.magnitude()
        }
    }

    /// Whether one number is at most another: never, if either is no number.
    pub open spec fn le(self, other: Real) -> bool {
        self.is_number() && other.is_number() && self.rank() <= other.rank()
    }

    /// Whether one number is less than another: never, if either is no number.
    pub open spec fn lt(self, other: Real) -> bool {
        self.is_number() && other.is_number() && self.rank() < other.rank()
    }

    /// Whether a number is above zero.
    pub open spec fn positive(self) -> bool {
        Real { bits: ZERO }.lt(self)
    }

    /// Whether a number lies between two others, both included.
    pub open spec fn within(self, low: u64, high: u64) -> bool {
        Real { bits: low }.le(self) && self.le(Real { bits: high })
    }

    /// The number with the given bit pattern.
    pub fn from_bits(bits: u64) -> (r: Real)
        ensures
            r.bits == bits,
    {
        Real { bits }
    }

    fn place(&self) -> (r: Option<i64>)
        ensures
            match r {
                Some(n) => self.is_number() && n == self.rank(),
                None => !self.is_number(),
            },
    {
        let magnitude: u64 = if self.bits < SIGN_BIT {
            self.bits
        } else {
            self.bits - SIGN_BIT
        };
        if magnitude > INFINITY_BITS {
            None
        } else if self.bits < SIGN_BIT {
            Some(magnitude as i64)
        } else {
            Some(-(magnitude as i64))
        }
    }

    /// Whether this number is at most `other`.
    pub fn is_at_most(&self, other: Real) -> (r: bool)
        ensures
            r == self.le(other),
    {
        match (self.place(), other.place()) {
            (Some(a), Some(b)) => a <= b,
            _ => false,
        }
    }

    /// Whether this number is above zero.
    pub fn is_positive(&self) -> (r: bool)
        ensures
            r == self.positive(),
    {
        match self.place() {
            Some(n) => 0 < n,
            None => false,
        }
    }

    /// Whether this number lies between the numbers with the patterns `low` and
    /// `high`, both included.
    pub fn is_within(&self, low: u64, high: u64) -> (r: bool)
        ensures
            r == self.within(low, high),
    {
        Real::from_bits(low).is_at_most(*self) && self.is_at_most(Real::from_bits(high))
    }
}

/// Numbers are totally ordered by `le`: of two, one is at most the other, and
/// the order is transitive.
pub proof fn law_numbers_are_ordered(a: Real, b: Real, c: Real)
    requires
        a.is_number(),
        b.is_number(),
        c.is_number(),
    ensures
        a.le(b) || b.le(a),
        a.le(b) && b.le(c) ==> a.le(c),
        a.lt(b) <==> !b.le(a),
{
}

} // verus!
