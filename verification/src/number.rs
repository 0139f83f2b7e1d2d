//! Floating-point numbers as the library holds them: by their IEEE 754 bit patterns.
//!
//! The library carries such numbers through and compares them; it does not compute with them.
//! What has to be computed (a distance, a speed) comes in as an argument.

use vstd::prelude::*;

verus! {

/// A double-precision number.
#[derive(Debug, Clone, Copy, PartialEq, Eq, Structural)]
pub struct Double {
    pub bits: u64,
}

/// Zero.
pub const ZERO_BITS: u64 = 0;

/// One.
pub const ONE_BITS: u64 = 0x3ff0_0000_0000_0000;

/// Infinity: the least pattern, without its sign, that is not a finite number.
pub const INFINITY_BITS: u64 = 0x7ff0_0000_0000_0000;

pub const SIGN_BIT: u64 = 0x8000_0000_0000_0000;

impl Double {
    pub open spec fn negative(self) -> bool {
        self.bits >= SIGN_BIT
    }

    /// The bits without the sign.
    pub open spec fn magnitude(self) -> int {
        if self.negative() {
            self.bits - SIGN_BIT
        } else {
            self.bits as int
        }
    }

    pub open spec fn is_nan_spec(self) -> bool {
        self.magnitude() > INFINITY_BITS
    }

    pub open spec fn is_finite_spec(self) -> bool {
        self.magnitude() < INFINITY_BITS
    }

    /// Where a number other than NaN stands in the order of numbers: patterns of one sign are
    /// ordered as the numbers are, and the two zeros stand at one place.
    pub open spec fn rank(self) -> int {
        if self.negative() {
            -self.magnitude()
        } else {
            self.magnitude()
        }
    }

    /// `self < other` as IEEE 754 has it: false where either is NaN.
    pub open spec fn less(self, other: Double) -> bool {
        !self.is_nan_spec() && !other.is_nan_spec() && self.rank() < other.rank()
    }

    /// `self <= other` as IEEE 754 has it: false where either is NaN.
    pub open spec fn at_most(self, other: Double) -> bool {
        !self.is_nan_spec() && !other.is_nan_spec() && self.rank() <= other.rank()
    }

    /// `self`, or the bound that it lies outside of; NaN stays NaN.
    pub open spec fn clamped(self, low: Double, high: Double) -> Double {
        if self.less(low) {
            low
        } else if high.less(self) {
            high
        } else {
            self
        }
    }

    pub fn from_bits(bits: u64) -> (d: Double)
        ensures
            d.bits == bits,
    {
        Double { bits }
    }

    pub fn zero() -> (d: Double)
        ensures
            d.bits == ZERO_BITS,
    {
        Double { bits: ZERO_BITS }
    }

    fn magnitude_bits(self) -> (m: u64)
        ensures
            m as int == self.magnitude(),
    {
        if self.bits >= SIGN_BIT {
            self.bits - SIGN_BIT
        } else {
            self.bits
        }
    }

    pub fn is_nan(self) -> (r: bool)
        ensures
            r == self.is_nan_spec(),
    {
        self.magnitude_bits() > INFINITY_BITS
    }

    pub fn is_finite(self) -> (r: bool)
        ensures
            r == self.is_finite_spec(),
    {
        self.magnitude_bits() < INFINITY_BITS
    }

    fn rank_of(self) -> (r: i64)
        ensures
            r as int == self.rank(),
    {
        let m: i64 = self.magnitude_bits() as i64;
        if self.bits >= SIGN_BIT {
            -m
        } else {
            m
        }
    }

    pub fn is_less(self, other: Double) -> (r: bool)
        ensures
            r == self.less(other),
    {
        !self.is_nan() && !other.is_nan() && self.rank_of() < other.rank_of()
    }

    pub fn is_at_most(self, other: Double) -> (r: bool)
        ensures
            r == self.at_most(other),
    {
        !self.is_nan() && !other.is_nan() && self.rank_of() <= other.rank_of()
    }

    pub fn clamp(self, low: Double, high: Double) -> (r: Double)
        ensures
            r == self.clamped(low, high),
    {
        if self.is_less(low) {
            low
        } else if high.is_less(self) {
            high
        } else {
            self
        }
    }

    /// The number without its sign.
    pub open spec fn unsigned(self) -> Double {
        Double {
            bits: if self.negative() {
                (self.bits - SIGN_BIT) as u64
            } else {
                self.bits
            },
        }
    }

    pub fn abs(self) -> (r: Double)
        ensures
            r == self.unsigned(),
    {
        if self.bits >= SIGN_BIT {
            Double { bits: self.bits - SIGN_BIT }
        } else {
            self
        }
    }

    /// The larger of two numbers; the other one where one is no number.
    pub open spec fn larger_of(self, other: Double) -> Double {
        if self.is_nan_spec() {
            other
        } else if self.less(other) {
            other
        } else {
            self
        }
    }

    pub fn max(self, other: Double) -> (r: Double)
        ensures
            r == self.larger_of(other),
    {
        if self.is_nan() || self.is_less(other) {
            other
        } else {
            self
        }
    }

    /// The smaller of two numbers; the other one where one is no number.
    pub open spec fn smaller_of(self, other: Double) -> Double {
        if self.is_nan_spec() {
            other
        } else if other.less(self) {
            other
        } else {
            self
        }
    }

    pub fn min(self, other: Double) -> (r: Double)
        ensures
            r == self.smaller_of(other),
    {
        if self.is_nan() || other.is_less(self) {
            other
        } else {
            self
        }
    }

    /// The number with its sign turned round.
    pub open spec fn negated(self) -> Double {
        Double {
            bits: if self.negative() {
                (self.bits - SIGN_BIT) as u64
            } else {
                (self.bits + SIGN_BIT) as u64
            },
        }
    }

    pub fn negate(self) -> (r: Double)
        ensures
            r == self.negated(),
            r.rank() == -self.rank(),
    {
        if self.bits >= SIGN_BIT {
            Double { bits: self.bits - SIGN_BIT }
        } else {
            Double { bits: self.bits + SIGN_BIT }
        }
    }
}

/// A number held between bounds lies between them.
pub proof fn law_clamped_within(d: Double, low: Double, high: Double)
    requires
        low.at_most(high),
        !d.is_nan_spec(),
    ensures
        low.at_most(d.clamped(low, high)),
        d.clamped(low, high).at_most(high),
        low.at_most(d) && d.at_most(high) ==> d.clamped(low, high) == d,
{
}

/// A single-precision number.
#[derive(Debug, Clone, Copy, PartialEq, Eq, Structural)]
pub struct Single {
    pub bits: u32,
}

pub const SINGLE_INFINITY_BITS: u32 = 0x7f80_0000;

pub const SINGLE_SIGN_BIT: u32 = 0x8000_0000;

impl Single {
    pub open spec fn negative(self) -> bool {
        self.bits >= SINGLE_SIGN_BIT
    }

    pub open spec fn magnitude(self) -> int {
        if self.negative() {
            self.bits - SINGLE_SIGN_BIT
        } else {
            self.bits as int
        }
    }

    pub open spec fn is_nan_spec(self) -> bool {
        self.magnitude() > SINGLE_INFINITY_BITS
    }

    pub open spec fn rank(self) -> int {
        if self.negative() {
            -self.magnitude()
        } else {
            self.magnitude()
        }
    }

    pub open spec fn at_most(self, other: Single) -> bool {
        !self.is_nan_spec() && !other.is_nan_spec() && self.rank() <= other.rank()
    }

    pub open spec fn less(self, other: Single) -> bool {
        !self.is_nan_spec() && !other.is_nan_spec() && self.rank() < other.rank()
    }

    /// `self`, held between `low` and `high`.
    pub open spec fn clamped(self, low: Single, high: Single) -> Single {
        if self.less(low) {
            low
        } else if high.less(self) {
            high
        } else {
            self
        }
    }

    /// The number without its sign.
    pub open spec fn absolute(self) -> Single {
        Single { bits: self.magnitude() as u32 }
    }

    /// `self`, or zero where it is below zero or NaN.
    pub open spec fn floored(self) -> Single {
        if self.is_nan_spec() || self.rank() <= 0 {
            Single { bits: 0 }
        } else {
            self
        }
    }

    pub fn zero() -> (r: Single)
        ensures
            r.bits == 0,
    {
        Single { bits: 0 }
    }

    pub fn is_nan(self) -> (r: bool)
        ensures
            r == self.is_nan_spec(),
    {
        self.abs().bits > SINGLE_INFINITY_BITS
    }

    pub fn abs(self) -> (r: Single)
        ensures
            r == self.absolute(),
    {
        if self.bits >= SINGLE_SIGN_BIT {
            Single { bits: self.bits - SINGLE_SIGN_BIT }
        } else {
            self
        }
    }

    fn rank_of(self) -> (r: i64)
        ensures
            r as int == self.rank(),
    {
        let m: i64 = self.abs().bits as i64;
        if self.bits >= SINGLE_SIGN_BIT {
            -m
        } else {
            m
        }
    }

    pub fn is_at_most(self, other: Single) -> (r: bool)
        ensures
            r == self.at_most(other),
    {
        !self.is_nan() && !other.is_nan() && self.rank_of() <= other.rank_of()
    }

    pub fn is_less(self, other: Single) -> (r: bool)
        ensures
            r == self.less(other),
    {
        !self.is_nan() && !other.is_nan() && self.rank_of() < other.rank_of()
    }

    pub fn clamp(self, low: Single, high: Single) -> (r: Single)
        ensures
            r == self.clamped(low, high),
    {
        if self.is_less(low) {
            low
        } else if high.is_less(self) {
            high
        } else {
            self
        }
    }

    /// The number where it is above zero, else zero.
    pub fn at_least_zero(self) -> (r: Single)
        ensures
            r == self.floored(),
    {
        if self.is_nan() || self.rank_of() <= 0 {
            Single { bits: 0 }
        } else {
            self
        }
    }
}

// ---------------------------------------------------------------------------
// Laws

/// The order is that of IEEE 754, bit pattern by bit pattern: positive patterns go up, negative ones
/// go down, the two zeros are equal, and NaN is neither below nor above anything.
pub proof fn law_order_of_doubles(a: Double, b: Double)
    ensures
        a.is_nan_spec() <==> 0x7ff0_0000_0000_0000 < a.bits < 0x8000_0000_0000_0000 || a.bits
            > 0xfff0_0000_0000_0000,
        a.is_finite_spec() <==> a.bits < 0x7ff0_0000_0000_0000 || 0x8000_0000_0000_0000 <= a.bits
            < 0xfff0_0000_0000_0000,
        a.is_nan_spec() || b.is_nan_spec() ==> !a.less(b) && !a.at_most(b),
        !a.is_nan_spec() && !b.is_nan_spec() ==> {
            &&& a.less(b) <==> !b.at_most(a)
            &&& a.bits < 0x8000_0000_0000_0000 && b.bits < 0x8000_0000_0000_0000 ==> (a.at_most(b)
                <==> a.bits <= b.bits)
            &&& a.bits >= 0x8000_0000_0000_0000 && b.bits >= 0x8000_0000_0000_0000 ==> (a.at_most(b)
                <==> a.bits >= b.bits)
            &&& a.bits >= 0x8000_0000_0000_0000 && b.bits < 0x8000_0000_0000_0000 ==> a.at_most(b)
            &&& a.bits < 0x8000_0000_0000_0000 && b.bits >= 0x8000_0000_0000_0000 ==> (a.at_most(b)
                <==> a.bits == 0 && b.bits == 0x8000_0000_0000_0000)
        },
{
}

/// A number outside its bounds becomes the bound that it lies beyond; any other, and NaN, stays.
pub proof fn law_clamped_is_the_number_or_a_bound(d: Double, low: Double, high: Double)
    requires
        low.at_most(high),
    ensures
        d.less(low) ==> d.clamped(low, high) == low,
        high.less(d) ==> d.clamped(low, high) == high,
        !d.less(low) && !high.less(d) ==> d.clamped(low, high) == d,
{
}

/// The larger and the smaller of two numbers are those two, whichever way round they are asked for;
/// where one is NaN, both are the other.
pub proof fn law_larger_and_smaller(a: Double, b: Double)
    ensures
        a.larger_of(b) == a || a.larger_of(b) == b,
        a.smaller_of(b) == a || a.smaller_of(b) == b,
        a.is_nan_spec() ==> a.larger_of(b) == b && a.smaller_of(b) == b,
        b.is_nan_spec() ==> a.larger_of(b) == a && a.smaller_of(b) == a || a.is_nan_spec(),
        !a.is_nan_spec() && !b.is_nan_spec() ==> {
            &&& a.at_most(a.larger_of(b)) && b.at_most(a.larger_of(b))
            &&& a.smaller_of(b).at_most(a) && a.smaller_of(b).at_most(b)
        },
{
}

/// Turning the sign round turns the order round and undoes itself; without its sign, a number is
/// itself or its opposite, and not below zero.
pub proof fn law_signs(a: Double, b: Double)
    ensures
        a.negated() != a,
        a.negated().negated() == a,
        a.negated().is_nan_spec() == a.is_nan_spec(),
        a.at_most(b) <==> b.negated().at_most(a.negated()),
        a.unsigned().bits < 0x8000_0000_0000_0000,
        a.unsigned() == a || a.unsigned() == a.negated(),
        a.negated().unsigned() == a.unsigned(),
{
}

/// So in single precision.
pub proof fn law_order_of_singles(a: Single, b: Single)
    ensures
        a.is_nan_spec() <==> 0x7f80_0000 < a.bits < 0x8000_0000 || a.bits > 0xff80_0000,
        a.is_nan_spec() || b.is_nan_spec() ==> !a.less(b) && !a.at_most(b),
        !a.is_nan_spec() && !b.is_nan_spec() ==> {
            &&& a.less(b) <==> !b.at_most(a)
            &&& a.bits < 0x8000_0000 && b.bits < 0x8000_0000 ==> (a.at_most(b) <==> a.bits <= b.bits)
            &&& a.bits >= 0x8000_0000 && b.bits >= 0x8000_0000 ==> (a.at_most(b) <==> a.bits
                >= b.bits)
            &&& a.bits >= 0x8000_0000 && b.bits < 0x8000_0000 ==> a.at_most(b)
            &&& a.bits < 0x8000_0000 && b.bits >= 0x8000_0000 ==> (a.at_most(b) <==> a.bits == 0
                && b.bits == 0x8000_0000)
        },
        a.absolute().bits < 0x8000_0000,
        a.bits < 0x8000_0000 ==> a.absolute() == a,
        a.bits >= 0x8000_0000 ==> a.absolute().bits == a.bits - 0x8000_0000,
{
}

/// Held between bounds, a single-precision number is itself or the bound that it lies beyond. Held to
/// zero from below, it is itself where it is above zero, and zero otherwise.
pub proof fn law_held_singles(s: Single, low: Single, high: Single)
    requires
        low.at_most(high),
    ensures
        s.less(low) ==> s.clamped(low, high) == low,
        high.less(s) ==> s.clamped(low, high) == high,
        !s.less(low) && !high.less(s) ==> s.clamped(low, high) == s,
        (Single { bits: 0 }).less(s) ==> s.floored() == s,
        !(Single { bits: 0 }).less(s) ==> s.floored().bits == 0,
{
}

} // verus!
