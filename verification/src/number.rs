//! Numbers as the interpreter holds them: the bit pattern of an IEEE-754
//! double. Arithmetic on them is done outside this library; what can be read
//! off the bits (sign, order, equality) is done here.
use vstd::prelude::*;

verus! {

/// The sign bit of a double.
pub const SIGN_BIT: u64 = 0x8000_0000_0000_0000;

/// The bits of positive infinity: every larger magnitude is not a number.
pub const INFINITY_BITS: u64 = 0x7ff0_0000_0000_0000;

/// A double-precision number, held as its bits.
#[derive(Debug, Clone, Copy, PartialEq, Eq, Structural)]
pub struct Number {
    pub bits: u64,
}

impl Number {
    /// The bits without the sign.
    pub open spec fn magnitude(self) -> int {
        if self.bits >= SIGN_BIT {
            self.bits - SIGN_BIT
        } else {
            self.bits as int
        }
    }

    /// The sign bit is set. This holds of negative zero too.
    pub open spec fn is_negative(self) -> bool {
        self.bits >= SIGN_BIT
    }

    /// The value is not a number.
    pub open spec fn is_nan(self) -> bool {
        self.magnitude() > INFINITY_BITS
    }

    /// The value is zero, of either sign.
    pub open spec fn is_zero(self) -> bool {
        self.magnitude() == 0
    }

    /// An integer that orders the numbers as their values do: the magnitude,
    /// negated below zero. Both zeros have rank zero.
    pub open spec fn rank(self) -> int {
        if self.is_negative() {
            -self.magnitude()
        } else {
            self.magnitude()
        }
    }

    /// Numeric equality: nothing equals a value that is not a number, and the
    /// two zeros are equal.
    pub open spec fn equals(self, other: Number) -> bool {
        !self.is_nan() && !other.is_nan() && self.rank() == other.rank()
    }

    /// Numeric order: false whenever either side is not a number.
    pub open spec fn less(self, other: Number) -> bool {
        !self.is_nan() && !other.is_nan() && self.rank() < other.rank()
    }

    /// Numeric order or equality: false whenever either side is not a number.
    pub open spec fn less_equal(self, other: Number) -> bool {
        !self.is_nan() && !other.is_nan() && self.rank() <= other.rank()
    }

    /// The number with the opposite sign.
    pub open spec fn negated(self) -> Number {
        if self.bits >= SIGN_BIT {
            Number { bits: (self.bits - SIGN_BIT) as u64 }
        } else {
            Number { bits: (self.bits + SIGN_BIT) as u64 }
        }
    }

    /// The number with the given bits.
    pub fn from_bits(bits: u64) -> (r: Number)
        ensures
            r.bits == bits,
    {
        Number { bits }
    }

    /// The bits of the number.
    pub fn to_bits(&self) -> (r: u64)
        ensures
            r == self.bits,
    {
        self.bits
    }

    fn exec_magnitude(&self) -> (r: u64)
        ensures
            r == self.magnitude(),
    {
        if self.bits >= SIGN_BIT {
            self.bits - SIGN_BIT
        } else {
            self.bits
        }
    }

    fn exec_rank(&self) -> (r: i128)
        ensures
            r == self.rank(),
    {
        let m = self.exec_magnitude() as i128;
        if self.bits >= SIGN_BIT {
            -m
        } else {
            m
        }
    }

    /// Whether the value is not a number.
    pub fn nan(&self) -> (r: bool)
        ensures
            r == self.is_nan(),
    {
        self.exec_magnitude() > INFINITY_BITS
    }

    /// Whether the value is zero, of either sign.
    pub fn zero(&self) -> (r: bool)
        ensures
            r == self.is_zero(),
    {
        self.exec_magnitude() == 0
    }

    /// Numeric equality.
    pub fn equal_to(&self, other: &Number) -> (r: bool)
        ensures
            r == self.equals(*other),
    {
        !self.nan() && !other.nan() && self.exec_rank() == other.exec_rank()
    }

    /// Numeric `<`.
    pub fn less_than(&self, other: &Number) -> (r: bool)
        ensures
            r == self.less(*other),
    {
        !self.nan() && !other.nan() && self.exec_rank() < other.exec_rank()
    }

    /// Numeric `<=`.
    pub fn less_or_equal(&self, other: &Number) -> (r: bool)
        ensures
            r == self.less_equal(*other),
    {
        !self.nan() && !other.nan() && self.exec_rank() <= other.exec_rank()
    }

    /// The number with the opposite sign.
    pub fn negate(&self) -> (r: Number)
        ensures
            r == self.negated(),
    {
        if self.bits >= SIGN_BIT {
            Number { bits: self.bits - SIGN_BIT }
        } else {
            Number { bits: self.bits + SIGN_BIT }
        }
    }
}

/// Equality of numbers is symmetric.
pub proof fn lemma_equals_symmetric(a: Number, b: Number)
    ensures
        a.equals(b) == b.equals(a),
{
}

/// A number equals itself unless it is not a number.
pub proof fn lemma_equals_reflexive(a: Number)
    ensures
        a.equals(a) == !a.is_nan(),
{
}

/// Of two numbers exactly one of `<`, `==` and `>` holds, unless one of them
/// is not a number, in which case none does.
pub proof fn lemma_trichotomy(a: Number, b: Number)
    ensures
        !a.is_nan() && !b.is_nan() ==> (a.less(b) || a.equals(b) || b.less(a)),
        !(a.less(b) && a.equals(b)),
        !(a.less(b) && b.less(a)),
        a.is_nan() || b.is_nan() ==> !a.less(b) && !a.equals(b) && !b.less(a),
        a.less_equal(b) == (a.less(b) || a.equals(b)),
{
}

/// Negating twice gives the number back, and negation reverses the order.
pub proof fn lemma_negation(a: Number, b: Number)
    ensures
        a.negated().negated() == a,
        a.negated().is_nan() == a.is_nan(),
        a.less(b) == b.negated().less(a.negated()),
{
}

} // verus!
