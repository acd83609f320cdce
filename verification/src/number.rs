//! Lox numbers as exact decimals with six fractional digits.
//!
//! A number is a count of millionths held in an `i64`. Every operation is
//! exact or truncates toward zero, and reports `None` when the result does
//! not fit, so that no operation wraps or panics.

use vstd::prelude::*;

verus! {

/// How many units make one: numbers carry six fractional digits.
pub const SCALE: i64 = 1_000_000;

/// A decimal number: `units` millionths.
#[derive(Clone, Copy, Debug, PartialEq, Eq, Structural)]
pub struct Number {
    pub units: i64,
}

/// Whether `v` fits a number's range.
pub open spec fn in_range(v: int) -> bool {
    i64::MIN <= v <= i64::MAX
}

/// Quotient of `a` by `b` rounded toward zero, for `b != 0`.
pub open spec fn div_toward_zero(a: int, b: int) -> int {
    if (a >= 0) == (b > 0) {
        abs(a) / abs(b)
    } else {
        -(abs(a) / abs(b))
    }
}

/// Absolute value of an integer.
pub open spec fn abs(a: int) -> int {
    if a < 0 {
        -a
    } else {
        a
    }
}

/// The units of the sum, without regard to range.
pub open spec fn sum_units(a: Number, b: Number) -> int {
    a.units + b.units
}

/// The units of the difference, without regard to range.
pub open spec fn difference_units(a: Number, b: Number) -> int {
    a.units - b.units
}

/// The units of the product of `x` units and `y` units, truncated toward
/// zero to six fractional digits.
pub open spec fn product_of(x: int, y: int) -> int {
    div_toward_zero(x * y, SCALE as int)
}

/// The units of the quotient of `x` units by `y` units, truncated toward
/// zero to six fractional digits. Meaningful only for a nonzero `y`.
pub open spec fn quotient_of(x: int, y: int) -> int {
    div_toward_zero(x * SCALE, y)
}

/// The units of the product, truncated toward zero to six fractional digits.
pub open spec fn product_units(a: Number, b: Number) -> int {
    product_of(a.units as int, b.units as int)
}

/// The units of the quotient, truncated toward zero to six fractional
/// digits. Meaningful only for a nonzero divisor.
pub open spec fn quotient_units(a: Number, b: Number) -> int {
    quotient_of(a.units as int, b.units as int)
}

/// The absolute value of `v`.
pub fn magnitude(v: i64) -> (m: u128)
    ensures
        m == abs(v as int),
{
    if v >= 0 {
        v as u128
    } else if v == i64::MIN {
        9_223_372_036_854_775_808u128
    } else {
        (-v) as u128
    }
}

/// Gives `m` the sign asked for, if the result fits.
fn with_sign(negative: bool, m: u128) -> (r: Option<Number>)
    ensures
        match r {
            Some(n) => n.units == (if negative { -(m as int) } else { m as int }),
            None => !in_range(if negative { -(m as int) } else { m as int }),
        },
{
    if negative {
        if m <= 9_223_372_036_854_775_807u128 {
            let v: i64 = m as i64;
            Some(Number { units: -v })
        } else if m == 9_223_372_036_854_775_808u128 {
            Some(Number { units: i64::MIN })
        } else {
            None
        }
    } else {
        if m <= 9_223_372_036_854_775_807u128 {
            Some(Number { units: m as i64 })
        } else {
            None
        }
    }
}

impl Number {
    /// The number with the given count of millionths.
    pub fn from_units(units: i64) -> (n: Number)
        ensures
            n.units == units,
    {
        Number { units }
    }

    /// The whole number `whole`, if it fits.
    pub fn from_whole(whole: i64) -> (r: Option<Number>)
        ensures
            match r {
                Some(n) => n.units == whole * SCALE,
                None => !in_range(whole * SCALE),
            },
    {
        match whole.checked_mul(SCALE) {
            Some(units) => Some(Number { units }),
            None => None,
        }
    }

    /// Zero.
    pub fn zero() -> (n: Number)
        ensures
            n.units == 0,
    {
        Number { units: 0 }
    }

    /// Whether the number is zero.
    pub fn is_zero(&self) -> (b: bool)
        ensures
            b == (self.units == 0),
    {
        self.units == 0
    }

    /// The sum, or `None` when it does not fit.
    pub fn checked_add(self, other: Number) -> (r: Option<Number>)
        ensures
            match r {
                Some(n) => n.units == sum_units(self, other),
                None => !in_range(sum_units(self, other)),
            },
    {
        match self.units.checked_add(other.units) {
            Some(units) => Some(Number { units }),
            None => None,
        }
    }

    /// The difference, or `None` when it does not fit.
    pub fn checked_sub(self, other: Number) -> (r: Option<Number>)
        ensures
            match r {
                Some(n) => n.units == difference_units(self, other),
                None => !in_range(difference_units(self, other)),
            },
    {
        match self.units.checked_sub(other.units) {
            Some(units) => Some(Number { units }),
            None => None,
        }
    }

    /// The negation, or `None` when it does not fit.
    pub fn checked_neg(self) -> (r: Option<Number>)
        ensures
            match r {
                Some(n) => n.units == -self.units,
                None => !in_range(-self.units),
            },
    {
        if self.units == i64::MIN {
            None
        } else {
            Some(Number { units: -self.units })
        }
    }

    /// The product truncated toward zero, or `None` when it does not fit.
    pub fn checked_mul(self, other: Number) -> (r: Option<Number>)
        ensures
            match r {
                Some(n) => n.units == product_units(self, other),
                None => !in_range(product_units(self, other)),
            },
    {
        let a: u128 = magnitude(self.units);
        let b: u128 = magnitude(other.units);
        assert(a * b <= 0x8000_0000_0000_0000 * 0x8000_0000_0000_0000) by (nonlinear_arith)
            requires
                a <= 0x8000_0000_0000_0000,
                b <= 0x8000_0000_0000_0000,
        ;
        let p: u128 = a * b;
        let q: u128 = p / 1_000_000u128;
        let negative = (self.units < 0) != (other.units < 0);
        proof {
            let x = self.units as int;
            let y = other.units as int;
            assert(abs(x * y) == abs(x) * abs(y)) by (nonlinear_arith);
            assert((x * y >= 0) == !negative || x * y == 0) by (nonlinear_arith)
                requires
                    negative == ((x < 0) != (y < 0)),
            ;
            if x * y == 0 {
                assert(p == 0);
                assert(q == 0);
            }
        }
        with_sign(negative && q != 0, q)
    }

    /// The quotient truncated toward zero, or `None` when it does not fit.
    pub fn checked_div(self, other: Number) -> (r: Option<Number>)
        requires
            other.units != 0,
        ensures
            match r {
                Some(n) => n.units == quotient_units(self, other),
                None => !in_range(quotient_units(self, other)),
            },
    {
        let a: u128 = magnitude(self.units);
        let b: u128 = magnitude(other.units);
        let p: u128 = a * 1_000_000u128;
        let q: u128 = p / b;
        let negative = (self.units < 0) != (other.units < 0);
        proof {
            let x = self.units as int;
            assert(abs(x * SCALE) == abs(x) * SCALE) by (nonlinear_arith);
            assert((x * SCALE >= 0) == (x >= 0)) by (nonlinear_arith);
            if x == 0 {
                assert(p == 0);
                assert(q == 0);
            }
        }
        with_sign(negative && q != 0, q)
    }

    /// Whether this number is less than `other`.
    pub fn lt(self, other: Number) -> (b: bool)
        ensures
            b == (self.units < other.units),
    {
        self.units < other.units
    }

    /// Whether this number is at most `other`.
    pub fn le(self, other: Number) -> (b: bool)
        ensures
            b == (self.units <= other.units),
    {
        self.units <= other.units
    }

    /// Whether this number is greater than `other`.
    pub fn gt(self, other: Number) -> (b: bool)
        ensures
            b == (self.units > other.units),
    {
        self.units > other.units
    }

    /// Whether this number is at least `other`.
    pub fn ge(self, other: Number) -> (b: bool)
        ensures
            b == (self.units >= other.units),
    {
        self.units >= other.units
    }
}

} // verus!
