//! Exact arithmetic on finite doubles: the sign of a sum of whole multiples of them.

use vstd::prelude::*;

use crate::num::scalar::{Scalar, EXPONENT_UNIT, SIGN};

verus! {

/// `digits * 2^shift`.
pub open spec fn scaled(digits: int, shift: int) -> int
    decreases shift,
{
    if shift <= 0 {
        digits
    } else {
        2 * scaled(digits, shift - 1)
    }
}

impl Scalar {
    /// How far the digits of the number are moved up from the least place.
    pub open spec fn shift(self) -> int {
        if self.exponent() == 0 {
            0
        } else {
            self.exponent() - 1
        }
    }

    /// The number itself, where it is finite, counted in units of 2^-1074: every finite number is
    /// a whole multiple of that.
    pub open spec fn units(self) -> int {
        if self.negative() {
            -scaled(self.significand(), self.shift())
        } else {
            scaled(self.significand(), self.shift())
        }
    }
}

/// A whole multiple of a binary number: `factor * digits * 2^shift`.
#[derive(Clone, Copy, Debug, PartialEq, Eq, Structural)]
pub struct Multiple {
    pub factor: i64,
    pub digits: u64,
    pub shift: u64,
}

impl Multiple {
    pub open spec fn value(self) -> int {
        self.factor * scaled(self.digits as int, self.shift as int)
    }

    pub open spec fn small(self) -> bool {
        -16 <= self.factor <= 16
    }

    /// So many times a finite number.
    pub fn of(factor: i64, number: Scalar) -> (r: Multiple)
        requires
            -16 <= factor <= 16,
            number.finite(),
        ensures
            r.small(),
            r.value() == factor * number.units(),
    {
        let magnitude: u64 = number.bits % SIGN;
        let exponent: u64 = magnitude / EXPONENT_UNIT;
        let digits: u64 = if exponent == 0 {
            magnitude
        } else {
            magnitude % EXPONENT_UNIT + EXPONENT_UNIT
        };
        let shift: u64 = if exponent == 0 {
            0
        } else {
            exponent - 1
        };
        proof {
            let size = scaled(digits as int, shift as int);
            assert((-factor) * size == factor * (-size)) by (nonlinear_arith);
        }
        if number.bits >= SIGN {
            Multiple { factor: -factor, digits, shift }
        } else {
            Multiple { factor, digits, shift }
        }
    }

    /// The lowest place, and the rest halved.
    fn split(self) -> (r: (i64, Multiple))
        requires
            self.small(),
        ensures
            self.value() == 2 * r.1.value() + r.0,
            -16 <= r.0 <= 16,
            r.1.small(),
            r.1.digits <= self.digits,
            r.1.shift <= self.shift,
            self.digits > 0 ==> r.1.digits + r.1.shift < self.digits + self.shift,
    {
        let factor: i64 = self.factor;
        if self.shift > 0 {
            let rest = Multiple { factor, digits: self.digits, shift: self.shift - 1 };
            proof {
                let half = scaled(rest.digits as int, rest.shift as int);
                assert(factor * (2 * half) == 2 * (factor * half)) by (nonlinear_arith);
            }
            (0, rest)
        } else {
            let rest = Multiple { factor, digits: self.digits / 2, shift: 0 };
            let odd: bool = self.digits % 2 == 1;
            proof {
                let half = rest.digits as int;
                assert(factor * (2 * half) == 2 * (factor * half) && factor * (2 * half + 1) == 2
                    * (factor * half) + factor) by (nonlinear_arith);
            }
            if odd {
                (factor, rest)
            } else {
                (0, rest)
            }
        }
    }

    /// The same digits so many places lower.
    fn lowered(self, places: u64) -> (r: Multiple)
        requires
            self.small(),
            self.digits > 0 ==> places <= self.shift,
        ensures
            r.small(),
            self.value() == scaled(r.value(), places as int),
    {
        proof {
            lemma_zero(self.shift as int);
            lemma_zero(places as int);
            if self.digits > 0 {
                lemma_places(
                    self.factor as int,
                    self.digits as int,
                    self.shift as int,
                    places as int,
                );
            }
        }
        if self.digits == 0 {
            Multiple { factor: self.factor, digits: 0, shift: 0 }
        } else {
            Multiple { factor: self.factor, digits: self.digits, shift: self.shift - places }
        }
    }
}

proof fn lemma_zero(shift: int)
    ensures
        scaled(0, shift) == 0,
    decreases shift,
{
    if shift > 0 {
        lemma_zero(shift - 1);
    }
}

/// Places that a number is lowered by can be given back to its multiple.
proof fn lemma_places(factor: int, digits: int, shift: int, places: int)
    requires
        0 <= places <= shift,
    ensures
        factor * scaled(digits, shift) == scaled(factor * scaled(digits, shift - places), places),
    decreases places,
{
    if places > 0 {
        lemma_places(factor, digits, shift - 1, places - 1);
        let half = scaled(digits, shift - 1);
        assert(factor * (2 * half) == 2 * (factor * half)) by (nonlinear_arith);
    }
}

proof fn lemma_sum(a: int, b: int, c: int, shift: int)
    ensures
        scaled(a, shift) + scaled(b, shift) + scaled(c, shift) == scaled(a + b + c, shift),
    decreases shift,
{
    if shift > 0 {
        lemma_sum(a, b, c, shift - 1);
    }
}

proof fn lemma_sign(digits: int, shift: int)
    ensures
        (scaled(digits, shift) >= 0) == (digits >= 0),
    decreases shift,
{
    if shift > 0 {
        lemma_sign(digits, shift - 1);
    }
}

pub proof fn lemma_positive(digits: int, shift: int)
    requires
        digits > 0,
    ensures
        scaled(digits, shift) > 0,
    decreases shift,
{
    if shift > 0 {
        lemma_positive(digits, shift - 1);
    }
}

/// The lowest place that one of the numbers uses.
fn lowest_place(a: Multiple, b: Multiple, c: Multiple) -> (r: u64)
    ensures
        a.digits > 0 ==> r <= a.shift,
        b.digits > 0 ==> r <= b.shift,
        c.digits > 0 ==> r <= c.shift,
{
    let mut r: u64 = u64::MAX;
    if a.digits > 0 {
        r = a.shift;
    }
    if b.digits > 0 && b.shift < r {
        r = b.shift;
    }
    if c.digits > 0 && c.shift < r {
        r = c.shift;
    }
    r
}

/// Whether a sum is not below zero: added up from the lowest place, only the carry counts in the
/// end.
pub fn not_negative(a: Multiple, b: Multiple, c: Multiple) -> (r: bool)
    requires
        a.small(),
        b.small(),
        c.small(),
    ensures
        r == (a.value() + b.value() + c.value() >= 0),
{
    let places: u64 = lowest_place(a, b, c);
    let mut x: Multiple = a.lowered(places);
    let mut y: Multiple = b.lowered(places);
    let mut z: Multiple = c.lowered(places);
    let mut carry: i64 = 0;
    let ghost total = a.value() + b.value() + c.value();
    proof {
        lemma_sum(x.value(), y.value(), z.value(), places as int);
        lemma_sign(x.value() + y.value() + z.value(), places as int);
    }
    while x.digits > 0 || y.digits > 0 || z.digits > 0
        invariant
            x.small(),
            y.small(),
            z.small(),
            -48 <= carry <= 48,
            (total >= 0) == (x.value() + y.value() + z.value() + carry >= 0),
        decreases x.digits + x.shift + y.digits + y.shift + z.digits + z.shift,
    {
        let (low_x, half_x) = x.split();
        let (low_y, half_y) = y.split();
        let (low_z, half_z) = z.split();
        let low: i64 = low_x + low_y + low_z + carry;
        let halved: i64 = (low + 96) / 2 - 48;
        carry = halved;
        x = half_x;
        y = half_y;
        z = half_z;
    }
    proof {
        lemma_zero(x.shift as int);
        lemma_zero(y.shift as int);
        lemma_zero(z.shift as int);
    }
    carry >= 0
}

proof fn lemma_more_digits(a: int, b: int, shift: int)
    requires
        a <= b,
    ensures
        scaled(a, shift) <= scaled(b, shift),
    decreases shift,
{
    if shift > 0 {
        lemma_more_digits(a, b, shift - 1);
    }
}

/// A number whose digits are moved up by more is greater, where they are less than twice as many.
proof fn lemma_more_places(a: int, shift_a: int, b: int, shift_b: int)
    requires
        0 <= shift_a < shift_b,
        a <= 2 * b,
        b >= 0,
    ensures
        scaled(a, shift_a) <= scaled(b, shift_b),
    decreases shift_b,
{
    if shift_a + 1 < shift_b {
        lemma_more_places(a, shift_a, b, shift_b - 1);
        lemma_sign(b, shift_b - 1);
    } else {
        lemma_more_digits(a, 2 * b, shift_a);
        lemma_double(b, shift_a);
    }
}

proof fn lemma_double(digits: int, shift: int)
    requires
        shift >= 0,
    ensures
        scaled(2 * digits, shift) == 2 * scaled(digits, shift),
    decreases shift,
{
    if shift > 0 {
        lemma_double(digits, shift - 1);
    }
}

/// The place of a finite number among all numbers goes with the number itself.
pub proof fn units_follow_the_order(a: Scalar, b: Scalar)
    requires
        a.order() <= b.order(),
    ensures
        a.units() <= b.units(),
{
    lemma_size(a);
    lemma_size(b);
    if a.magnitude() <= b.magnitude() {
        lemma_magnitudes(a, b);
    }
    if b.magnitude() <= a.magnitude() {
        lemma_magnitudes(b, a);
    }
}

/// One finite number is less than another exactly where it is so in value.
pub proof fn less_goes_by_value(a: Scalar, b: Scalar)
    requires
        a.finite(),
        b.finite(),
        a.units() < b.units(),
    ensures
        a.less(b),
        !b.less(a),
{
    if b.order() <= a.order() {
        units_follow_the_order(b, a);
    }
}

proof fn lemma_size(a: Scalar)
    ensures
        scaled(a.significand(), a.shift()) >= 0,
        a.magnitude() == 0 ==> scaled(a.significand(), a.shift()) == 0,
{
    lemma_sign(a.significand(), a.shift());
}

proof fn lemma_magnitudes(a: Scalar, b: Scalar)
    requires
        a.magnitude() <= b.magnitude(),
    ensures
        scaled(a.significand(), a.shift()) <= scaled(b.significand(), b.shift()),
{
    if a.shift() == b.shift() {
        lemma_more_digits(a.significand(), b.significand(), a.shift());
    } else {
        lemma_more_places(a.significand(), a.shift(), b.significand(), b.shift());
    }
}

} // verus!
