//! Measured values that the library carries and compares but does not calculate with.

use vstd::arithmetic::power2::{
    lemma2_to64, lemma2_to64_rest, lemma_pow2_pos, lemma_pow2_strictly_increases,
    lemma_pow2_unfold, pow2,
};
use vstd::prelude::*;

use crate::num::whole::{round_div, rounded_quotient};

verus! {

/// The bits of a double-precision number in IEEE 754 format.
#[derive(Clone, Copy, Debug, PartialEq, Eq, Structural)]
pub struct Scalar {
    pub bits: u64,
}

/// The weight of the sign bit.
pub const SIGN: u64 = 0x8000_0000_0000_0000;

/// The bits of infinity: every exponent bit and nothing else.
pub const INFINITY_BITS: u64 = 0x7ff0_0000_0000_0000;

/// 2^52, the weight of the lowest exponent bit.
pub const EXPONENT_UNIT: u64 = 0x0010_0000_0000_0000;

impl Scalar {
    /// The bits without the sign.
    pub open spec fn magnitude(self) -> int {
        (self.bits % SIGN) as int
    }

    pub open spec fn negative(self) -> bool {
        self.bits >= SIGN
    }

    pub open spec fn not_a_number(self) -> bool {
        self.magnitude() > INFINITY_BITS
    }

    pub open spec fn finite(self) -> bool {
        self.magnitude() < INFINITY_BITS
    }

    /// The place of the number among all numbers: formats are laid out so that the magnitude bits
    /// count upwards with the absolute value. Both zeros have the place zero.
    pub open spec fn order(self) -> int {
        if self.negative() {
            -self.magnitude()
        } else {
            self.magnitude()
        }
    }

    /// The place of the number among all numbers.
    pub fn order_key(self) -> (r: i64)
        ensures
            r == self.order(),
    {
        if self.bits >= SIGN {
            -((self.bits % SIGN) as i64)
        } else {
            (self.bits % SIGN) as i64
        }
    }

    /// A number with a place among all numbers.
    pub fn at_place(place: i64) -> (r: Scalar)
        requires
            place > i64::MIN,
        ensures
            r.order() == place,
    {
        if place < 0 {
            Scalar { bits: SIGN + (-place) as u64 }
        } else {
            Scalar { bits: place as u64 }
        }
    }

    /// Whether the number is less than another; never so where one of them is not a number.
    pub open spec fn less(self, other: Scalar) -> bool {
        !self.not_a_number() && !other.not_a_number() && self.order() < other.order()
    }

    /// Whether the number is finite and not below zero.
    pub open spec fn usable(self) -> bool {
        self.finite() && self.order() >= 0
    }

    pub fn is_finite(self) -> (r: bool)
        ensures
            r == self.finite(),
    {
        self.bits % SIGN < INFINITY_BITS
    }

    pub fn is_usable(self) -> (r: bool)
        ensures
            r == self.usable(),
    {
        self.bits % SIGN < INFINITY_BITS && (self.bits < SIGN || self.bits % SIGN == 0)
    }

    pub fn is_less(self, other: Scalar) -> (r: bool)
        ensures
            r == self.less(other),
    {
        let own: u64 = self.bits % SIGN;
        let others: u64 = other.bits % SIGN;
        if own > INFINITY_BITS || others > INFINITY_BITS {
            return false;
        }
        if self.bits >= SIGN {
            if other.bits >= SIGN {
                others < own
            } else {
                own > 0 || others > 0
            }
        } else {
            other.bits < SIGN && own < others
        }
    }

    /// The exponent field.
    pub open spec fn exponent(self) -> int {
        self.magnitude() / (EXPONENT_UNIT as int)
    }

    /// The digits of the number in binary: a finite number of positive sign is
    /// `significand() * 2^(exponent() - 1075)`, or `significand() * 2^-1074` where the exponent
    /// field is zero.
    pub open spec fn significand(self) -> int {
        if self.exponent() == 0 {
            self.magnitude()
        } else {
            self.magnitude() % (EXPONENT_UNIT as int) + EXPONENT_UNIT
        }
    }

    /// The nearest whole number, halves away from zero, held to what a `u64` can hold. Zero for
    /// negative numbers and for what is not a number.
    pub open spec fn nearest(self) -> int {
        if self.not_a_number() || self.negative() {
            0
        } else if self.exponent() >= 1075 {
            let whole = self.significand() * pow2((self.exponent() - 1075) as nat);
            if !self.finite() || whole > u64::MAX {
                u64::MAX as int
            } else {
                whole
            }
        } else if self.exponent() < 1022 {
            0
        } else {
            rounded_quotient(self.significand(), pow2((1075 - self.exponent()) as nat) as int)
        }
    }

    /// The nearest whole number, halves away from zero.
    pub fn round_to_u64(self) -> (r: u64)
        ensures
            r == self.nearest(),
    {
        let magnitude: u64 = self.bits % SIGN;
        if magnitude > INFINITY_BITS || self.bits >= SIGN {
            return 0;
        }
        let exponent: u64 = magnitude / EXPONENT_UNIT;
        if exponent < 1022 {
            return 0;
        }
        let significand: u64 = magnitude % EXPONENT_UNIT + EXPONENT_UNIT;
        if exponent >= 1075 {
            let shift: u64 = exponent - 1075;
            if magnitude == INFINITY_BITS {
                return u64::MAX;
            }
            if shift >= 12 {
                proof {
                    lemma_large_shift(significand as int, shift as nat);
                }
                return u64::MAX;
            }
            let scale: u128 = power_of_two(shift);
            proof {
                assert(scale <= 2048) by {
                    lemma_pow2_upto(shift as nat, 11);
                    lemma2_to64();
                }
                assert(0 <= significand * scale <= u64::MAX * 2048) by (nonlinear_arith)
                    requires
                        0 <= significand <= u64::MAX,
                        0 <= scale <= 2048,
                ;
            }
            let whole: u128 = significand as u128 * scale;
            if whole > u64::MAX as u128 {
                u64::MAX
            } else {
                whole as u64
            }
        } else {
            let divisor: u128 = power_of_two(1075 - exponent);
            proof {
                lemma_pow2_upto(1, (1075 - exponent) as nat);
                lemma2_to64();
            }
            let rounded: u128 = round_div(significand as u128, divisor);
            proof {
                assert(rounded <= significand) by (nonlinear_arith)
                    requires
                        rounded == (2 * significand + divisor) / (2 * divisor),
                        divisor >= 2,
                        significand >= 1,
                ;
            }
            rounded as u64
        }
    }
}

proof fn lemma_pow2_upto(low: nat, high: nat)
    requires
        low <= high,
    ensures
        pow2(low) <= pow2(high),
        pow2(low) > 0,
{
    lemma_pow2_pos(low);
    if low < high {
        lemma_pow2_strictly_increases(low, high);
    }
}

proof fn lemma_large_shift(significand: int, shift: nat)
    requires
        significand >= EXPONENT_UNIT,
        shift >= 12,
    ensures
        significand * pow2(shift) > u64::MAX,
{
    lemma_pow2_upto(12, shift);
    lemma2_to64();
    let scale = pow2(shift) as int;
    assert(significand * scale > u64::MAX) by (nonlinear_arith)
        requires
            significand >= EXPONENT_UNIT,
            scale >= 4096,
    ;
}

fn power_of_two(n: u64) -> (r: u128)
    requires
        n <= 64,
    ensures
        r == pow2(n as nat),
{
    let mut r: u128 = 1;
    let mut i: u64 = 0;
    proof {
        lemma2_to64();
    }
    while i < n
        invariant
            i <= n <= 64,
            r == pow2(i as nat),
        decreases n - i,
    {
        proof {
            lemma_pow2_unfold((i + 1) as nat);
            lemma_pow2_upto(i as nat, 64);
            lemma2_to64();
            lemma2_to64_rest();
        }
        r = r * 2;
        i = i + 1;
    }
    r
}

} // verus!
