//! Integer arithmetic in specifications.

use vstd::prelude::*;

verus! {

/// `a - b`, but not less than zero.
pub open spec fn monus(a: int, b: int) -> int {
    if a >= b {
        a - b
    } else {
        0
    }
}

/// `value`, moved into `low..=high`.
pub open spec fn clamped(value: int, low: int, high: int) -> int {
    if value < low {
        low
    } else if value > high {
        high
    } else {
        value
    }
}

pub open spec fn least(a: int, b: int) -> int {
    if a <= b {
        a
    } else {
        b
    }
}

pub open spec fn greatest(a: int, b: int) -> int {
    if a >= b {
        a
    } else {
        b
    }
}

/// `a + b`, but not more than what a `u64` holds.
pub open spec fn capped_sum(a: int, b: int) -> int {
    least(a + b, u64::MAX as int)
}

/// The whole number nearest to `a / b`, halves upwards.
pub open spec fn rounded_quotient(a: int, b: int) -> int {
    (2 * a + b) / (2 * b)
}

/// Rounding by the remainder: up where it is at least half the divisor.
pub proof fn lemma_round_by_remainder(a: int, b: int)
    requires
        a >= 0,
        b > 0,
    ensures
        rounded_quotient(a, b) == a / b + (if a % b >= b - a % b {
            1int
        } else {
            0
        }),
{
    let q = a / b;
    let r = a % b;
    vstd::arithmetic::div_mod::lemma_fundamental_div_mod(a, b);
    assert(a == b * q + r);
    if r >= b - r {
        assert(2 * a + b == (2 * b) * (q + 1) + (2 * r - b)) by (nonlinear_arith)
            requires
                a == b * q + r,
        ;
        vstd::arithmetic::div_mod::lemma_fundamental_div_mod_converse(
            2 * a + b,
            2 * b,
            q + 1,
            2 * r - b,
        );
    } else {
        assert(2 * a + b == (2 * b) * q + (2 * r + b)) by (nonlinear_arith)
            requires
                a == b * q + r,
        ;
        vstd::arithmetic::div_mod::lemma_fundamental_div_mod_converse(
            2 * a + b,
            2 * b,
            q,
            2 * r + b,
        );
    }
}

/// The whole number nearest to `a / b`, halves upwards.
pub fn round_div(a: u128, b: u128) -> (r: u128)
    requires
        b > 0,
    ensures
        r == rounded_quotient(a as int, b as int),
{
    let q: u128 = a / b;
    let rest: u128 = a % b;
    proof {
        lemma_round_by_remainder(a as int, b as int);
        vstd::arithmetic::div_mod::lemma_fundamental_div_mod(a as int, b as int);
        assert(q <= a) by (nonlinear_arith)
            requires
                q == a / b,
                b > 0,
        ;
        if rest >= b - rest {
            assert(b >= 2);
            assert(q < a) by (nonlinear_arith)
                requires
                    a == b * q + rest,
                    rest >= 1,
                    b >= 1,
            ;
        }
    }
    if rest >= b - rest {
        q + 1
    } else {
        q
    }
}

/// What is rounded is off by no more than half, and halves go upwards.
pub proof fn rounding_goes_to_the_nearest(a: int, b: int)
    requires
        b > 0,
    ensures
        2 * (b * rounded_quotient(a, b) - a) <= b,
        2 * (a - b * rounded_quotient(a, b)) < b,
{
    let q = rounded_quotient(a, b);
    assert(2 * b * q <= 2 * a + b < 2 * b * q + 2 * b) by (nonlinear_arith)
        requires
            b > 0,
            q == (2 * a + b) / (2 * b),
    ;
    assert(2 * b * q == 2 * (b * q)) by (nonlinear_arith);
}

/// A clamped value lies within the bounds, and one that did already is left alone.
pub proof fn clamping_moves_only_what_is_outside(value: int, low: int, high: int)
    requires
        low <= high,
    ensures
        low <= clamped(value, low, high) <= high,
        low <= value <= high ==> clamped(value, low, high) == value,
        value <= low ==> clamped(value, low, high) == low,
        value >= high ==> clamped(value, low, high) == high,
{
}

/// Differences stop at zero, sums at the greatest number, and the greatest of two numbers is one of
/// them and not less than the other.
pub proof fn limits_hold(a: int, b: int)
    requires
        0 <= a,
        0 <= b,
    ensures
        a <= b ==> monus(a, b) == 0,
        a >= b ==> monus(a, b) + b == a,
        greatest(a, b) >= a && greatest(a, b) >= b,
        greatest(a, b) == a || greatest(a, b) == b,
        least(a, b) <= a && least(a, b) <= b,
        least(a, b) == a || least(a, b) == b,
        a + b <= u64::MAX ==> capped_sum(a, b) == a + b,
        a + b > u64::MAX ==> capped_sum(a, b) == u64::MAX,
{
}

} // verus!
