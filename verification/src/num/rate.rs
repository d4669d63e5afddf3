//! Transfer speeds as exact fractions.

use vstd::prelude::*;

use crate::num::wide::Wide;

verus! {

/// An amount of data and the time that it took, in ticks of the clock that the caller measures
/// with. A time of zero stands for the speed zero.
#[derive(Clone, Copy, Debug, PartialEq, Eq, Structural)]
pub struct Rate {
    pub bytes: u128,
    pub ticks: u128,
}

impl Rate {
    /// The speed in bytes per tick is `numerator() / denominator()`.
    pub open spec fn numerator(self) -> int {
        if self.ticks == 0 {
            0
        } else {
            self.bytes as int
        }
    }

    pub open spec fn denominator(self) -> int {
        if self.ticks == 0 {
            1
        } else {
            self.ticks as int
        }
    }

    /// Whether this speed is greater than `other`.
    pub open spec fn above(self, other: Rate) -> bool {
        self.numerator() * other.denominator() > other.numerator() * self.denominator()
    }

    /// The speed zero.
    pub open spec fn none() -> Rate {
        Rate { bytes: 0, ticks: 0 }
    }

    pub fn zero() -> (r: Rate)
        ensures
            r == Rate::none(),
    {
        Rate { bytes: 0, ticks: 0 }
    }

    pub fn is_positive(self) -> (r: bool)
        ensures
            r == (self.numerator() > 0),
            r == self.above(Rate::none()),
    {
        proof {
            assert(self.numerator() * 1 == self.numerator());
            assert(0 * self.denominator() == 0);
        }
        self.ticks > 0 && self.bytes > 0
    }

    pub fn exceeds(self, other: Rate) -> (r: bool)
        ensures
            r == self.above(other),
    {
        let own_bytes: u128 = if self.ticks == 0 {
            0
        } else {
            self.bytes
        };
        let own_ticks: u128 = if self.ticks == 0 {
            1
        } else {
            self.ticks
        };
        let other_bytes: u128 = if other.ticks == 0 {
            0
        } else {
            other.bytes
        };
        let other_ticks: u128 = if other.ticks == 0 {
            1
        } else {
            other.ticks
        };
        Wide::product(other_bytes, own_ticks).below(Wide::product(own_bytes, other_ticks))
    }
}

/// No speed is above itself, and of two speeds at most one is above the other.
pub proof fn above_is_asymmetric(a: Rate, b: Rate)
    ensures
        !a.above(a),
        a.above(b) ==> !b.above(a),
{
}

/// A speed above a second one is above every third one that the second is not below.
pub proof fn above_is_transitive(a: Rate, b: Rate, c: Rate)
    requires
        a.above(b),
        !c.above(b),
    ensures
        a.above(c),
{
    let (an, ad) = (a.numerator(), a.denominator());
    let (bn, bd) = (b.numerator(), b.denominator());
    let (cn, cd) = (c.numerator(), c.denominator());
    assert(an * bd * cd > bn * ad * cd) by (nonlinear_arith)
        requires
            an * bd > bn * ad,
            cd > 0,
    ;
    assert(bn * cd * ad >= cn * bd * ad) by (nonlinear_arith)
        requires
            cn * bd <= bn * cd,
            ad > 0,
    ;
    assert(bn * ad * cd == bn * cd * ad && an * bd * cd == (an * cd) * bd && cn * bd * ad == (cn
        * ad) * bd) by (nonlinear_arith);
    assert(an * cd > cn * ad) by (nonlinear_arith)
        requires
            (an * cd) * bd > (cn * ad) * bd,
            bd > 0,
    ;
}

/// More data in the same time is faster, and so is some data in less time.
pub proof fn more_or_sooner_is_faster(bytes: u128, more: u128, ticks: u128, longer: u128)
    requires
        bytes < more,
        0 < ticks < longer,
    ensures
        (Rate { bytes: more, ticks }).above(Rate { bytes, ticks }),
        (Rate { bytes: more, ticks }).above(Rate { bytes: more, ticks: longer }),
        !(Rate { bytes, ticks }).above(Rate { bytes: more, ticks }),
        !(Rate { bytes: more, ticks: 0 }).above(Rate { bytes, ticks }),
{
    assert(more * ticks > bytes * ticks) by (nonlinear_arith)
        requires
            more > bytes,
            ticks > 0,
    ;
    assert(more * longer > more * ticks) by (nonlinear_arith)
        requires
            longer > ticks,
            more > 0,
    ;
    assert(0 * (ticks as int) <= bytes * 1);
}

} // verus!
