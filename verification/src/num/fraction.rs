//! Exact fractions.

use vstd::prelude::*;

use crate::num::order::SortKey;
use crate::num::wide::Wide;

verus! {

/// The number `num / den`.
#[derive(Clone, Copy, Debug, PartialEq, Eq, Structural)]
pub struct Fraction {
    pub num: u128,
    pub den: u128,
}

impl Fraction {
    pub open spec fn less(self, other: Fraction) -> bool {
        self.num * other.den < other.num * self.den
    }

    pub fn is_less(self, other: Fraction) -> (r: bool)
        ensures
            r == self.less(other),
    {
        Wide::product(self.num, other.den).below(Wide::product(other.num, self.den))
    }
}

/// `a < b <= c` gives `a < c`, and `a <= b <= c` gives `a <= c`.
pub proof fn lemma_less_steps(a: Fraction, b: Fraction, c: Fraction)
    requires
        a.den > 0,
        b.den > 0,
        c.den > 0,
    ensures
        a.less(b) && !c.less(b) ==> a.less(c),
        !b.less(a) && !c.less(b) ==> !c.less(a),
{
    let (an, ad) = (a.num as int, a.den as int);
    let (bn, bd) = (b.num as int, b.den as int);
    let (cn, cd) = (c.num as int, c.den as int);
    if !c.less(b) {
        assert(bn * cd * ad <= cn * bd * ad) by (nonlinear_arith)
            requires
                bn * cd <= cn * bd,
                ad > 0,
        ;
        assert(bn * cd * ad == bn * ad * cd && cn * bd * ad == (cn * ad) * bd && an * bd * cd == (an
            * cd) * bd) by (nonlinear_arith);
        if a.less(b) {
            assert(an * bd * cd < bn * ad * cd) by (nonlinear_arith)
                requires
                    an * bd < bn * ad,
                    cd > 0,
            ;
            assert(an * cd < cn * ad) by (nonlinear_arith)
                requires
                    (an * cd) * bd < (cn * ad) * bd,
                    bd > 0,
            ;
        }
        if !b.less(a) {
            assert(an * bd * cd <= bn * ad * cd) by (nonlinear_arith)
                requires
                    an * bd <= bn * ad,
                    cd > 0,
            ;
            assert(an * cd <= cn * ad) by (nonlinear_arith)
                requires
                    (an * cd) * bd <= (cn * ad) * bd,
                    bd > 0,
            ;
        }
    }
}

impl SortKey for Fraction {
    /// Whether the fraction is a number.
    open spec fn valid(self) -> bool {
        self.den > 0
    }

    open spec fn below(self, other: Fraction) -> bool {
        self.less(other)
    }

    proof fn below_is_asymmetric(a: Fraction, b: Fraction) {
    }

    proof fn below_is_transitive(a: Fraction, b: Fraction, c: Fraction) {
        lemma_less_steps(a, b, c);
    }

    fn is_below(&self, other: &Fraction) -> (r: bool) {
        self.is_less(*other)
    }
}

/// The speed in megabits per second of `bytes` in `seconds`; zero where no time has passed.
pub open spec fn mbps(bytes: u64, seconds: u64) -> Fraction {
    if seconds == 0 {
        Fraction { num: 0, den: 1 }
    } else {
        Fraction { num: (bytes * 8) as u128, den: (seconds * 1_000_000) as u128 }
    }
}

pub fn mbps_from_bytes(bytes: u64, seconds: u64) -> (r: Fraction)
    ensures
        r == mbps(bytes, seconds),
        r.den > 0,
{
    if seconds == 0 {
        return Fraction { num: 0, den: 1 };
    }
    Fraction { num: bytes as u128 * 8, den: seconds as u128 * 1_000_000 }
}

/// A speed in megabits per second times the time is the number of bits.
pub proof fn megabits_count_the_bits(bytes: u64, seconds: u64)
    ensures
        mbps(bytes, seconds).den > 0,
        seconds > 0 ==> mbps(bytes, seconds).num * (1_000_000 * seconds) == (8 * bytes) * mbps(
            bytes,
            seconds,
        ).den,
        seconds == 0 ==> mbps(bytes, seconds).num == 0,
{
    if seconds > 0 {
        let m = mbps(bytes, seconds);
        assert(m.num == 8 * bytes && m.den == 1_000_000 * seconds);
        assert(m.num * (1_000_000 * seconds) == (8 * bytes) * m.den) by (nonlinear_arith)
            requires
                m.num == 8 * bytes,
                m.den == 1_000_000 * seconds,
        ;
    }
}

} // verus!
