//! 256-bit products of 128-bit factors, for comparing fractions without rounding.

use vstd::prelude::*;

verus! {

/// 2^64, the base of the limbs that a product is built from.
pub const LIMB: u128 = 0x1_0000_0000_0000_0000;

/// The number `hi * 2^128 + lo`.
#[derive(Clone, Copy, Debug, PartialEq, Eq, Structural)]
pub struct Wide {
    pub hi: u128,
    pub lo: u128,
}

impl Wide {
    pub open spec fn value(self) -> int {
        self.hi * (LIMB * LIMB) + self.lo
    }

    /// The full product of two factors.
    pub fn product(a: u128, b: u128) -> (r: Wide)
        ensures
            r.value() == a * b,
    {
        let a1: u128 = a / LIMB;
        let a0: u128 = a % LIMB;
        let b1: u128 = b / LIMB;
        let b0: u128 = b % LIMB;
        assert(a == a1 * LIMB + a0 && b == b1 * LIMB + b0);
        proof {
            lemma_limb_product(a0 as int, b0 as int);
            lemma_limb_product(a1 as int, b0 as int);
            lemma_limb_product(a0 as int, b1 as int);
            lemma_limb_product(a1 as int, b1 as int);
        }
        let low: u128 = a0 * b0;
        let cross: u128 = a1 * b0;
        let mid1: u128 = cross + low / LIMB;
        let cross2: u128 = a0 * b1;
        let mid2: u128 = cross2 + mid1 % LIMB;
        let top: u128 = a1 * b1;
        proof {
            lemma_schoolbook(a1 as int, a0 as int, b1 as int, b0 as int);
            assert((a1 * LIMB + a0) * (b1 * LIMB + b0) == a * b);
        }
        let hi: u128 = top + mid1 / LIMB + mid2 / LIMB;
        let lo: u128 = (mid2 % LIMB) * LIMB + low % LIMB;
        Wide { hi, lo }
    }

    /// The sum of two numbers, where it fits 256 bits.
    pub fn plus(self, other: Wide) -> (r: Wide)
        requires
            self.value() + other.value() < LIMB * LIMB * (LIMB * LIMB),
        ensures
            r.value() == self.value() + other.value(),
    {
        let room: u128 = u128::MAX - other.lo;
        let carry: bool = self.lo > room;
        let lo: u128 = if carry {
            self.lo - room - 1
        } else {
            self.lo + other.lo
        };
        proof {
            let base: int = LIMB * LIMB;
            assert(base == 0x1_0000_0000_0000_0000_0000_0000_0000_0000int) by (nonlinear_arith)
                requires
                    base == LIMB * LIMB,
            ;
            let extra: int = if carry {
                1
            } else {
                0
            };
            assert((self.hi + other.hi + extra) * base + lo == self.value() + other.value())
                by (nonlinear_arith)
                requires
                    self.value() == self.hi * base + self.lo,
                    other.value() == other.hi * base + other.lo,
                    self.lo + other.lo == extra * base + lo,
            ;
            assert(self.hi + other.hi + extra < base) by (nonlinear_arith)
                requires
                    (self.hi + other.hi + extra) * base + lo < base * base,
                    lo >= 0,
                    base > 0,
            ;
        }
        let carry_word: u128 = if carry {
            1
        } else {
            0
        };
        Wide { hi: self.hi + other.hi + carry_word, lo }
    }

    /// Whether the number is less than another.
    pub fn below(self, other: Wide) -> (r: bool)
        ensures
            r == (self.value() < other.value()),
    {
        proof {
            let base: int = LIMB * LIMB;
            assert(base == 0x1_0000_0000_0000_0000_0000_0000_0000_0000int) by (nonlinear_arith)
                requires
                    base == LIMB * LIMB,
            ;
            lemma_high_word_decides(self, other);
            lemma_high_word_decides(other, self);
        }
        self.hi < other.hi || (self.hi == other.hi && self.lo < other.lo)
    }
}

proof fn lemma_high_word_decides(x: Wide, y: Wide)
    ensures
        x.hi < y.hi ==> x.value() < y.value(),
{
    if x.hi < y.hi {
        let base: int = LIMB * LIMB;
        assert(base == 0x1_0000_0000_0000_0000_0000_0000_0000_0000int) by (nonlinear_arith)
                requires
                    base == LIMB * LIMB,
            ;
        assert(x.hi * base + base <= y.hi * base) by (nonlinear_arith)
            requires
                x.hi + 1 <= y.hi,
                base > 0,
        ;
    }
}

proof fn lemma_limb_product(x: int, y: int)
    requires
        0 <= x < LIMB,
        0 <= y < LIMB,
    ensures
        0 <= x * y <= (LIMB - 1) * (LIMB - 1),
{
    assert(0 <= x * y <= (LIMB - 1) * (LIMB - 1)) by (nonlinear_arith)
        requires
            0 <= x <= LIMB - 1,
            0 <= y <= LIMB - 1,
    ;
}

/// Long multiplication in base `LIMB`, with the carries as the code computes them.
proof fn lemma_schoolbook(a1: int, a0: int, b1: int, b0: int)
    requires
        0 <= a1 < LIMB,
        0 <= a0 < LIMB,
        0 <= b1 < LIMB,
        0 <= b0 < LIMB,
    ensures
        ({
            let low = a0 * b0;
            let mid1 = a1 * b0 + low / (LIMB as int);
            let mid2 = a0 * b1 + mid1 % (LIMB as int);
            let hi = a1 * b1 + mid1 / (LIMB as int) + mid2 / (LIMB as int);
            let lo = (mid2 % (LIMB as int)) * LIMB + low % (LIMB as int);
            &&& mid1 < LIMB * LIMB
            &&& mid2 < LIMB * LIMB
            &&& 0 <= hi < LIMB * LIMB
            &&& 0 <= lo < LIMB * LIMB
            &&& hi * (LIMB * LIMB) + lo == (a1 * LIMB + a0) * (b1 * LIMB + b0)
        }),
{
    let base: int = LIMB as int;
    let low = a0 * b0;
    let mid1 = a1 * b0 + low / base;
    let mid2 = a0 * b1 + mid1 % base;
    let hi = a1 * b1 + mid1 / base + mid2 / base;
    let lo = (mid2 % base) * base + low % base;
    lemma_limb_product(a0, b0);
    lemma_limb_product(a1, b0);
    lemma_limb_product(a0, b1);
    lemma_limb_product(a1, b1);
    assert(low == (low / base) * base + low % base);
    assert(mid1 == (mid1 / base) * base + mid1 % base);
    assert(mid2 == (mid2 / base) * base + mid2 % base);
    let a_top = a1 * base;
    let b_top = b1 * base;
    assert((a_top + a0) * (b_top + b0) == a_top * b_top + a_top * b0 + a0 * b_top + a0 * b0)
        by (nonlinear_arith);
    assert(a_top * b_top == (a1 * b1) * (base * base)) by (nonlinear_arith)
        requires
            a_top == a1 * base,
            b_top == b1 * base,
    ;
    assert(a_top * b0 == (a1 * b0) * base) by (nonlinear_arith)
        requires
            a_top == a1 * base,
    ;
    assert(a0 * b_top == (a0 * b1) * base) by (nonlinear_arith)
        requires
            b_top == b1 * base,
    ;
    assert(hi * (base * base) + lo == (a1 * b1) * (base * base) + (a1 * b0) * base + (a0 * b1)
        * base + low) by (nonlinear_arith)
        requires
            low == (low / base) * base + low % base,
            mid1 == (mid1 / base) * base + mid1 % base,
            mid2 == (mid2 / base) * base + mid2 % base,
            mid1 == a1 * b0 + low / base,
            mid2 == a0 * b1 + mid1 % base,
            hi == a1 * b1 + mid1 / base + mid2 / base,
            lo == (mid2 % base) * base + low % base,
    ;
    assert(low / base <= base - 2);
    assert(mid1 / base <= base - 1 && mid2 / base <= base - 1);
    assert(lo < base * base);
    assert(hi < base * base) by (nonlinear_arith)
        requires
            hi * (base * base) + lo == (a1 * base + a0) * (b1 * base + b0),
            0 <= a1 < base,
            0 <= a0 < base,
            0 <= b1 < base,
            0 <= b0 < base,
            lo >= 0,
            base > 0,
    {
        assert(a1 * base + a0 < base * base) by (nonlinear_arith)
            requires
                0 <= a1 < base,
                0 <= a0 < base,
                base > 0,
        ;
        assert(b1 * base + b0 < base * base) by (nonlinear_arith)
            requires
                0 <= b1 < base,
                0 <= b0 < base,
                base > 0,
        ;
        assert((a1 * base + a0) * (b1 * base + b0) < (base * base) * (base * base))
            by (nonlinear_arith)
            requires
                0 <= a1 * base + a0 < base * base,
                0 <= b1 * base + b0 < base * base,
        ;
    }
}

} // verus!
