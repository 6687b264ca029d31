//! Double-precision numbers by their bit patterns.
//!
//! A number is held as the 64 bits of its IEEE 754 `binary64` encoding, so
//! that it can be carried, classified, compared with a whole number and cut
//! down to one without any floating-point operation.

use vstd::arithmetic::power2::{lemma2_to64, lemma2_to64_rest, lemma_pow2_pos, lemma_pow2_strictly_increases, pow2};
use vstd::prelude::*;

verus! {

/// 2 to the 52nd: the weight of the implicit leading bit.
pub const IMPLICIT: u64 = 4503599627370496;

/// A number in IEEE 754 double precision, by its bits.
#[derive(Clone, Copy, Debug, PartialEq, Eq)]
pub struct Binary64 {
    /// Sign, eleven exponent bits and 52 fraction bits, most significant first.
    pub bits: u64,
}

impl Binary64 {
    /// Whether the sign bit is set.
    pub open spec fn is_negative(self) -> bool {
        self.bits >= 0x8000_0000_0000_0000
    }

    /// The exponent field.
    pub open spec fn field(self) -> nat {
        (self.bits as nat / IMPLICIT as nat) % 2048
    }

    /// The fraction field.
    pub open spec fn fraction(self) -> nat {
        self.bits as nat % IMPLICIT as nat
    }

    /// Neither infinite nor not-a-number.
    pub open spec fn finite(self) -> bool {
        self.field() != 2047
    }

    /// The whole number that, times two to the `exponent`, is the magnitude.
    pub open spec fn significand(self) -> nat {
        if self.field() == 0 {
            self.fraction()
        } else {
            self.fraction() + IMPLICIT as nat
        }
    }

    /// The power of two that the significand is scaled by.
    pub open spec fn exponent(self) -> int {
        if self.field() == 0 {
            -1074
        } else {
            self.field() - 1075
        }
    }

    /// The magnitude of a finite number, rounded down to a whole number.
    pub open spec fn whole_magnitude(self) -> nat {
        if self.exponent() >= 0 {
            self.significand() * pow2(self.exponent() as nat)
        } else {
            self.significand() / pow2((-self.exponent()) as nat)
        }
    }

    /// The number without its fractional part, brought into the range of
    /// `i64`; not-a-number counts as zero.
    pub open spec fn whole(self) -> int {
        if !self.finite() && self.fraction() != 0 {
            0
        } else if self.is_negative() {
            if !self.finite() || self.whole_magnitude() > 0x8000_0000_0000_0000 {
                i64::MIN as int
            } else {
                -self.whole_magnitude()
            }
        } else {
            if !self.finite() || self.whole_magnitude() > i64::MAX {
                i64::MAX as int
            } else {
                self.whole_magnitude() as int
            }
        }
    }

    /// Greater than zero.
    pub open spec fn positive(self) -> bool {
        !self.is_negative() && (if self.finite() {
            self.significand() > 0
        } else {
            self.fraction() == 0
        })
    }

    /// For a finite number without sign: greater than a whole number.
    pub open spec fn magnitude_exceeds(self, bound: nat) -> bool {
        if self.exponent() >= 0 {
            self.significand() * pow2(self.exponent() as nat) > bound
        } else {
            self.significand() > bound * pow2((-self.exponent()) as nat)
        }
    }

    /// Whether the number is neither infinite nor not-a-number.
    pub fn is_finite(&self) -> (r: bool)
        ensures
            r == self.finite(),
    {
        (self.bits / IMPLICIT) % 2048 != 2047
    }

    /// Whether the number is greater than zero.
    pub fn is_positive(&self) -> (r: bool)
        ensures
            r == self.positive(),
    {
        let field: u64 = (self.bits / IMPLICIT) % 2048;
        let fraction: u64 = self.bits % IMPLICIT;
        self.bits < 0x8000_0000_0000_0000 && (if field == 2047 {
            fraction == 0
        } else {
            field != 0 || fraction != 0
        })
    }

    /// Whether the magnitude of a finite number is greater than a whole
    /// number.
    pub fn exceeds(&self, bound: u64) -> (r: bool)
        ensures
            r == self.magnitude_exceeds(bound as nat),
    {
        let field: u64 = (self.bits / IMPLICIT) % 2048;
        let fraction: u64 = self.bits % IMPLICIT;
        let significand: u64 = if field == 0 { fraction } else { fraction + IMPLICIT };
        let exponent: i64 = if field == 0 { -1074 } else { field as i64 - 1075 };
        proof {
            lemma2_to64();
            lemma2_to64_rest();
        }
        if exponent > 63 {
            proof {
                lemma_pow2_strictly_increases(63, exponent as nat);
                let p = pow2(exponent as nat) as int;
                assert(significand * p > u64::MAX) by (nonlinear_arith)
                    requires
                        significand >= 4503599627370496,
                        p > 0x8000_0000_0000_0000,
                ;
            }
            true
        } else if exponent >= 0 {
            let scale: u64 = two_to(exponent as u32);
            proof {
                lemma_product(significand, scale);
            }
            (significand as u128) * (scale as u128) > bound as u128
        } else if exponent < -63 {
            proof {
                lemma_pow2_strictly_increases(63, (-exponent) as nat);
                let p = pow2((-exponent) as nat) as int;
                if bound > 0 {
                    assert(bound * p > significand) by (nonlinear_arith)
                        requires
                            significand < 9007199254740992,
                            bound > 0,
                            p > 0x8000_0000_0000_0000,
                    ;
                }
            }
            bound == 0 && significand > 0
        } else {
            let scale: u64 = two_to((-exponent) as u32);
            proof {
                lemma_product(bound, scale);
            }
            (significand as u128) > (bound as u128) * (scale as u128)
        }
    }

    /// The number without its fractional part, brought into the range of
    /// `i64`.
    pub fn to_whole(&self) -> (r: i64)
        ensures
            r == self.whole(),
    {
        let field: u64 = (self.bits / IMPLICIT) % 2048;
        let fraction: u64 = self.bits % IMPLICIT;
        let negative: bool = self.bits >= 0x8000_0000_0000_0000;
        if field == 2047 {
            if fraction != 0 {
                return 0;
            }
            return if negative { i64::MIN } else { i64::MAX };
        }
        let significand: u64 = if field == 0 { fraction } else { fraction + IMPLICIT };
        let exponent: i64 = if field == 0 { -1074 } else { field as i64 - 1075 };
        proof {
            lemma2_to64();
            lemma2_to64_rest();
        }
        let magnitude: u128 = if exponent > 63 {
            proof {
                lemma_pow2_strictly_increases(63, exponent as nat);
                let p = pow2(exponent as nat) as int;
                assert(significand * p > 0xffff_ffff_ffff_ffff) by (nonlinear_arith)
                    requires
                        significand >= 4503599627370496,
                        p > 0x8000_0000_0000_0000,
                ;
            }
            0xffff_ffff_ffff_ffff
        } else if exponent >= 0 {
            let scale: u64 = two_to(exponent as u32);
            proof {
                lemma_product(significand, scale);
            }
            (significand as u128) * (scale as u128)
        } else if exponent < -63 {
            proof {
                lemma_pow2_strictly_increases(63, (-exponent) as nat);
                let p = pow2((-exponent) as nat) as int;
                assert(significand as int / p == 0) by (nonlinear_arith)
                    requires
                        0 <= significand < 9007199254740992,
                        p > 0x8000_0000_0000_0000,
                ;
            }
            0
        } else {
            (significand / two_to((-exponent) as u32)) as u128
        };
        if negative {
            if magnitude >= 0x8000_0000_0000_0000 {
                i64::MIN
            } else {
                -(magnitude as i64)
            }
        } else if magnitude > 0x7fff_ffff_ffff_ffff {
            i64::MAX
        } else {
            magnitude as i64
        }
    }
}

proof fn lemma_product(a: u64, b: u64)
    ensures
        0 <= a * b <= u128::MAX,
{
    assert(0 <= a * b <= 0xffff_ffff_ffff_ffff * 0xffff_ffff_ffff_ffff) by (nonlinear_arith)
        requires
            0 <= a <= 0xffff_ffff_ffff_ffff,
            0 <= b <= 0xffff_ffff_ffff_ffff,
    ;
}

/// A power of two that fits 64 bits.
fn two_to(k: u32) -> (r: u64)
    requires
        k < 64,
    ensures
        r == pow2(k as nat),
        r > 0,
{
    let mut r: u64 = 1;
    let mut i: u32 = 0;
    proof {
        lemma2_to64();
            lemma2_to64_rest();
    }
    while i < k
        invariant
            i <= k < 64,
            r == pow2(i as nat),
        decreases k - i,
    {
        proof {
            lemma2_to64();
            lemma2_to64_rest();
            vstd::arithmetic::power2::lemma_pow2_unfold((i + 1) as nat);
            if i + 1 < 63 {
                lemma_pow2_strictly_increases((i + 1) as nat, 63);
            }
        }
        r = r * 2;
        i += 1;
    }
    proof {
        lemma_pow2_pos(k as nat);
    }
    r
}

/// The sign has no part in the magnitude: a number and its negative are both
/// finite or not, and have opposite whole parts as far as those fit 64 bits.
pub proof fn law_signs_are_opposite(bits: u64)
    requires
        bits < 0x8000_0000_0000_0000,
    ensures
        ({
            let x = Binary64 { bits };
            let y = Binary64 { bits: (bits + 0x8000_0000_0000_0000) as u64 };
            &&& x.finite() == y.finite()
            &&& !y.positive()
            &&& x.whole_magnitude() == y.whole_magnitude()
            &&& x.finite() && x.whole() < i64::MAX ==> y.whole() == -x.whole()
            &&& x.whole() >= 0
        }),
{
    let x = Binary64 { bits };
    let y = Binary64 { bits: (bits + 0x8000_0000_0000_0000) as u64 };
    assert(y.bits as nat == bits as nat + 2048 * IMPLICIT as nat);
    assert(y.fraction() == x.fraction());
    assert(y.field() == x.field());
}

/// The whole part of a number without sign is the greatest whole number that
/// does not exceed it, as far as that fits 64 bits; so the number exceeds every
/// smaller whole number, and none that is greater than its whole part.
pub proof fn law_whole_part_is_the_floor(x: Binary64, bound: nat)
    requires
        x.finite(),
        !x.is_negative(),
    ensures
        x.whole_magnitude() <= i64::MAX ==> x.whole() == x.whole_magnitude(),
        x.whole_magnitude() > i64::MAX ==> x.whole() == i64::MAX,
        bound < x.whole_magnitude() ==> x.magnitude_exceeds(bound),
        bound > x.whole_magnitude() ==> !x.magnitude_exceeds(bound),
        x.positive() <==> x.magnitude_exceeds(0),
{
    let s = x.significand() as int;
    if x.exponent() >= 0 {
        lemma_pow2_pos(x.exponent() as nat);
        let p = pow2(x.exponent() as nat) as int;
        assert(s > 0 <==> s * p > 0) by (nonlinear_arith)
            requires
                s >= 0,
                p > 0,
        ;
    } else {
        lemma_pow2_pos((-x.exponent()) as nat);
        let p = pow2((-x.exponent()) as nat) as int;
        let w = s / p;
        let b = bound as int;
        assert(w * p <= s < (w + 1) * p) by (nonlinear_arith)
            requires
                p > 0,
                w == s / p,
        ;
        if b < w {
            assert(b * p < w * p) by (nonlinear_arith)
                requires
                    b < w,
                    p > 0,
            ;
        }
        if b > w {
            assert(b * p >= (w + 1) * p) by (nonlinear_arith)
                requires
                    b > w,
                    p > 0,
            ;
        }
    }
}

/// Infinity and not-a-number: the one is the greatest number of its sign, the
/// other counts as zero and is not positive.
pub proof fn law_numbers_that_are_not_finite(x: Binary64)
    requires
        !x.finite(),
    ensures
        x.fraction() != 0 ==> x.whole() == 0 && !x.positive(),
        x.fraction() == 0 && !x.is_negative() ==> x.whole() == i64::MAX && x.positive(),
        x.fraction() == 0 && x.is_negative() ==> x.whole() == i64::MIN && !x.positive(),
{
}

} // verus!
