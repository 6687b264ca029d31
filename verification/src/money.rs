//! Exact decimal amounts.

use crate::numeral::{digit_char, digits};
use vstd::arithmetic::power::{lemma_pow0, pow};
use vstd::prelude::*;

verus! {

/// An amount: `mantissa` divided by ten to the `scale`.
#[derive(Clone, Copy, Debug, PartialEq, Eq)]
pub struct Money {
    pub mantissa: i128,
    pub scale: u32,
}

/// The last `width` decimal digits of a number.
pub open spec fn padded(n: nat, width: nat) -> Seq<char>
    decreases width,
{
    if width == 0 {
        Seq::empty()
    } else {
        padded(n / 10, (width - 1) as nat).push(digit_char(n % 10))
    }
}

/// An amount in decimal notation, with all its decimal places.
pub open spec fn money_text(mantissa: int, scale: nat) -> Seq<char> {
    let magnitude = if mantissa < 0 { (-mantissa) as nat } else { mantissa as nat };
    let unit = pow(10, scale) as nat;
    let sign = if mantissa < 0 { seq!['-'] } else { Seq::empty() };
    let fraction = if scale == 0 {
        Seq::empty()
    } else {
        seq!['.'] + padded(magnitude % unit, scale)
    };
    sign + digits(magnitude / unit) + fraction
}

impl Money {
    /// At most 96 bits and 28 decimal places.
    pub open spec fn wf(self) -> bool {
        &&& -0x1_0000_0000_0000_0000_0000_0000 < self.mantissa
            < 0x1_0000_0000_0000_0000_0000_0000
        &&& self.scale <= 28
    }

    /// Greater than zero.
    pub open spec fn positive(self) -> bool {
        self.mantissa > 0
    }

    /// Nothing.
    pub open spec fn nothing() -> Money {
        Money { mantissa: 0, scale: 0 }
    }

    /// The amount in decimal notation.
    pub open spec fn text(self) -> Seq<char> {
        money_text(self.mantissa as int, self.scale as nat)
    }

    /// The amount of nothing.
    pub fn zero() -> (r: Money)
        ensures
            r == Money::nothing(),
            r.wf(),
    {
        Money { mantissa: 0, scale: 0 }
    }

    /// Whether the amount is greater than zero.
    pub fn is_positive(&self) -> (r: bool)
        ensures
            r == self.positive(),
    {
        self.mantissa > 0
    }
}

/// Nothing is written as a bare zero, and is not positive.
pub proof fn law_nothing_is_written_as_zero()
    ensures
        Money::nothing().text() == "0"@,
        Money::nothing().mantissa == 0,
        !Money::nothing().positive(),
{
    reveal_strlit("0");
    lemma_pow0(10);
    assert(digits(0) =~= "0"@);
    assert(Money::nothing().text() =~= "0"@);
}

/// An amount is positive exactly if its mantissa is, whatever its scale.
pub proof fn law_which_amounts_are_positive(amount: Money, other_scale: u32)
    ensures
        amount.positive() <==> amount.mantissa > 0,
        amount.positive() == (Money { scale: other_scale, ..amount }).positive(),
{
}

} // verus!
