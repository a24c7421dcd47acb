//! Fixed-point fractions with eighteen decimal places, as protocol fees use them.

use vstd::prelude::*;
use crate::text::decimal;

verus! {

/// How many atomic units make up one whole.
pub const DECIMAL_FRACTIONAL: u128 = 1_000_000_000_000_000_000;

/// How many atomic units make up one percent.
pub const PERCENT: u128 = 10_000_000_000_000_000;

/// The number of decimal places of a fraction.
pub const DECIMAL_PLACES: usize = 18;

/// A non-negative fixed-point number: `atomics` counts units of 10^-18.
#[derive(Debug, Clone, Copy, PartialEq, Eq, Structural)]
pub struct Fraction {
    pub atomics: u128,
}

/// `s` without the zeros at its end.
pub open spec fn strip_trailing_zeros(s: Seq<char>) -> Seq<char>
    decreases s.len(),
{
    if s.len() > 0 && s.last() == '0' {
        strip_trailing_zeros(s.drop_last())
    } else {
        s
    }
}

/// `s` with zeros put in front until it is `width` characters long.
pub open spec fn zero_padded(s: Seq<char>, width: nat) -> Seq<char> {
    if s.len() >= width {
        s
    } else {
        Seq::new((width - s.len()) as nat, |i: int| '0') + s
    }
}

impl Fraction {
    /// `amount` times this fraction, rounded down.
    pub open spec fn mul_floor(self, amount: nat) -> nat {
        amount * (self.atomics as nat) / (DECIMAL_FRACTIONAL as nat)
    }

    /// The whole part.
    pub open spec fn whole(self) -> nat {
        (self.atomics / DECIMAL_FRACTIONAL) as nat
    }

    /// The part after the decimal point, in atomic units.
    pub open spec fn fractional(self) -> nat {
        (self.atomics % DECIMAL_FRACTIONAL) as nat
    }

    /// How the fraction is written: the whole part, and where the fractional part
    /// is not zero, a point and its eighteen digits without the zeros at the end.
    pub open spec fn text(self) -> Seq<char> {
        if self.fractional() == 0 {
            decimal(self.whole())
        } else {
            decimal(self.whole()) + seq!['.'] + strip_trailing_zeros(
                zero_padded(decimal(self.fractional()), DECIMAL_PLACES as nat),
            )
        }
    }

    /// The fraction 0.
    pub fn zero() -> (r: Fraction)
        ensures
            r.atomics == 0,
    {
        Fraction { atomics: 0 }
    }

    /// The fraction 1.
    pub fn one() -> (r: Fraction)
        ensures
            r.atomics == DECIMAL_FRACTIONAL,
    {
        Fraction { atomics: DECIMAL_FRACTIONAL }
    }

    /// `x` percent.
    pub fn percent(x: u64) -> (r: Fraction)
        ensures
            r.atomics == x * PERCENT,
    {
        assert(x * PERCENT <= u64::MAX * PERCENT) by (nonlinear_arith)
            requires
                x <= u64::MAX,
        ;
        Fraction { atomics: (x as u128) * PERCENT }
    }

    /// What is left of one whole once this fraction is taken off, if this
    /// fraction is at most one.
    pub fn complement(self) -> (r: Option<Fraction>)
        ensures
            r == if self.atomics <= DECIMAL_FRACTIONAL {
                Some(Fraction { atomics: (DECIMAL_FRACTIONAL - self.atomics) as u128 })
            } else {
                None
            },
    {
        match DECIMAL_FRACTIONAL.checked_sub(self.atomics) {
            Some(atomics) => Some(Fraction { atomics }),
            None => None,
        }
    }

    /// `amount` times this fraction, rounded down, if that fits in 128 bits.
    pub fn checked_mul_floor(self, amount: u128) -> (r: Option<u128>)
        ensures
            r == if self.mul_floor(amount as nat) <= u128::MAX {
                Some(self.mul_floor(amount as nat) as u128)
            } else {
                None
            },
    {
        uint128_checked_mul_floor(amount, self)
    }

    /// The fraction written out, as in `"0.02"`.
    pub fn to_text(self) -> (r: String)
        ensures
            r@ == self.text(),
    {
        decimal_to_string(self)
    }
}

/// A fraction of at most one never yields more than the amount it is taken of.
pub proof fn lemma_mul_floor_at_most(rate: Fraction, amount: nat)
    requires
        rate.atomics <= DECIMAL_FRACTIONAL,
    ensures
        rate.mul_floor(amount) <= amount,
{
    let b = rate.atomics as nat;
    let d = DECIMAL_FRACTIONAL as nat;
    assert(amount * b / d <= amount) by (nonlinear_arith)
        requires
            b <= d,
            d > 0,
    ;
}

/// Calls `cosmwasm_std::Uint128::checked_mul_floor` with the fraction as a
/// `cosmwasm_std::Decimal`. That method multiplies in 256 bits, divides by 10^18
/// rounding down, and fails exactly when the quotient does not fit in 128 bits.
#[verifier::external_body]
fn uint128_checked_mul_floor(amount: u128, rate: Fraction) -> (r: Option<u128>)
    ensures
        r == if rate.mul_floor(amount as nat) <= u128::MAX {
            Some(rate.mul_floor(amount as nat) as u128)
        } else {
            None
        },
{
    cosmwasm_std::Uint128::new(amount)
        .checked_mul_floor(cosmwasm_std::Decimal::raw(rate.atomics))
        .ok()
        .map(|v| v.u128())
}

/// Calls `to_string` on the fraction as a `cosmwasm_std::Decimal`. Its `Display`
/// writes the whole part and, where the fractional part is not zero, a point and
/// the fractional part padded to eighteen digits with its trailing zeros cut.
#[verifier::external_body]
fn decimal_to_string(rate: Fraction) -> (r: String)
    ensures
        r@ == rate.text(),
{
    cosmwasm_std::Decimal::raw(rate.atomics).to_string()
}

} // verus!
