//! Fixed-point numbers with eighteen fractional digits, used for prices,
//! values and ratios.

use crate::error::outcome;
use crate::error::lift_overflow;
use crate::error::ContractError;
use crate::error::ContractErrorView;
use crate::math::decimal_checked_add;
use crate::math::decimal_checked_div;
use crate::math::decimal_checked_mul;
use crate::math::decimal_checked_product;
use crate::math::decimal_checked_quotient;
use crate::math::decimal_checked_sum;
use crate::math::decimal_display;
use crate::math::decimal_from_atomics;
use crate::math::decimal_to_string;
use crate::math::scaled_atomics;
use crate::math::DECIMAL_FRACTIONAL;
use vstd::prelude::*;

verus! {

/// A non-negative number held as a count of atomic units of `10^-18`.
#[derive(Clone, Copy, Debug, PartialEq, Eq, Structural)]
pub struct Decimal {
    pub atomics: u128,
}

impl View for Decimal {
    type V = nat;

    open spec fn view(&self) -> nat {
        self.atomics as nat
    }
}

/// A quotient of decimals as the result of an operation.
pub open spec fn lift_quotient(
    r: Result<nat, crate::error::CheckedFromRatioError>,
) -> Result<nat, ContractErrorView> {
    match r {
        Ok(v) => Ok(v),
        Err(e) => Err(ContractErrorView::CheckedFromRatio(e)),
    }
}

/// A scaled decimal as the result of an operation.
pub open spec fn lift_scaled(r: Option<nat>) -> Result<nat, ContractErrorView> {
    match r {
        Some(v) => Ok(v),
        None => Err(ContractErrorView::DecimalRangeExceeded),
    }
}

impl Decimal {
    /// The decimal of exactly `atomics` atomic units.
    pub fn raw(atomics: u128) -> (r: Decimal)
        ensures
            r@ == atomics,
    {
        Decimal { atomics }
    }

    /// Zero.
    pub fn zero() -> (r: Decimal)
        ensures
            r@ == 0,
    {
        Decimal { atomics: 0 }
    }

    /// One.
    pub fn one() -> (r: Decimal)
        ensures
            r@ == DECIMAL_FRACTIONAL,
    {
        Decimal { atomics: DECIMAL_FRACTIONAL }
    }

    /// `x` hundredths.
    pub fn percent(x: u64) -> (r: Decimal)
        ensures
            r@ == x * 10_000_000_000_000_000,
    {
        let wide: u128 = x as u128;
        Decimal { atomics: wide * 10_000_000_000_000_000u128 }
    }

    /// The decimal that `atomics` stands for when it is read with
    /// `decimal_places` fractional digits: `from_atomics(123, 2)` is 1.23.
    /// Digits beyond the eighteenth are cut off; a value too large to hold is
    /// refused.
    pub fn from_atomics(atomics: u128, decimal_places: u32) -> (r: Result<Decimal, ContractError>)
        ensures
            outcome(r) == lift_scaled(scaled_atomics(atomics as nat, decimal_places as nat)),
    {
        match decimal_from_atomics(atomics, decimal_places) {
            Some(v) => Ok(Decimal { atomics: v }),
            None => Err(ContractError::DecimalRangeExceeded),
        }
    }

    /// The count of atomic units.
    pub fn atomics(&self) -> (r: u128)
        ensures
            r == self@,
    {
        self.atomics
    }

    /// Whether this is zero.
    pub fn is_zero(&self) -> (r: bool)
        ensures
            r == (self@ == 0),
    {
        self.atomics == 0
    }

    /// The sum, or an overflow error where it cannot be held.
    pub fn checked_add(self, other: Decimal) -> (r: Result<Decimal, ContractError>)
        ensures
            outcome(r) == lift_overflow(decimal_checked_sum(self@, other@)),
    {
        match decimal_checked_add(self.atomics, other.atomics) {
            Ok(v) => Ok(Decimal { atomics: v }),
            Err(e) => Err(ContractError::Overflow(e)),
        }
    }

    /// The product floored to the eighteenth fractional digit, or an overflow
    /// error where it cannot be held.
    pub fn checked_mul(self, other: Decimal) -> (r: Result<Decimal, ContractError>)
        ensures
            outcome(r) == lift_overflow(decimal_checked_product(self@, other@)),
    {
        match decimal_checked_mul(self.atomics, other.atomics) {
            Ok(v) => Ok(Decimal { atomics: v }),
            Err(e) => Err(ContractError::Overflow(e)),
        }
    }

    /// The quotient floored to the eighteenth fractional digit; an error where
    /// the divisor is zero or the quotient cannot be held.
    pub fn checked_div(self, other: Decimal) -> (r: Result<Decimal, ContractError>)
        ensures
            outcome(r) == lift_quotient(decimal_checked_quotient(self@, other@)),
    {
        match decimal_checked_div(self.atomics, other.atomics) {
            Ok(v) => Ok(Decimal { atomics: v }),
            Err(e) => Err(ContractError::CheckedFromRatio(e)),
        }
    }

    /// The number written out, as in `0.7` or `12`.
    pub fn to_string(&self) -> (r: String)
        ensures
            r@ == decimal_display(self@),
    {
        decimal_to_string(self.atomics)
    }
}

} // verus!
