//! Pool accounting: a pooled amount that grows on its own is owned through
//! shares, and shares are issued and valued in proportion.

use crate::error::amount_outcome;
use crate::error::lift_overflow;
use crate::error::CheckedMultiplyRatioError;
use crate::error::ContractError;
use crate::error::ContractErrorView;
use crate::math::checked_product;
use crate::math::checked_ratio;
use crate::math::ratio_floor;
use crate::math::uint128_checked_mul;
use crate::math::uint128_checked_multiply_ratio;
use vstd::prelude::*;

verus! {

/// A ratio multiplication as the result of an operation.
pub open spec fn lift_ratio(r: Result<nat, CheckedMultiplyRatioError>) -> Result<
    nat,
    ContractErrorView,
> {
    match r {
        Ok(v) => Ok(v),
        Err(e) => Err(ContractErrorView::CheckedMultiply(e)),
    }
}

/// Shares to issue for `amount` added to a pool of `total_underlying` that is
/// owned through `total_shares`. An empty pool is seeded with
/// `shares_per_unit` shares for each unit; otherwise the newcomer gets the
/// existing shares in proportion, rounded down.
pub open spec fn shares_for_amount(
    total_shares: nat,
    total_underlying: nat,
    amount: nat,
    shares_per_unit: nat,
) -> Result<nat, ContractErrorView> {
    if total_underlying == 0 {
        lift_overflow(checked_product(amount, shares_per_unit))
    } else {
        lift_ratio(checked_ratio(total_shares, amount, total_underlying))
    }
}

/// The part of a pool of `total_underlying` that `shares` out of
/// `total_shares` stand for, rounded down.
pub open spec fn amount_for_shares(total_underlying: nat, shares: nat, total_shares: nat) -> Result<
    nat,
    ContractErrorView,
> {
    lift_ratio(checked_ratio(total_underlying, shares, total_shares))
}

/// Computes the shares to issue for `amount` added to the pool.
pub fn shares_to_issue(
    total_shares: u128,
    total_underlying: u128,
    amount: u128,
    shares_per_unit: u128,
) -> (r: Result<u128, ContractError>)
    ensures
        amount_outcome(r) == shares_for_amount(
            total_shares as nat,
            total_underlying as nat,
            amount as nat,
            shares_per_unit as nat,
        ),
        total_underlying == 0 && r is Ok ==> r->Ok_0 == amount * shares_per_unit,
        total_underlying > 0 && r is Ok ==> r->Ok_0 == (total_shares * amount) / (
        total_underlying as int),
{
    if total_underlying == 0 {
        match uint128_checked_mul(amount, shares_per_unit) {
            Ok(shares) => Ok(shares),
            Err(e) => Err(ContractError::Overflow(e)),
        }
    } else {
        match uint128_checked_multiply_ratio(total_shares, amount, total_underlying) {
            Ok(shares) => Ok(shares),
            Err(e) => Err(ContractError::CheckedMultiply(e)),
        }
    }
}

/// Computes the part of the pool that `shares` stand for.
pub fn shares_value(total_underlying: u128, shares: u128, total_shares: u128) -> (r: Result<
    u128,
    ContractError,
>)
    ensures
        amount_outcome(r) == amount_for_shares(
            total_underlying as nat,
            shares as nat,
            total_shares as nat,
        ),
        r is Ok ==> total_shares > 0 && r->Ok_0 == (total_underlying * shares) / (
        total_shares as int),
        0 < total_shares && shares <= total_shares ==> r is Ok && r->Ok_0 <= total_underlying,
{
    proof {
        if 0 < total_shares && shares <= total_shares {
            lemma_part_within_whole(total_underlying as nat, shares as nat, total_shares as nat);
        }
    }
    match uint128_checked_multiply_ratio(total_underlying, shares, total_shares) {
        Ok(amount) => Ok(amount),
        Err(e) => Err(ContractError::CheckedMultiply(e)),
    }
}

/// A part of the shares stands for no more than the whole pool.
pub proof fn lemma_part_within_whole(total_underlying: nat, shares: nat, total_shares: nat)
    requires
        0 < total_shares,
        shares <= total_shares,
    ensures
        ratio_floor(total_underlying, shares, total_shares) <= total_underlying,
{
    let d = total_shares as int;
    assert(total_underlying * shares <= total_underlying * total_shares) by (nonlinear_arith)
        requires
            shares <= total_shares,
    ;
    vstd::arithmetic::div_mod::lemma_div_is_ordered(
        (total_underlying * shares) as int,
        (total_underlying * total_shares) as int,
        d,
    );
    vstd::arithmetic::div_mod::lemma_div_multiples_vanish(total_underlying as int, d);
    assert(total_underlying * total_shares == d * total_underlying) by (nonlinear_arith)
        requires
            d == total_shares,
    ;
}

/// Rounding never makes value: what two holdings are worth separately is at
/// most what they are worth together.
pub proof fn lemma_floor_superadditive(total_underlying: nat, a: nat, b: nat, total_shares: nat)
    requires
        total_shares > 0,
    ensures
        ratio_floor(total_underlying, a, total_shares) + ratio_floor(
            total_underlying,
            b,
            total_shares,
        ) <= ratio_floor(total_underlying, a + b, total_shares),
{
    let x: int = (total_underlying * a) as int;
    let y: int = (total_underlying * b) as int;
    let d: int = total_shares as int;
    assert(total_underlying * (a + b) == x + y) by (nonlinear_arith)
        requires
            x == total_underlying * a,
            y == total_underlying * b,
    ;
    vstd::arithmetic::div_mod::lemma_fundamental_div_mod(x, d);
    vstd::arithmetic::div_mod::lemma_fundamental_div_mod(y, d);
    vstd::arithmetic::div_mod::lemma_mod_bound(x, d);
    vstd::arithmetic::div_mod::lemma_mod_bound(y, d);
    let q: int = x / d + y / d;
    let r: int = x % d + y % d;
    assert(x + y == d * q + r) by (nonlinear_arith)
        requires
            x == d * (x / d) + x % d,
            y == d * (y / d) + y % d,
            q == x / d + y / d,
            r == x % d + y % d,
    ;
    assert(q <= (x + y) / d) by {
        vstd::arithmetic::div_mod::lemma_div_is_ordered(d * q, x + y, d);
        vstd::arithmetic::div_mod::lemma_div_multiples_vanish(q, d);
    }
}

} // verus!
