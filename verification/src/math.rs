//! Checked 128-bit and fixed-point arithmetic, done by `cosmwasm_std`, and the
//! mathematical statement of what each operation returns.

use crate::error::CheckedFromRatioError;
use crate::error::CheckedMultiplyRatioError;
use crate::error::OverflowError;
use crate::error::OverflowErrorView;
use crate::error::OverflowOperation;
use vstd::prelude::*;

verus! {

/// Atomic units in one whole: decimals carry eighteen fractional digits.
pub const DECIMAL_FRACTIONAL: u128 = 1_000_000_000_000_000_000u128;

/// `a * n / d`, rounded toward zero, over the unbounded integers.
pub open spec fn ratio_floor(a: nat, n: nat, d: nat) -> nat
    recommends
        d > 0,
{
    (a * n) / d
}

/// Ten to the power `n`.
pub open spec fn ten_to(n: nat) -> nat
    decreases n,
{
    if n == 0 {
        1
    } else {
        10 * ten_to((n - 1) as nat)
    }
}

/// The character that writes the digit `d`.
pub open spec fn digit_char(d: nat) -> char
    recommends
        d < 10,
{
    if d == 0 {
        '0'
    } else if d == 1 {
        '1'
    } else if d == 2 {
        '2'
    } else if d == 3 {
        '3'
    } else if d == 4 {
        '4'
    } else if d == 5 {
        '5'
    } else if d == 6 {
        '6'
    } else if d == 7 {
        '7'
    } else if d == 8 {
        '8'
    } else {
        '9'
    }
}

/// A natural number written in decimal without leading zeros.
pub open spec fn decimal_text(n: nat) -> Seq<char>
    decreases n,
{
    if n < 10 {
        seq![digit_char(n)]
    } else {
        decimal_text(n / 10).push(digit_char(n % 10))
    }
}

/// The last `width` decimal digits of `n`, leading zeros included.
pub open spec fn fixed_digits(n: nat, width: nat) -> Seq<char>
    decreases width,
{
    if width == 0 {
        Seq::empty()
    } else {
        fixed_digits(n / 10, (width - 1) as nat).push(digit_char(n % 10))
    }
}

/// `s` without the zeros at its end.
pub open spec fn trim_trailing_zeros(s: Seq<char>) -> Seq<char>
    decreases s.len(),
{
    if s.len() > 0 && s.last() == '0' {
        trim_trailing_zeros(s.drop_last())
    } else {
        s
    }
}

/// A decimal of `atomics` units written out: the whole part, and after a dot
/// the fractional digits up to the last one that is not zero. A decimal without
/// a fractional part is written as its whole part alone.
pub open spec fn decimal_display(atomics: nat) -> Seq<char> {
    let whole = atomics / (DECIMAL_FRACTIONAL as nat);
    let fractional = atomics % (DECIMAL_FRACTIONAL as nat);
    if fractional == 0 {
        decimal_text(whole)
    } else {
        decimal_text(whole) + seq!['.'] + trim_trailing_zeros(fixed_digits(fractional, 18))
    }
}

/// The view of a result whose error is an overflow.
pub open spec fn overflow_result_view(r: Result<u128, OverflowError>) -> Result<
    nat,
    OverflowErrorView,
> {
    match r {
        Ok(v) => Ok(v as nat),
        Err(e) => Err(e@),
    }
}

/// The view of a result whose value is an amount.
pub open spec fn amount_result_view<E>(r: Result<u128, E>) -> Result<nat, E> {
    match r {
        Ok(v) => Ok(v as nat),
        Err(e) => Err(e),
    }
}

/// Checked sum of two amounts.
pub open spec fn checked_sum(a: nat, b: nat) -> Result<nat, OverflowErrorView> {
    if a + b <= u128::MAX {
        Ok(a + b)
    } else {
        Err(
            OverflowErrorView {
                operation: OverflowOperation::Add,
                operand1: decimal_text(a),
                operand2: decimal_text(b),
            },
        )
    }
}

/// Checked difference of two amounts.
pub open spec fn checked_difference(a: nat, b: nat) -> Result<nat, OverflowErrorView> {
    if b <= a {
        Ok((a - b) as nat)
    } else {
        Err(
            OverflowErrorView {
                operation: OverflowOperation::Sub,
                operand1: decimal_text(a),
                operand2: decimal_text(b),
            },
        )
    }
}

/// Checked product of two amounts.
pub open spec fn checked_product(a: nat, b: nat) -> Result<nat, OverflowErrorView> {
    if a * b <= u128::MAX {
        Ok(a * b)
    } else {
        Err(
            OverflowErrorView {
                operation: OverflowOperation::Mul,
                operand1: decimal_text(a),
                operand2: decimal_text(b),
            },
        )
    }
}

/// Checked `a * n / d`, floored; the product is not bounded by 128 bits.
pub open spec fn checked_ratio(a: nat, n: nat, d: nat) -> Result<nat, CheckedMultiplyRatioError> {
    if d == 0 {
        Err(CheckedMultiplyRatioError::DivideByZero)
    } else if ratio_floor(a, n, d) > u128::MAX {
        Err(CheckedMultiplyRatioError::Overflow)
    } else {
        Ok(ratio_floor(a, n, d))
    }
}

/// Atomic units of the decimal that `atomics` stands for when it is read with
/// `places` fractional digits; none if that leaves the range.
pub open spec fn scaled_atomics(atomics: nat, places: nat) -> Option<nat> {
    if places <= 18 {
        let scaled = atomics * ten_to((18 - places) as nat);
        if scaled <= u128::MAX {
            Some(scaled)
        } else {
            None
        }
    } else {
        Some(atomics / ten_to((places - 18) as nat))
    }
}

/// The view of an amount that may be missing.
pub open spec fn amount_option_view(r: Option<u128>) -> Option<nat> {
    match r {
        Some(v) => Some(v as nat),
        None => None,
    }
}

/// Checked sum of two decimals, given in atomic units.
pub open spec fn decimal_checked_sum(a: nat, b: nat) -> Result<nat, OverflowErrorView> {
    if a + b <= u128::MAX {
        Ok(a + b)
    } else {
        Err(
            OverflowErrorView {
                operation: OverflowOperation::Add,
                operand1: decimal_display(a),
                operand2: decimal_display(b),
            },
        )
    }
}

/// Checked product of two decimals, given in atomic units, floored to the
/// eighteenth fractional digit.
pub open spec fn decimal_checked_product(a: nat, b: nat) -> Result<nat, OverflowErrorView> {
    if (a * b) / (DECIMAL_FRACTIONAL as nat) <= u128::MAX {
        Ok((a * b) / (DECIMAL_FRACTIONAL as nat))
    } else {
        Err(
            OverflowErrorView {
                operation: OverflowOperation::Mul,
                operand1: decimal_display(a),
                operand2: decimal_display(b),
            },
        )
    }
}

/// Checked quotient of two decimals, given in atomic units, floored to the
/// eighteenth fractional digit.
pub open spec fn decimal_checked_quotient(a: nat, b: nat) -> Result<nat, CheckedFromRatioError> {
    if b == 0 {
        Err(CheckedFromRatioError::DivideByZero)
    } else if ratio_floor(a, DECIMAL_FRACTIONAL as nat, b) > u128::MAX {
        Err(CheckedFromRatioError::Overflow)
    } else {
        Ok(ratio_floor(a, DECIMAL_FRACTIONAL as nat, b))
    }
}

/// Calls `cosmwasm_std::Uint128::checked_add`: the sum where it fits in 128
/// bits, else an overflow error that names the addition and both operands.
#[verifier::external_body]
pub(crate) fn uint128_checked_add(a: u128, b: u128) -> (r: Result<u128, OverflowError>)
    ensures
        overflow_result_view(r) == checked_sum(a as nat, b as nat),
{
    match cosmwasm_std::Uint128::new(a).checked_add(cosmwasm_std::Uint128::new(b)) {
        Ok(v) => Ok(v.u128()),
        Err(e) => Err(
            OverflowError {
                operation: OverflowOperation::Add,
                operand1: e.operand1,
                operand2: e.operand2,
            },
        ),
    }
}

/// Calls `cosmwasm_std::Uint128::checked_sub`: the difference where the second
/// operand does not exceed the first, else an overflow error that names the
/// subtraction and both operands.
#[verifier::external_body]
pub(crate) fn uint128_checked_sub(a: u128, b: u128) -> (r: Result<u128, OverflowError>)
    ensures
        overflow_result_view(r) == checked_difference(a as nat, b as nat),
{
    match cosmwasm_std::Uint128::new(a).checked_sub(cosmwasm_std::Uint128::new(b)) {
        Ok(v) => Ok(v.u128()),
        Err(e) => Err(
            OverflowError {
                operation: OverflowOperation::Sub,
                operand1: e.operand1,
                operand2: e.operand2,
            },
        ),
    }
}

/// Calls `cosmwasm_std::Uint128::checked_mul`: the product where it fits in 128
/// bits, else an overflow error that names the multiplication and both
/// operands.
#[verifier::external_body]
pub(crate) fn uint128_checked_mul(a: u128, b: u128) -> (r: Result<u128, OverflowError>)
    ensures
        overflow_result_view(r) == checked_product(a as nat, b as nat),
{
    match cosmwasm_std::Uint128::new(a).checked_mul(cosmwasm_std::Uint128::new(b)) {
        Ok(v) => Ok(v.u128()),
        Err(e) => Err(
            OverflowError {
                operation: OverflowOperation::Mul,
                operand1: e.operand1,
                operand2: e.operand2,
            },
        ),
    }
}

/// Calls `cosmwasm_std::Uint128::checked_multiply_ratio`. The product is taken
/// at 256 bits, so only a zero denominator or a quotient beyond 128 bits fails.
#[verifier::external_body]
pub(crate) fn uint128_checked_multiply_ratio(a: u128, n: u128, d: u128) -> (r: Result<
    u128,
    CheckedMultiplyRatioError,
>)
    ensures
        amount_result_view(r) == checked_ratio(a as nat, n as nat, d as nat),
{
    match cosmwasm_std::Uint128::new(a).checked_multiply_ratio(n, d) {
        Ok(v) => Ok(v.u128()),
        Err(cosmwasm_std::CheckedMultiplyRatioError::DivideByZero) => Err(
            CheckedMultiplyRatioError::DivideByZero,
        ),
        Err(cosmwasm_std::CheckedMultiplyRatioError::Overflow) => Err(
            CheckedMultiplyRatioError::Overflow,
        ),
    }
}

/// Calls `cosmwasm_std::Decimal::from_atomics` and hands back the atomic units
/// of the decimal it made: the input scaled to eighteen fractional digits, or
/// nothing where scaling up leaves the range.
#[verifier::external_body]
pub(crate) fn decimal_from_atomics(atomics: u128, places: u32) -> (r: Option<u128>)
    ensures
        amount_option_view(r) == scaled_atomics(atomics as nat, places as nat),
{
    match cosmwasm_std::Decimal::from_atomics(cosmwasm_std::Uint128::new(atomics), places) {
        Ok(d) => Some(d.atomics().u128()),
        Err(_) => None,
    }
}

/// Calls `cosmwasm_std::Decimal::checked_add` on the decimals of `a` and `b`
/// atomic units.
#[verifier::external_body]
pub(crate) fn decimal_checked_add(a: u128, b: u128) -> (r: Result<u128, OverflowError>)
    ensures
        overflow_result_view(r) == decimal_checked_sum(a as nat, b as nat),
{
    match cosmwasm_std::Decimal::raw(a).checked_add(cosmwasm_std::Decimal::raw(b)) {
        Ok(d) => Ok(d.atomics().u128()),
        Err(e) => Err(
            OverflowError {
                operation: OverflowOperation::Add,
                operand1: e.operand1,
                operand2: e.operand2,
            },
        ),
    }
}

/// Calls `cosmwasm_std::Decimal::checked_mul` on the decimals of `a` and `b`
/// atomic units. The product is taken at 256 bits and floored.
#[verifier::external_body]
pub(crate) fn decimal_checked_mul(a: u128, b: u128) -> (r: Result<u128, OverflowError>)
    ensures
        overflow_result_view(r) == decimal_checked_product(a as nat, b as nat),
{
    match cosmwasm_std::Decimal::raw(a).checked_mul(cosmwasm_std::Decimal::raw(b)) {
        Ok(d) => Ok(d.atomics().u128()),
        Err(e) => Err(
            OverflowError {
                operation: OverflowOperation::Mul,
                operand1: e.operand1,
                operand2: e.operand2,
            },
        ),
    }
}

/// Calls `cosmwasm_std::Decimal::checked_div` on the decimals of `a` and `b`
/// atomic units: `a * 10^18 / b`, floored.
#[verifier::external_body]
pub(crate) fn decimal_checked_div(a: u128, b: u128) -> (r: Result<u128, CheckedFromRatioError>)
    ensures
        amount_result_view(r) == decimal_checked_quotient(a as nat, b as nat),
{
    match cosmwasm_std::Decimal::raw(a).checked_div(cosmwasm_std::Decimal::raw(b)) {
        Ok(d) => Ok(d.atomics().u128()),
        Err(cosmwasm_std::CheckedFromRatioError::DivideByZero) => Err(
            CheckedFromRatioError::DivideByZero,
        ),
        Err(cosmwasm_std::CheckedFromRatioError::Overflow) => Err(CheckedFromRatioError::Overflow),
    }
}

/// Calls `to_string` on the `cosmwasm_std::Decimal` of `atomics` units.
#[verifier::external_body]
pub(crate) fn decimal_to_string(atomics: u128) -> (r: String)
    ensures
        r@ == decimal_display(atomics as nat),
{
    cosmwasm_std::Decimal::raw(atomics).to_string()
}

} // verus!
