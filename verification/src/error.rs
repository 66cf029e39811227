//! Errors reported by the ledger and its engines.

use vstd::prelude::*;

verus! {

/// The arithmetic operation that left the representable range.
#[derive(Clone, Copy, Debug, PartialEq, Eq, Structural)]
pub enum OverflowOperation {
    Add,
    Sub,
    Mul,
    Pow,
    Shr,
    Shl,
}

/// A checked operation that left the representable range, with both operands
/// written out in decimal.
#[derive(Debug, PartialEq, Eq)]
pub struct OverflowError {
    pub operation: OverflowOperation,
    pub operand1: String,
    pub operand2: String,
}

pub struct OverflowErrorView {
    pub operation: OverflowOperation,
    pub operand1: Seq<char>,
    pub operand2: Seq<char>,
}

impl View for OverflowError {
    type V = OverflowErrorView;

    open spec fn view(&self) -> OverflowErrorView {
        OverflowErrorView {
            operation: self.operation,
            operand1: self.operand1@,
            operand2: self.operand2@,
        }
    }
}

impl Clone for OverflowError {
    fn clone(&self) -> (r: OverflowError)
        ensures
            r@ == self@,
    {
        OverflowError {
            operation: self.operation,
            operand1: self.operand1.clone(),
            operand2: self.operand2.clone(),
        }
    }
}

/// Why `a * n / d` has no 128-bit value.
#[derive(Clone, Copy, Debug, PartialEq, Eq, Structural)]
pub enum CheckedMultiplyRatioError {
    DivideByZero,
    Overflow,
}

/// Why a quotient of two decimals has no value.
#[derive(Clone, Copy, Debug, PartialEq, Eq, Structural)]
pub enum CheckedFromRatioError {
    DivideByZero,
    Overflow,
}

/// Everything that can abort an operation on a credit account.
#[derive(Debug, PartialEq, Eq)]
pub enum ContractError {
    /// A borrow or withdrawal of nothing.
    NoAmount,
    /// The denom, or the vault, is not on the allow-list.
    NotWhitelisted(String),
    /// The caller does not own the account.
    NotTokenOwner { user: String, token_id: String },
    /// A checked addition, subtraction or multiplication left the range.
    Overflow(OverflowError),
    /// A ratio multiplication had a zero denominator or left the range.
    CheckedMultiply(CheckedMultiplyRatioError),
    /// A quotient of decimals had a zero denominator or left the range.
    CheckedFromRatio(CheckedFromRatioError),
    /// A whole amount is too large to be written as a decimal.
    DecimalRangeExceeded,
    /// The batch would leave the account with a health factor below one.
    AboveMaxLTV { token_id: String, max_ltv_health_factor: String },
    /// The price oracle knows no price for the denom.
    PriceNotFound(String),
    /// The account holds nothing in the vault.
    VaultPositionNotFound { account_id: String, vault: String },
    /// The vault position has no unlocking entry with this id.
    NoPositionMatch(u64),
    /// The unlocking entry has not reached its release time.
    UnlockNotReady,
    /// The oracle was asked something it does not answer.
    UnimplementedQuery,
}

pub enum ContractErrorView {
    NoAmount,
    NotWhitelisted(Seq<char>),
    NotTokenOwner { user: Seq<char>, token_id: Seq<char> },
    Overflow(OverflowErrorView),
    CheckedMultiply(CheckedMultiplyRatioError),
    CheckedFromRatio(CheckedFromRatioError),
    DecimalRangeExceeded,
    AboveMaxLTV { token_id: Seq<char>, max_ltv_health_factor: Seq<char> },
    PriceNotFound(Seq<char>),
    VaultPositionNotFound { account_id: Seq<char>, vault: Seq<char> },
    NoPositionMatch(u64),
    UnlockNotReady,
    UnimplementedQuery,
}

impl View for ContractError {
    type V = ContractErrorView;

    open spec fn view(&self) -> ContractErrorView {
        match *self {
            ContractError::NoAmount => ContractErrorView::NoAmount,
            ContractError::NotWhitelisted(d) => ContractErrorView::NotWhitelisted(d@),
            ContractError::NotTokenOwner { user, token_id } => ContractErrorView::NotTokenOwner {
                user: user@,
                token_id: token_id@,
            },
            ContractError::Overflow(e) => ContractErrorView::Overflow(e@),
            ContractError::CheckedMultiply(e) => ContractErrorView::CheckedMultiply(e),
            ContractError::CheckedFromRatio(e) => ContractErrorView::CheckedFromRatio(e),
            ContractError::DecimalRangeExceeded => ContractErrorView::DecimalRangeExceeded,
            ContractError::AboveMaxLTV {
                token_id,
                max_ltv_health_factor,
            } => ContractErrorView::AboveMaxLTV {
                token_id: token_id@,
                max_ltv_health_factor: max_ltv_health_factor@,
            },
            ContractError::PriceNotFound(d) => ContractErrorView::PriceNotFound(d@),
            ContractError::VaultPositionNotFound {
                account_id,
                vault,
            } => ContractErrorView::VaultPositionNotFound {
                account_id: account_id@,
                vault: vault@,
            },
            ContractError::NoPositionMatch(id) => ContractErrorView::NoPositionMatch(id),
            ContractError::UnlockNotReady => ContractErrorView::UnlockNotReady,
            ContractError::UnimplementedQuery => ContractErrorView::UnimplementedQuery,
        }
    }
}

impl Clone for ContractError {
    fn clone(&self) -> (r: ContractError)
        ensures
            r@ == self@,
    {
        match self {
            ContractError::NoAmount => ContractError::NoAmount,
            ContractError::NotWhitelisted(d) => ContractError::NotWhitelisted(d.clone()),
            ContractError::NotTokenOwner { user, token_id } => ContractError::NotTokenOwner {
                user: user.clone(),
                token_id: token_id.clone(),
            },
            ContractError::Overflow(e) => ContractError::Overflow(e.clone()),
            ContractError::CheckedMultiply(e) => ContractError::CheckedMultiply(*e),
            ContractError::CheckedFromRatio(e) => ContractError::CheckedFromRatio(*e),
            ContractError::DecimalRangeExceeded => ContractError::DecimalRangeExceeded,
            ContractError::AboveMaxLTV {
                token_id,
                max_ltv_health_factor,
            } => ContractError::AboveMaxLTV {
                token_id: token_id.clone(),
                max_ltv_health_factor: max_ltv_health_factor.clone(),
            },
            ContractError::PriceNotFound(d) => ContractError::PriceNotFound(d.clone()),
            ContractError::VaultPositionNotFound {
                account_id,
                vault,
            } => ContractError::VaultPositionNotFound {
                account_id: account_id.clone(),
                vault: vault.clone(),
            },
            ContractError::NoPositionMatch(id) => ContractError::NoPositionMatch(*id),
            ContractError::UnlockNotReady => ContractError::UnlockNotReady,
            ContractError::UnimplementedQuery => ContractError::UnimplementedQuery,
        }
    }
}

/// The view of an operation's result: of its value when it succeeded, of its
/// error when it did not.
pub open spec fn outcome<T: View>(r: Result<T, ContractError>) -> Result<T::V, ContractErrorView> {
    match r {
        Ok(v) => Ok(v@),
        Err(e) => Err(e@),
    }
}

/// The view of a result whose value is an amount.
pub open spec fn amount_outcome(r: Result<u128, ContractError>) -> Result<nat, ContractErrorView> {
    match r {
        Ok(v) => Ok(v as nat),
        Err(e) => Err(e@),
    }
}

/// An overflow as an error of an operation.
pub open spec fn lift_overflow<T>(r: Result<T, OverflowErrorView>) -> Result<T, ContractErrorView> {
    match r {
        Ok(v) => Ok(v),
        Err(e) => Err(ContractErrorView::Overflow(e)),
    }
}

} // verus!
