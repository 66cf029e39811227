//! Accounting core of a credit-account manager: a ledger of collateral and
//! pooled-debt shares, the engines that change it, and the health gate that
//! every batch of changes has to pass.

pub mod batch;
pub mod book;
pub mod borrow;
pub mod coin;
pub mod decimal;
pub mod deposit;
pub mod error;
pub mod fold;
pub mod health;
pub mod ledger;
pub mod math;
pub mod message;
pub mod oracle;
pub mod pool;
pub mod position;
pub mod registry;
pub mod vault;
pub mod withdraw;
