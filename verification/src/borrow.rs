//! The borrow engine: turns a borrowed amount into debt shares and books
//! both.

use crate::coin::Coin;
use crate::coin::CoinView;
use crate::error::ContractError;
use crate::error::ContractErrorView;
use crate::ledger::lemma_shares_issued;
use crate::ledger::lemma_with_coin_balance;
use crate::ledger::Ledger;
use crate::ledger::LedgerView;
use crate::math::checked_sum;
use crate::math::uint128_checked_add;
use crate::message::Message;
use crate::message::MessageView;
use crate::pool::shares_for_amount;
use crate::pool::shares_to_issue;
use crate::registry::CoinRegistry;
use crate::registry::RegistryView;
use vstd::prelude::*;

verus! {

/// Debt shares issued per unit borrowed while the pool owes nothing. The large
/// basis keeps later proportional rounding small.
pub const DEFAULT_DEBT_SHARES_PER_COIN_BORROWED: u128 = 1_000_000u128;

/// What a borrow hands back.
#[derive(Debug, PartialEq, Eq)]
pub struct Borrowed {
    /// Debt shares issued to the account.
    pub debt_shares_added: u128,
    /// The request for the lender to hand over the borrowed coin.
    pub message: Message,
}

/// What borrowing `coin` for an account does to a ledger, given the amount
/// that the pool owes the lender in the coin's denom: the ledger afterwards
/// and the shares issued, or the error that leaves the ledger as it is.
pub open spec fn borrow_spec(
    ledger: LedgerView,
    registry: RegistryView,
    token_id: Seq<char>,
    coin: CoinView,
    total_debt_amount: nat,
) -> Result<(LedgerView, nat), ContractErrorView> {
    if coin.amount == 0 {
        Err(ContractErrorView::NoAmount)
    } else if !registry.is_whitelisted(coin.denom) {
        Err(ContractErrorView::NotWhitelisted(coin.denom))
    } else {
        match shares_for_amount(
            ledger.total_shares(coin.denom),
            total_debt_amount,
            coin.amount,
            DEFAULT_DEBT_SHARES_PER_COIN_BORROWED as nat,
        ) {
            Err(e) => Err(e),
            Ok(shares) => match checked_sum(ledger.total_shares(coin.denom), shares) {
                Err(e) => Err(ContractErrorView::Overflow(e)),
                Ok(_) => match checked_sum(
                    ledger.coin_balance(token_id, coin.denom),
                    coin.amount,
                ) {
                    Err(e) => Err(ContractErrorView::Overflow(e)),
                    Ok(_) => Ok(
                        (
                            ledger.with_shares_issued(token_id, coin.denom, shares).credited(
                                token_id,
                                coin.denom,
                                coin.amount,
                            ),
                            shares,
                        ),
                    ),
                },
            },
        }
    }
}

/// Borrows `coin` for the account `token_id`. `total_debt_amount` is what the
/// lender reports as owed by the pool in the coin's denom at this moment.
///
/// While the pool owes nothing, each unit borrowed is worth
/// `DEFAULT_DEBT_SHARES_PER_COIN_BORROWED` shares; afterwards the borrower
/// gets the existing shares in proportion to the amount, rounded down. The
/// pool's total, the account's shares and the account's collateral rise
/// together or not at all.
pub fn borrow(
    ledger: &mut Ledger,
    registry: &CoinRegistry,
    token_id: &str,
    coin: &Coin,
    total_debt_amount: u128,
) -> (r: Result<Borrowed, ContractError>)
    ensures
        match borrow_spec(old(ledger)@, registry@, token_id@, coin@, total_debt_amount as nat) {
            Ok(done) => r is Ok && final(ledger)@ == done.0 && r->Ok_0.debt_shares_added == done.1
                && r->Ok_0.message@ == (MessageView::Borrow { coin: coin@ }),
            Err(e) => r is Err && r->Err_0@ == e && final(ledger)@ == old(ledger)@,
        },
        final(ledger)@.wf(),
        coin.amount == 0 ==> r is Err && r->Err_0@ == ContractErrorView::NoAmount
            && final(ledger)@ == old(ledger)@,
        coin.amount > 0 && !registry@.is_whitelisted(coin.denom@) ==> r is Err && r->Err_0@
            == ContractErrorView::NotWhitelisted(coin.denom@) && final(ledger)@ == old(ledger)@,
        r is Ok && total_debt_amount == 0 ==> r->Ok_0.debt_shares_added == coin.amount
            * DEFAULT_DEBT_SHARES_PER_COIN_BORROWED,
        r is Ok && total_debt_amount > 0 ==> r->Ok_0.debt_shares_added
            == (old(ledger)@.total_shares(coin.denom@) * coin.amount) / (total_debt_amount as int),
        r is Ok ==> final(ledger)@.total_shares(coin.denom@)
            == old(ledger)@.total_shares(coin.denom@) + r->Ok_0.debt_shares_added,
        r is Ok ==> final(ledger)@.debt_shares_of(token_id@, coin.denom@)
            == old(ledger)@.debt_shares_of(token_id@, coin.denom@) + r->Ok_0.debt_shares_added,
        r is Ok ==> final(ledger)@.coin_balance(token_id@, coin.denom@)
            == old(ledger)@.coin_balance(token_id@, coin.denom@) + coin.amount,
        forall|a: Seq<char>, d: Seq<char>|
            (a, d) != (token_id@, coin.denom@) ==> final(ledger)@.coin_balance(a, d)
                == old(ledger)@.coin_balance(a, d),
        forall|a: Seq<char>, d: Seq<char>|
            (a, d) != (token_id@, coin.denom@) ==> final(ledger)@.debt_shares_of(a, d)
                == old(ledger)@.debt_shares_of(a, d),
        forall|d: Seq<char>|
            d != coin.denom@ ==> final(ledger)@.total_shares(d) == old(ledger)@.total_shares(d),
        final(ledger)@.unlocking == old(ledger)@.unlocking,
{
    if coin.amount == 0 {
        proof {
            use_type_invariant(&*ledger);
        }
        return Err(ContractError::NoAmount);
    }
    let total_shares = ledger.total_debt_shares(coin.denom.as_str());
    match registry.assert_coin_is_whitelisted(coin.denom.as_str()) {
        Err(e) => {
            return Err(e);
        },
        Ok(_) => {},
    }
    let debt_shares_to_add = match shares_to_issue(
        total_shares,
        total_debt_amount,
        coin.amount,
        DEFAULT_DEBT_SHARES_PER_COIN_BORROWED,
    ) {
        Ok(shares) => shares,
        Err(e) => {
            return Err(e);
        },
    };
    match uint128_checked_add(total_shares, debt_shares_to_add) {
        Ok(_) => {},
        Err(e) => {
            return Err(ContractError::Overflow(e));
        },
    }
    let balance = ledger.coin_balance(token_id, coin.denom.as_str());
    match uint128_checked_add(balance, coin.amount) {
        Ok(_) => {},
        Err(e) => {
            return Err(ContractError::Overflow(e));
        },
    }
    proof {
        lemma_shares_issued(old(ledger)@, token_id@, coin.denom@, debt_shares_to_add as nat);
        lemma_with_coin_balance(
            old(ledger)@.with_shares_issued(token_id@, coin.denom@, debt_shares_to_add as nat),
            token_id@,
            coin.denom@,
            (balance + coin.amount) as nat,
        );
    }
    match ledger.increment_debt_shares(token_id, coin.denom.as_str(), debt_shares_to_add) {
        Ok(_) => {},
        Err(e) => {
            return Err(e);
        },
    }
    match ledger.increment_coin_balance(token_id, coin.denom.as_str(), coin.amount) {
        Ok(_) => {},
        Err(e) => {
            return Err(e);
        },
    }
    Ok(
        Borrowed {
            debt_shares_added: debt_shares_to_add,
            message: Message::Borrow { coin: coin.clone() },
        },
    )
}

} // verus!
