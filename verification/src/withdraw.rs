//! The withdraw engine: takes collateral out of an account.

use crate::coin::Coin;
use crate::coin::CoinView;
use crate::error::ContractError;
use crate::error::ContractErrorView;
use crate::error::OverflowErrorView;
use crate::error::OverflowOperation;
use crate::ledger::Ledger;
use crate::ledger::LedgerView;
use crate::math::checked_difference;
use crate::math::decimal_text;
use crate::message::Message;
use crate::message::MessageView;
use crate::registry::CoinRegistry;
use crate::registry::RegistryView;
use vstd::prelude::*;

verus! {

/// What withdrawing `coin` from an account does to a ledger: the ledger
/// afterwards, or the error that leaves it as it is.
pub open spec fn withdraw_spec(
    ledger: LedgerView,
    registry: RegistryView,
    token_id: Seq<char>,
    coin: CoinView,
) -> Result<LedgerView, ContractErrorView> {
    if coin.amount == 0 {
        Err(ContractErrorView::NoAmount)
    } else if !registry.is_whitelisted(coin.denom) {
        Err(ContractErrorView::NotWhitelisted(coin.denom))
    } else {
        match checked_difference(ledger.coin_balance(token_id, coin.denom), coin.amount) {
            Err(e) => Err(ContractErrorView::Overflow(e)),
            Ok(_) => Ok(ledger.debited(token_id, coin.denom, coin.amount)),
        }
    }
}

/// Withdraws `coin` from the collateral of the account `token_id` and queues
/// its transfer to `recipient`. An account that holds less than the coin's
/// amount keeps all of it. Whether the account may part with the coin is not
/// decided here: its health is judged once for the whole batch.
pub fn withdraw(
    ledger: &mut Ledger,
    registry: &CoinRegistry,
    token_id: &str,
    coin: &Coin,
    recipient: &str,
) -> (r: Result<Message, ContractError>)
    ensures
        match withdraw_spec(old(ledger)@, registry@, token_id@, coin@) {
            Ok(after) => r is Ok && final(ledger)@ == after && r->Ok_0@ == (MessageView::Transfer {
                to_address: recipient@,
                coin: coin@,
            }),
            Err(e) => r is Err && r->Err_0@ == e && final(ledger)@ == old(ledger)@,
        },
        final(ledger)@.wf(),
        coin.amount == 0 ==> r is Err && r->Err_0@ == ContractErrorView::NoAmount
            && final(ledger)@ == old(ledger)@,
        coin.amount > 0 && !registry@.is_whitelisted(coin.denom@) ==> r is Err && r->Err_0@
            == ContractErrorView::NotWhitelisted(coin.denom@) && final(ledger)@ == old(ledger)@,
        coin.amount > old(ledger)@.coin_balance(token_id@, coin.denom@) ==> r is Err
            && final(ledger)@ == old(ledger)@,
        coin.amount > old(ledger)@.coin_balance(token_id@, coin.denom@)
            && registry@.is_whitelisted(coin.denom@) ==> r->Err_0@ == ContractErrorView::Overflow(
            OverflowErrorView {
                operation: OverflowOperation::Sub,
                operand1: decimal_text(old(ledger)@.coin_balance(token_id@, coin.denom@)),
                operand2: decimal_text(coin.amount as nat),
            },
        ),
        r is Ok ==> final(ledger)@.coin_balance(token_id@, coin.denom@)
            == old(ledger)@.coin_balance(token_id@, coin.denom@) - coin.amount,
        forall|a: Seq<char>, d: Seq<char>|
            (a, d) != (token_id@, coin.denom@) ==> final(ledger)@.coin_balance(a, d)
                == old(ledger)@.coin_balance(a, d),
        final(ledger)@.debt_shares == old(ledger)@.debt_shares,
        final(ledger)@.total_debt_shares == old(ledger)@.total_debt_shares,
        final(ledger)@.unlocking == old(ledger)@.unlocking,
{
    proof {
        use_type_invariant(&*ledger);
    }
    if coin.amount == 0 {
        return Err(ContractError::NoAmount);
    }
    match registry.assert_coin_is_whitelisted(coin.denom.as_str()) {
        Err(e) => {
            return Err(e);
        },
        Ok(_) => {},
    }
    proof {
        if coin.amount <= ledger@.coin_balance(token_id@, coin.denom@) {
            crate::ledger::lemma_with_coin_balance(
                ledger@,
                token_id@,
                coin.denom@,
                (ledger@.coin_balance(token_id@, coin.denom@) - coin.amount) as nat,
            );
        }
    }
    match ledger.decrement_coin_balance(token_id, coin.denom.as_str(), coin.amount) {
        Ok(_) => {},
        Err(e) => {
            return Err(e);
        },
    }
    Ok(Message::Transfer { to_address: recipient.to_owned(), coin: coin.clone() })
}

} // verus!
