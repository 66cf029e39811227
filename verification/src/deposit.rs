//! Deposits: coins handed in become collateral of an account.

use crate::coin::Coin;
use crate::coin::CoinView;
use crate::error::outcome;
use crate::error::ContractError;
use crate::error::ContractErrorView;
use crate::ledger::Ledger;
use crate::ledger::LedgerView;
use crate::math::checked_sum;
use crate::registry::CoinRegistry;
use crate::registry::RegistryView;
use vstd::prelude::*;

verus! {

/// What depositing `coin` into an account does to a ledger: the ledger
/// afterwards, or the error that leaves it as it is. A deposit of nothing in
/// an allowed denom changes nothing.
pub open spec fn deposit_spec(
    ledger: LedgerView,
    registry: RegistryView,
    token_id: Seq<char>,
    coin: CoinView,
) -> Result<LedgerView, ContractErrorView> {
    if !registry.is_whitelisted(coin.denom) {
        Err(ContractErrorView::NotWhitelisted(coin.denom))
    } else if coin.amount == 0 {
        Ok(ledger)
    } else {
        match checked_sum(ledger.coin_balance(token_id, coin.denom), coin.amount) {
            Err(e) => Err(ContractErrorView::Overflow(e)),
            Ok(_) => Ok(ledger.credited(token_id, coin.denom, coin.amount)),
        }
    }
}

/// Adds `coin` to the collateral of the account `token_id`.
pub fn deposit(ledger: &mut Ledger, registry: &CoinRegistry, token_id: &str, coin: &Coin) -> (r:
    Result<(), ContractError>)
    ensures
        outcome(r) == match deposit_spec(old(ledger)@, registry@, token_id@, coin@) {
            Ok(_) => Ok(()),
            Err(e) => Err(e),
        },
        final(ledger)@ == match deposit_spec(old(ledger)@, registry@, token_id@, coin@) {
            Ok(after) => after,
            Err(_) => old(ledger)@,
        },
        final(ledger)@.wf(),
        !registry@.is_whitelisted(coin.denom@) ==> r is Err && r->Err_0@
            == ContractErrorView::NotWhitelisted(coin.denom@) && final(ledger)@ == old(ledger)@,
        r is Ok ==> final(ledger)@.coin_balance(token_id@, coin.denom@)
            == old(ledger)@.coin_balance(token_id@, coin.denom@) + coin.amount,
        forall|a: Seq<char>, d: Seq<char>|
            (a, d) != (token_id@, coin.denom@) ==> final(ledger)@.coin_balance(a, d)
                == old(ledger)@.coin_balance(a, d),
        final(ledger)@.debt_shares == old(ledger)@.debt_shares,
        final(ledger)@.total_debt_shares == old(ledger)@.total_debt_shares,
        final(ledger)@.unlocking == old(ledger)@.unlocking,
{
    proof {
        use_type_invariant(&*ledger);
    }
    match registry.assert_coin_is_whitelisted(coin.denom.as_str()) {
        Err(e) => {
            return Err(e);
        },
        Ok(_) => {},
    }
    if coin.amount == 0 {
        return Ok(());
    }
    proof {
        if ledger@.coin_balance(token_id@, coin.denom@) + coin.amount <= u128::MAX {
            crate::ledger::lemma_with_coin_balance(
                ledger@,
                token_id@,
                coin.denom@,
                (ledger@.coin_balance(token_id@, coin.denom@) + coin.amount) as nat,
            );
        }
    }
    match ledger.increment_coin_balance(token_id, coin.denom.as_str(), coin.amount) {
        Ok(_) => Ok(()),
        Err(e) => Err(e),
    }
}

} // verus!
