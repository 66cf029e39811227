//! Vault flows: paying out what a vault has finished unlocking.

use crate::coin::coins_view;
use crate::coin::Coin;
use crate::coin::CoinView;
use crate::error::ContractError;
use crate::error::ContractErrorView;
use crate::ledger::Ledger;
use crate::ledger::LedgerView;
use crate::message::messages_view;
use crate::message::Message;
use crate::message::MessageView;
use crate::registry::CoinRegistry;
use crate::registry::RegistryView;
use vstd::prelude::*;

verus! {

/// What paying out an unlocking position does to a ledger: the ledger
/// afterwards, or the error that leaves it as it is. `unlocked_at` is the
/// release time that the vault reports for the position, `now` the current
/// time on the same clock.
pub open spec fn withdraw_unlocked_spec(
    ledger: LedgerView,
    registry: RegistryView,
    account_id: Seq<char>,
    vault: Seq<char>,
    position_id: u64,
    unlocked_at: u64,
    now: u64,
) -> Result<LedgerView, ContractErrorView> {
    if !registry.is_vault_whitelisted(vault) {
        Err(ContractErrorView::NotWhitelisted(vault))
    } else if !ledger.holds_in_vault(account_id, vault) {
        Err(ContractErrorView::VaultPositionNotFound { account_id, vault })
    } else if !ledger.has_unlocking(account_id, vault, position_id) {
        Err(ContractErrorView::NoPositionMatch(position_id))
    } else if unlocked_at > now {
        Err(ContractErrorView::UnlockNotReady)
    } else {
        Ok(ledger.without_unlocking(account_id, vault, position_id))
    }
}

/// The two instructions that a pay-out queues: the vault is to release the
/// position, and afterwards the account's coin balances are to be brought up
/// to date.
pub open spec fn withdraw_unlocked_messages(
    account_id: Seq<char>,
    vault: Seq<char>,
    position_id: u64,
    previous_balances: Seq<CoinView>,
) -> Seq<MessageView> {
    seq![
        MessageView::WithdrawUnlocked { vault, position_id },
        MessageView::UpdateCoinBalances { account_id, previous_balances },
    ]
}

/// Pays out the unlocking position `position_id` that the account holds in
/// the vault. The vault must be allowed, the account must hold the position,
/// and the position's release time, as the vault reports it in `unlocked_at`,
/// must not lie after `now`. The position is struck from the ledger.
/// `previous_balances` are the balances seen before the pay-out in the denoms
/// that the vault pays in; they travel with the second instruction.
pub fn withdraw_unlocked_from_vault(
    ledger: &mut Ledger,
    registry: &CoinRegistry,
    account_id: &str,
    vault: &str,
    position_id: u64,
    unlocked_at: u64,
    now: u64,
    previous_balances: Vec<Coin>,
) -> (r: Result<Vec<Message>, ContractError>)
    ensures
        match withdraw_unlocked_spec(
            old(ledger)@,
            registry@,
            account_id@,
            vault@,
            position_id,
            unlocked_at,
            now,
        ) {
            Ok(after) => r is Ok && final(ledger)@ == after && messages_view(r->Ok_0@)
                == withdraw_unlocked_messages(
                account_id@,
                vault@,
                position_id,
                coins_view(previous_balances@),
            ),
            Err(e) => r is Err && r->Err_0@ == e && final(ledger)@ == old(ledger)@,
        },
        final(ledger)@.wf(),
{
    proof {
        use_type_invariant(&*ledger);
    }
    if !registry.is_vault_whitelisted(vault) {
        return Err(ContractError::NotWhitelisted(vault.to_owned()));
    }
    if !ledger.holds_in_vault(account_id, vault) {
        return Err(
            ContractError::VaultPositionNotFound {
                account_id: account_id.to_owned(),
                vault: vault.to_owned(),
            },
        );
    }
    if ledger.unlocking_amount(account_id, vault, position_id).is_none() {
        return Err(ContractError::NoPositionMatch(position_id));
    }
    if unlocked_at > now {
        return Err(ContractError::UnlockNotReady);
    }
    let _ = ledger.remove_unlocking(account_id, vault, position_id);
    let mut messages: Vec<Message> = Vec::new();
    messages.push(Message::WithdrawUnlocked { vault: vault.to_owned(), position_id });
    messages.push(
        Message::UpdateCoinBalances { account_id: account_id.to_owned(), previous_balances },
    );
    assert(messages_view(messages@) =~= withdraw_unlocked_messages(
        account_id@,
        vault@,
        position_id,
        coins_view(previous_balances@),
    ));
    Ok(messages)
}

} // verus!
