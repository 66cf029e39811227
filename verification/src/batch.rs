//! The account update orchestrator: applies a batch of actions to a staged
//! copy of the ledger, judges the account's health once at the end, and
//! commits all of the batch or none of it.

use crate::book::distinct_keys;
use crate::book::lemma_stored;
use crate::book::lookup;
use crate::book::stored;
use crate::book::Slot;
use crate::borrow::borrow;
use crate::borrow::borrow_spec;
use crate::coin::clone_coins;
use crate::coin::coins_view;
use crate::coin::Coin;
use crate::coin::CoinView;
use crate::deposit::deposit;
use crate::deposit::deposit_spec;
use crate::error::ContractError;
use crate::error::ContractErrorView;
use crate::fold::lemma_try_fold_all;
use crate::fold::lemma_try_fold_failed;
use crate::fold::lemma_try_fold_next;
use crate::fold::lemma_try_fold_none;
use crate::fold::try_fold;
use crate::health::enforce_healthy_or_fail;
use crate::health::enforce_spec;
use crate::ledger::store_total;
use crate::ledger::total_amount;
use crate::ledger::totals_view;
use crate::ledger::Ledger;
use crate::ledger::LedgerView;
use crate::math::checked_difference;
use crate::math::checked_sum;
use crate::math::uint128_checked_add;
use crate::math::uint128_checked_sub;
use crate::message::messages_view;
use crate::message::Message;
use crate::message::MessageView;
use crate::oracle::PriceStore;
use crate::registry::CoinRegistry;
use crate::registry::RegistryView;
use crate::vault::withdraw_unlocked_from_vault;
use crate::vault::withdraw_unlocked_messages;
use crate::vault::withdraw_unlocked_spec;
use crate::withdraw::withdraw;
use crate::withdraw::withdraw_spec;
use vstd::prelude::*;

verus! {

/// One requested change to an account.
#[derive(Debug, PartialEq, Eq)]
pub enum Action {
    /// Turn attached funds into collateral.
    Deposit(Coin),
    /// Borrow from the lender; the coin becomes collateral.
    Borrow(Coin),
    /// Take collateral out.
    Withdraw(Coin),
    /// Have a vault pay out an unlocking position that has come due.
    VaultWithdrawUnlocked { id: u64, vault: String },
}

pub enum ActionView {
    Deposit(CoinView),
    Borrow(CoinView),
    Withdraw(CoinView),
    VaultWithdrawUnlocked { id: u64, vault: Seq<char> },
}

impl View for Action {
    type V = ActionView;

    open spec fn view(&self) -> ActionView {
        match *self {
            Action::Deposit(coin) => ActionView::Deposit(coin@),
            Action::Borrow(coin) => ActionView::Borrow(coin@),
            Action::Withdraw(coin) => ActionView::Withdraw(coin@),
            Action::VaultWithdrawUnlocked { id, vault } => ActionView::VaultWithdrawUnlocked {
                id,
                vault: vault@,
            },
        }
    }
}

/// An action together with what the collaborators reported when they were
/// asked on its behalf. Each report matters to one kind of action only.
#[derive(Debug, PartialEq, Eq)]
pub struct Step {
    pub action: Action,
    /// For a borrow: what the lender reports as owed by the pool in the
    /// coin's denom right before the borrow.
    pub pooled_debt: u128,
    /// For a vault pay-out: the release time that the vault reports.
    pub unlocked_at: u64,
    /// For a vault pay-out: the balances seen before it in the denoms that the
    /// vault pays in.
    pub previous_balances: Vec<Coin>,
}

pub struct StepView {
    pub action: ActionView,
    pub pooled_debt: nat,
    pub unlocked_at: u64,
    pub previous_balances: Seq<CoinView>,
}

impl View for Step {
    type V = StepView;

    open spec fn view(&self) -> StepView {
        StepView {
            action: self.action@,
            pooled_debt: self.pooled_debt as nat,
            unlocked_at: self.unlocked_at,
            previous_balances: coins_view(self.previous_balances@),
        }
    }
}

/// The views of a list of steps, in order.
pub open spec fn steps_view(steps: Seq<Step>) -> Seq<StepView> {
    steps.map_values(|s: Step| s@)
}

/// A batch under way: the staged ledger, what is left of the attached funds,
/// and the instructions queued so far.
pub struct Staged {
    pub ledger: LedgerView,
    pub funds: Seq<Slot<Seq<char>>>,
    pub messages: Seq<MessageView>,
}

/// One step of adding up the attached funds, denom by denom.
pub open spec fn fund_step() -> spec_fn(Seq<Slot<Seq<char>>>, CoinView) -> Result<
    Seq<Slot<Seq<char>>>,
    ContractErrorView,
> {
    |funds: Seq<Slot<Seq<char>>>, coin: CoinView|
        match checked_sum(lookup(funds, coin.denom), coin.amount) {
            Err(e) => Err(ContractErrorView::Overflow(e)),
            Ok(sum) => Ok(stored(funds, coin.denom, sum)),
        }
}

/// What a deposit does to a batch under way: the coin is taken from the
/// attached funds and added to the account's collateral. A deposit of nothing
/// in an allowed denom changes nothing.
pub open spec fn staged_deposit(
    state: Staged,
    registry: RegistryView,
    token_id: Seq<char>,
    coin: CoinView,
) -> Result<Staged, ContractErrorView> {
    if !registry.is_whitelisted(coin.denom) {
        Err(ContractErrorView::NotWhitelisted(coin.denom))
    } else if coin.amount == 0 {
        Ok(state)
    } else {
        match checked_difference(lookup(state.funds, coin.denom), coin.amount) {
            Err(e) => Err(ContractErrorView::Overflow(e)),
            Ok(rest) => match deposit_spec(state.ledger, registry, token_id, coin) {
                Err(e) => Err(e),
                Ok(ledger) => Ok(
                    Staged { ledger, funds: stored(state.funds, coin.denom, rest), ..state },
                ),
            },
        }
    }
}

/// What one step does to a batch under way. Withdrawn coins go to `user`;
/// `now` is the time against which vault releases are judged.
pub open spec fn apply_step(
    registry: RegistryView,
    token_id: Seq<char>,
    user: Seq<char>,
    now: u64,
) -> spec_fn(Staged, StepView) -> Result<Staged, ContractErrorView> {
    |state: Staged, step: StepView|
        match step.action {
            ActionView::Deposit(coin) => staged_deposit(state, registry, token_id, coin),
            ActionView::Borrow(coin) => match borrow_spec(
                state.ledger,
                registry,
                token_id,
                coin,
                step.pooled_debt,
            ) {
                Err(e) => Err(e),
                Ok(done) => Ok(
                    Staged {
                        ledger: done.0,
                        messages: state.messages.push(MessageView::Borrow { coin }),
                        ..state
                    },
                ),
            },
            ActionView::Withdraw(coin) => match withdraw_spec(
                state.ledger,
                registry,
                token_id,
                coin,
            ) {
                Err(e) => Err(e),
                Ok(ledger) => Ok(
                    Staged {
                        ledger,
                        messages: state.messages.push(
                            MessageView::Transfer { to_address: user, coin },
                        ),
                        ..state
                    },
                ),
            },
            ActionView::VaultWithdrawUnlocked { id, vault } => match withdraw_unlocked_spec(
                state.ledger,
                registry,
                token_id,
                vault,
                id,
                step.unlocked_at,
                now,
            ) {
                Err(e) => Err(e),
                Ok(ledger) => Ok(
                    Staged {
                        ledger,
                        messages: state.messages + withdraw_unlocked_messages(
                            token_id,
                            vault,
                            id,
                            step.previous_balances,
                        ),
                        ..state
                    },
                ),
            },
        }
}

/// What a batch does: the ledger to commit and the instructions to emit, or
/// the error that discards the batch.
///
/// Only the account's owner may submit a batch. The steps are applied in order
/// to a staged copy of the ledger, and the first that fails ends the batch.
/// The health of the account is then judged once, on the staged ledger, at
/// the oracle's prices and with the debts that the lender reports after the
/// last step; an unhealthy account discards the batch.
pub open spec fn run_batch_spec(
    ledger: LedgerView,
    registry: RegistryView,
    prices: Seq<Slot<Seq<char>>>,
    token_id: Seq<char>,
    user: Seq<char>,
    owner: Seq<char>,
    steps: Seq<StepView>,
    attached_funds: Seq<CoinView>,
    now: u64,
    debts: Seq<CoinView>,
) -> Result<(LedgerView, Seq<MessageView>), ContractErrorView> {
    if user != owner {
        Err(ContractErrorView::NotTokenOwner { user, token_id })
    } else {
        match try_fold(Seq::empty(), attached_funds, fund_step()) {
            Err(e) => Err(e),
            Ok(funds) => match try_fold(
                Staged { ledger, funds, messages: Seq::empty() },
                steps,
                apply_step(registry, token_id, user, now),
            ) {
                Err(e) => Err(e),
                Ok(state) => match enforce_spec(state.ledger, registry, prices, debts, token_id) {
                    Err(e) => Err(e),
                    Ok(_) => Ok((state.ledger, state.messages)),
                },
            },
        }
    }
}

/// A batch whose steps all succeed but which leaves the account with a health
/// factor below one is rejected as a whole.
pub proof fn lemma_unhealthy_batch_rejected(
    ledger: LedgerView,
    registry: RegistryView,
    prices: Seq<Slot<Seq<char>>>,
    token_id: Seq<char>,
    user: Seq<char>,
    steps: Seq<StepView>,
    attached_funds: Seq<CoinView>,
    now: u64,
    debts: Seq<CoinView>,
)
    requires
        try_fold(Seq::empty(), attached_funds, fund_step()) is Ok,
        try_fold(
            Staged {
                ledger,
                funds: try_fold(Seq::empty(), attached_funds, fund_step())->Ok_0,
                messages: Seq::empty(),
            },
            steps,
            apply_step(registry, token_id, user, now),
        ) is Ok,
        enforce_spec(
            try_fold(
                Staged {
                    ledger,
                    funds: try_fold(Seq::empty(), attached_funds, fund_step())->Ok_0,
                    messages: Seq::empty(),
                },
                steps,
                apply_step(registry, token_id, user, now),
            )->Ok_0.ledger,
            registry,
            prices,
            debts,
            token_id,
        ) is Err,
    ensures
        run_batch_spec(
            ledger,
            registry,
            prices,
            token_id,
            user,
            user,
            steps,
            attached_funds,
            now,
            debts,
        ) is Err,
{
}

/// A batch without steps commits the ledger as it was or is rejected; either
/// way no balance and no share changes.
pub proof fn lemma_empty_batch_changes_nothing(
    ledger: LedgerView,
    registry: RegistryView,
    prices: Seq<Slot<Seq<char>>>,
    token_id: Seq<char>,
    user: Seq<char>,
    owner: Seq<char>,
    attached_funds: Seq<CoinView>,
    now: u64,
    debts: Seq<CoinView>,
)
    ensures
        match run_batch_spec(
            ledger,
            registry,
            prices,
            token_id,
            user,
            owner,
            Seq::empty(),
            attached_funds,
            now,
            debts,
        ) {
            Ok(done) => done.0 == ledger && done.1.len() == 0,
            Err(_) => true,
        },
{
}

/// Adds up the attached funds, denom by denom.
fn collect_funds(attached_funds: &Vec<Coin>) -> (r: Result<Vec<Coin>, ContractError>)
    ensures
        match try_fold(Seq::empty(), coins_view(attached_funds@), fund_step()) {
            Ok(funds) => r is Ok && totals_view(r->Ok_0@) == funds && distinct_keys(funds),
            Err(e) => r is Err && r->Err_0@ == e,
        },
{
    let ghost all = coins_view(attached_funds@);
    let ghost f = fund_step();
    let mut funds: Vec<Coin> = Vec::new();
    let mut i: usize = 0;
    proof {
        lemma_try_fold_none(Seq::<Slot<Seq<char>>>::empty(), all, f);
        assert(totals_view(funds@) =~= Seq::<Slot<Seq<char>>>::empty());
    }
    while i < attached_funds.len()
        invariant
            i <= attached_funds.len(),
            all == coins_view(attached_funds@),
            f == fund_step(),
            distinct_keys(totals_view(funds@)),
            try_fold(Seq::empty(), all.take(i as int), f) == Ok::<
                Seq<Slot<Seq<char>>>,
                ContractErrorView,
            >(totals_view(funds@)),
        decreases attached_funds.len() - i,
    {
        proof {
            lemma_try_fold_next(Seq::<Slot<Seq<char>>>::empty(), all, i as int, f);
            lemma_try_fold_failed(Seq::<Slot<Seq<char>>>::empty(), all, i + 1, f);
            assert(all[i as int] == attached_funds[i as int]@);
        }
        let held = total_amount(&funds, &attached_funds[i].denom);
        match uint128_checked_add(held, attached_funds[i].amount) {
            Ok(sum) => {
                proof {
                    lemma_stored(totals_view(funds@), attached_funds[i as int].denom@, sum as nat);
                }
                store_total(&mut funds, &attached_funds[i].denom, sum);
            },
            Err(e) => {
                return Err(ContractError::Overflow(e));
            },
        }
        i += 1;
    }
    proof {
        lemma_try_fold_all(Seq::<Slot<Seq<char>>>::empty(), all, f);
    }
    Ok(funds)
}

/// Applies one step to a batch under way. After a failure the batch is to be
/// discarded.
fn apply(
    staged: &mut Ledger,
    funds: &mut Vec<Coin>,
    messages: &mut Vec<Message>,
    registry: &CoinRegistry,
    token_id: &str,
    user: &str,
    now: u64,
    step: &Step,
) -> (r: Result<(), ContractError>)
    requires
        distinct_keys(totals_view(old(funds)@)),
    ensures
        match apply_step(registry@, token_id@, user@, now)(
            Staged {
                ledger: old(staged)@,
                funds: totals_view(old(funds)@),
                messages: messages_view(old(messages)@),
            },
            step@,
        ) {
            Ok(next) => r is Ok && final(staged)@ == next.ledger && totals_view(final(funds)@)
                == next.funds && messages_view(final(messages)@) == next.messages,
            Err(e) => r is Err && r->Err_0@ == e,
        },
        distinct_keys(totals_view(final(funds)@)),
{
    let ghost queued = messages_view(messages@);
    match &step.action {
        Action::Deposit(coin) => {
            match registry.assert_coin_is_whitelisted(coin.denom.as_str()) {
                Err(e) => {
                    return Err(e);
                },
                Ok(_) => {},
            }
            if coin.amount == 0 {
                return Ok(());
            }
            let available = total_amount(funds, &coin.denom);
            let rest = match uint128_checked_sub(available, coin.amount) {
                Ok(rest) => rest,
                Err(e) => {
                    return Err(ContractError::Overflow(e));
                },
            };
            match deposit(staged, registry, token_id, coin) {
                Err(e) => {
                    return Err(e);
                },
                Ok(_) => {},
            }
            proof {
                lemma_stored(totals_view(funds@), coin.denom@, rest as nat);
            }
            store_total(funds, &coin.denom, rest);
            Ok(())
        },
        Action::Borrow(coin) => {
            match borrow(staged, registry, token_id, coin, step.pooled_debt) {
                Err(e) => Err(e),
                Ok(borrowed) => {
                    messages.push(borrowed.message);
                    assert(messages_view(messages@) =~= queued.push(
                        MessageView::Borrow { coin: coin@ },
                    ));
                    Ok(())
                },
            }
        },
        Action::Withdraw(coin) => {
            match withdraw(staged, registry, token_id, coin, user) {
                Err(e) => Err(e),
                Ok(message) => {
                    messages.push(message);
                    assert(messages_view(messages@) =~= queued.push(
                        MessageView::Transfer { to_address: user@, coin: coin@ },
                    ));
                    Ok(())
                },
            }
        },
        Action::VaultWithdrawUnlocked { id, vault } => {
            let previous = clone_coins(&step.previous_balances);
            match withdraw_unlocked_from_vault(
                staged,
                registry,
                token_id,
                vault.as_str(),
                *id,
                step.unlocked_at,
                now,
                previous,
            ) {
                Err(e) => Err(e),
                Ok(mut queued_now) => {
                    let ghost added = messages_view(queued_now@);
                    assert(added =~= withdraw_unlocked_messages(
                        token_id@,
                        vault@,
                        *id,
                        coins_view(step.previous_balances@),
                    ));
                    messages.append(&mut queued_now);
                    assert(messages_view(messages@) =~= queued + added);
                    Ok(())
                },
            }
        },
    }
}

/// Runs a batch of steps for the account `token_id` on behalf of `user`.
///
/// `owner` is who the ownership authority names as the account's owner,
/// `attached_funds` the coins handed in with the batch, `now` the current time,
/// `oracle` the prices, and `debts` what the lender reports as owed by the
/// pool, denom by denom, once the last step has been taken. Either every step
/// takes effect and the account is healthy afterwards, or the ledger is left
/// exactly as it was.
pub fn run_batch(
    ledger: &mut Ledger,
    registry: &CoinRegistry,
    oracle: &PriceStore,
    token_id: &str,
    user: &str,
    owner: &str,
    steps: &Vec<Step>,
    attached_funds: &Vec<Coin>,
    now: u64,
    debts: &Vec<Coin>,
) -> (r: Result<Vec<Message>, ContractError>)
    ensures
        match run_batch_spec(
            old(ledger)@,
            registry@,
            oracle@,
            token_id@,
            user@,
            owner@,
            steps_view(steps@),
            coins_view(attached_funds@),
            now,
            coins_view(debts@),
        ) {
            Ok(done) => r is Ok && final(ledger)@ == done.0 && messages_view(r->Ok_0@) == done.1,
            Err(e) => r is Err && r->Err_0@ == e && final(ledger)@ == old(ledger)@,
        },
        final(ledger)@.wf(),
        final(ledger)@.conserved(),
        r is Err ==> final(ledger)@ == old(ledger)@,
        r is Ok ==> enforce_spec(
            final(ledger)@,
            registry@,
            oracle@,
            coins_view(debts@),
            token_id@,
        ) is Ok,
        steps.len() == 0 ==> final(ledger)@ == old(ledger)@,
        user@ != owner@ ==> r is Err && r->Err_0@ == (ContractErrorView::NotTokenOwner {
            user: user@,
            token_id: token_id@,
        }),
{
    proof {
        use_type_invariant(&*ledger);
    }
    if user.to_owned() != owner.to_owned() {
        return Err(
            ContractError::NotTokenOwner { user: user.to_owned(), token_id: token_id.to_owned() },
        );
    }
    let mut funds = match collect_funds(attached_funds) {
        Ok(funds) => funds,
        Err(e) => {
            return Err(e);
        },
    };
    let mut staged = ledger.clone();
    let mut messages: Vec<Message> = Vec::new();
    let ghost before = ledger@;
    let ghost all = steps_view(steps@);
    let ghost f = apply_step(registry@, token_id@, user@, now);
    let ghost init = Staged {
        ledger: ledger@,
        funds: totals_view(funds@),
        messages: Seq::<MessageView>::empty(),
    };
    let mut i: usize = 0;
    proof {
        lemma_try_fold_none(init, all, f);
        assert(messages_view(messages@) =~= Seq::<MessageView>::empty());
    }
    while i < steps.len()
        invariant
            i <= steps.len(),
            all == steps_view(steps@),
            f == apply_step(registry@, token_id@, user@, now),
            ledger@ == before,
            before.wf(),
            user@ == owner@,
            init.ledger == before,
            init.messages == Seq::<MessageView>::empty(),
            try_fold(Seq::empty(), coins_view(attached_funds@), fund_step()) == Ok::<
                Seq<Slot<Seq<char>>>,
                ContractErrorView,
            >(init.funds),
            distinct_keys(totals_view(funds@)),
            try_fold(init, all.take(i as int), f) == Ok::<Staged, ContractErrorView>(
                Staged {
                    ledger: staged@,
                    funds: totals_view(funds@),
                    messages: messages_view(messages@),
                },
            ),
        decreases steps.len() - i,
    {
        proof {
            lemma_try_fold_next(init, all, i as int, f);
            lemma_try_fold_failed(init, all, i + 1, f);
            assert(all[i as int] == steps[i as int]@);
        }
        match apply(
            &mut staged,
            &mut funds,
            &mut messages,
            registry,
            token_id,
            user,
            now,
            &steps[i],
        ) {
            Ok(_) => {},
            Err(e) => {
                return Err(e);
            },
        }
        i += 1;
    }
    proof {
        lemma_try_fold_all(init, all, f);
    }
    match enforce_healthy_or_fail(&staged, registry, oracle, debts, token_id) {
        Ok(_) => {},
        Err(e) => {
            return Err(e);
        },
    }
    proof {
        use_type_invariant(&staged);
    }
    *ledger = staged;
    Ok(messages)
}

} // verus!
