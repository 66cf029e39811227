//! The ledger store: collateral balances and debt shares per account, and the
//! pool-wide total of debt shares per denom.

use crate::book::contains_key;
use crate::book::distinct_keys;
use crate::book::key_index;
use crate::book::bounded;
use crate::book::lemma_bounded_stored;
use crate::book::lemma_lookup_at;
use crate::book::lemma_stored;
use crate::book::lemma_sum_stored;
use crate::book::lookup;
use crate::book::stored;
use crate::book::sum_for_denom;
use crate::book::AccountKey;
use crate::book::Slot;
use crate::coin::Coin;
use crate::error::lift_overflow;
use crate::error::amount_outcome;
use crate::error::ContractError;
use crate::math::checked_difference;
use crate::math::checked_sum;
use crate::math::uint128_checked_add;
use crate::math::uint128_checked_sub;
use vstd::prelude::*;

verus! {

/// A balance of one account in one denom, as the ledger keeps it.
#[derive(Debug, PartialEq, Eq)]
pub struct Entry {
    pub account_id: String,
    pub denom: String,
    pub amount: u128,
}

impl View for Entry {
    type V = Slot<AccountKey>;

    open spec fn view(&self) -> Slot<AccountKey> {
        Slot { key: (self.account_id@, self.denom@), amount: self.amount as nat }
    }
}

impl Clone for Entry {
    fn clone(&self) -> (r: Entry)
        ensures
            r@ == self@,
    {
        Entry {
            account_id: self.account_id.clone(),
            denom: self.denom.clone(),
            amount: self.amount,
        }
    }
}

/// An amount that a vault is releasing to an account.
#[derive(Debug, PartialEq, Eq)]
pub struct Unlocking {
    pub account_id: String,
    pub vault: String,
    pub id: u64,
    pub amount: u128,
}

pub struct UnlockingView {
    pub account_id: Seq<char>,
    pub vault: Seq<char>,
    pub id: u64,
    pub amount: nat,
}

impl View for Unlocking {
    type V = UnlockingView;

    open spec fn view(&self) -> UnlockingView {
        UnlockingView {
            account_id: self.account_id@,
            vault: self.vault@,
            id: self.id,
            amount: self.amount as nat,
        }
    }
}

impl Clone for Unlocking {
    fn clone(&self) -> (r: Unlocking)
        ensures
            r@ == self@,
    {
        Unlocking {
            account_id: self.account_id.clone(),
            vault: self.vault.clone(),
            id: self.id,
            amount: self.amount,
        }
    }
}

/// The views of a list of unlocking amounts, in order.
pub open spec fn unlocking_view(list: Seq<Unlocking>) -> Seq<UnlockingView> {
    list.map_values(|u: Unlocking| u@)
}

/// The book that a list of entries stands for.
pub open spec fn entries_view(entries: Seq<Entry>) -> Seq<Slot<AccountKey>> {
    entries.map_values(|e: Entry| e@)
}

/// The book of pool totals that a list of coins stands for.
pub open spec fn totals_view(totals: Seq<Coin>) -> Seq<Slot<Seq<char>>> {
    totals.map_values(|c: Coin| Slot { key: c.denom@, amount: c.amount as nat })
}

/// What the ledger holds.
pub struct LedgerView {
    /// Collateral of each account in each denom.
    pub coins: Seq<Slot<AccountKey>>,
    /// Debt shares of each account in each denom.
    pub debt_shares: Seq<Slot<AccountKey>>,
    /// Debt shares of the whole pool in each denom.
    pub total_debt_shares: Seq<Slot<Seq<char>>>,
    /// Amounts that vaults are releasing to accounts, oldest first.
    pub unlocking: Seq<UnlockingView>,
}

impl LedgerView {
    /// Collateral that the account holds in the denom.
    pub open spec fn coin_balance(self, account_id: Seq<char>, denom: Seq<char>) -> nat {
        lookup(self.coins, (account_id, denom))
    }

    /// Debt shares that the account holds in the denom.
    pub open spec fn debt_shares_of(self, account_id: Seq<char>, denom: Seq<char>) -> nat {
        lookup(self.debt_shares, (account_id, denom))
    }

    /// Debt shares that all accounts together hold in the denom, as recorded
    /// for the pool.
    pub open spec fn total_shares(self, denom: Seq<char>) -> nat {
        lookup(self.total_debt_shares, denom)
    }

    /// For every denom the accounts' debt shares add up to the pool's total.
    pub open spec fn conserved(self) -> bool {
        forall|denom: Seq<char>|
            #[trigger] sum_for_denom(self.debt_shares, denom) == self.total_shares(denom)
    }

    /// Every amount fits in 128 bits.
    pub open spec fn in_range(self) -> bool {
        &&& bounded(self.coins)
        &&& bounded(self.debt_shares)
        &&& bounded(self.total_debt_shares)
    }

    /// The ledger's invariant: one slot per key, amounts in range, and
    /// conservation of debt shares.
    pub open spec fn wf(self) -> bool {
        &&& distinct_keys(self.coins)
        &&& distinct_keys(self.debt_shares)
        &&& distinct_keys(self.total_debt_shares)
        &&& self.in_range()
        &&& self.conserved()
    }

    /// The ledger after the account's collateral in the denom was set.
    pub open spec fn with_coin_balance(
        self,
        account_id: Seq<char>,
        denom: Seq<char>,
        amount: nat,
    ) -> LedgerView {
        LedgerView { coins: stored(self.coins, (account_id, denom), amount), ..self }
    }

    /// Whether the slot at `i` is the release with this id from the vault to
    /// the account.
    pub open spec fn unlocking_at(
        self,
        i: int,
        account_id: Seq<char>,
        vault: Seq<char>,
        id: u64,
    ) -> bool {
        &&& 0 <= i < self.unlocking.len()
        &&& self.unlocking[i].account_id == account_id
        &&& self.unlocking[i].vault == vault
        &&& self.unlocking[i].id == id
    }

    /// Whether the account holds a position in the vault.
    pub open spec fn holds_in_vault(self, account_id: Seq<char>, vault: Seq<char>) -> bool {
        exists|i: int|
            0 <= i < self.unlocking.len() && (#[trigger] self.unlocking[i]).account_id
                == account_id && self.unlocking[i].vault == vault
    }

    /// Whether the vault is releasing something to the account under the id.
    pub open spec fn has_unlocking(self, account_id: Seq<char>, vault: Seq<char>, id: u64) -> bool {
        exists|i: int| self.unlocking_at(i, account_id, vault, id)
    }

    /// Whether `i` is the oldest release with this id from the vault to the
    /// account.
    pub open spec fn first_unlocking_at(
        self,
        i: int,
        account_id: Seq<char>,
        vault: Seq<char>,
        id: u64,
    ) -> bool {
        &&& self.unlocking_at(i, account_id, vault, id)
        &&& forall|j: int| 0 <= j < i ==> !self.unlocking_at(j, account_id, vault, id)
    }

    /// Where the oldest release with this id stands; meaningful where there is
    /// one.
    pub open spec fn unlocking_index(
        self,
        account_id: Seq<char>,
        vault: Seq<char>,
        id: u64,
    ) -> int {
        choose|i: int| self.first_unlocking_at(i, account_id, vault, id)
    }

    /// The ledger without the oldest release with this id.
    pub open spec fn without_unlocking(
        self,
        account_id: Seq<char>,
        vault: Seq<char>,
        id: u64,
    ) -> LedgerView
        recommends
            self.has_unlocking(account_id, vault, id),
    {
        LedgerView {
            unlocking: self.unlocking.remove(self.unlocking_index(account_id, vault, id)),
            ..self
        }
    }

    /// The ledger after `amount` was added to the account's collateral.
    pub open spec fn credited(
        self,
        account_id: Seq<char>,
        denom: Seq<char>,
        amount: nat,
    ) -> LedgerView {
        self.with_coin_balance(account_id, denom, self.coin_balance(account_id, denom) + amount)
    }

    /// The ledger after `amount` was taken from the account's collateral.
    pub open spec fn debited(
        self,
        account_id: Seq<char>,
        denom: Seq<char>,
        amount: nat,
    ) -> LedgerView
        recommends
            amount <= self.coin_balance(account_id, denom),
    {
        self.with_coin_balance(
            account_id,
            denom,
            (self.coin_balance(account_id, denom) - amount) as nat,
        )
    }

    /// The ledger after `shares` debt shares in the denom were issued to the
    /// account: its own balance and the pool's total rise together.
    pub open spec fn with_shares_issued(
        self,
        account_id: Seq<char>,
        denom: Seq<char>,
        shares: nat,
    ) -> LedgerView {
        LedgerView {
            debt_shares: stored(
                self.debt_shares,
                (account_id, denom),
                self.debt_shares_of(account_id, denom) + shares,
            ),
            total_debt_shares: stored(
                self.total_debt_shares,
                denom,
                self.total_shares(denom) + shares,
            ),
            ..self
        }
    }
}

/// Index of the entry of an account in a denom.
fn find_entry(entries: &Vec<Entry>, account_id: &String, denom: &String) -> (r: Option<usize>)
    ensures
        match r {
            Some(i) => i < entries.len() && entries[i as int]@.key == (account_id@, denom@),
            None => !contains_key(entries_view(entries@), (account_id@, denom@)),
        },
{
    let mut i: usize = 0;
    while i < entries.len()
        invariant
            i <= entries.len(),
            forall|j: int| 0 <= j < i ==> (#[trigger] entries[j])@.key != (account_id@, denom@),
        decreases entries.len() - i,
    {
        if entries[i].account_id == *account_id && entries[i].denom == *denom {
            return Some(i);
        }
        i += 1;
    }
    assert(!contains_key(entries_view(entries@), (account_id@, denom@))) by {
        if contains_key(entries_view(entries@), (account_id@, denom@)) {
            let k = key_index(entries_view(entries@), (account_id@, denom@));
            assert(entries[k]@.key == (account_id@, denom@));
        }
    }
    None
}

/// Amount booked for an account in a denom.
fn entry_amount(entries: &Vec<Entry>, account_id: &String, denom: &String) -> (r: u128)
    requires
        distinct_keys(entries_view(entries@)),
    ensures
        r == lookup(entries_view(entries@), (account_id@, denom@)),
{
    match find_entry(entries, account_id, denom) {
        Some(i) => {
            proof {
                lemma_lookup_at(entries_view(entries@), i as int);
            }
            entries[i].amount
        },
        None => 0,
    }
}

/// Books an amount for an account in a denom.
fn store_entry(entries: &mut Vec<Entry>, account_id: &String, denom: &String, amount: u128)
    requires
        distinct_keys(entries_view(old(entries)@)),
    ensures
        entries_view(final(entries)@) == stored(
            entries_view(old(entries)@),
            (account_id@, denom@),
            amount as nat,
        ),
{
    let entry = Entry { account_id: account_id.clone(), denom: denom.clone(), amount };
    let ghost before = entries_view(entries@);
    match find_entry(entries, account_id, denom) {
        Some(i) => {
            proof {
                lemma_lookup_at(before, i as int);
            }
            entries.set(i, entry);
            assert(entries_view(entries@) =~= stored(before, (account_id@, denom@), amount as nat));
        },
        None => {
            entries.push(entry);
            assert(entries_view(entries@) =~= stored(before, (account_id@, denom@), amount as nat));
        },
    }
}

/// Index of the total of a denom.
fn find_total(totals: &Vec<Coin>, denom: &String) -> (r: Option<usize>)
    ensures
        match r {
            Some(i) => i < totals.len() && totals[i as int].denom@ == denom@,
            None => !contains_key(totals_view(totals@), denom@),
        },
{
    let mut i: usize = 0;
    while i < totals.len()
        invariant
            i <= totals.len(),
            forall|j: int| 0 <= j < i ==> (#[trigger] totals[j]).denom@ != denom@,
        decreases totals.len() - i,
    {
        if totals[i].denom == *denom {
            return Some(i);
        }
        i += 1;
    }
    assert(!contains_key(totals_view(totals@), denom@)) by {
        if contains_key(totals_view(totals@), denom@) {
            let k = key_index(totals_view(totals@), denom@);
            assert(totals[k].denom@ == denom@);
        }
    }
    None
}

/// Total booked for a denom.
pub(crate) fn total_amount(totals: &Vec<Coin>, denom: &String) -> (r: u128)
    requires
        distinct_keys(totals_view(totals@)),
    ensures
        r == lookup(totals_view(totals@), denom@),
{
    match find_total(totals, denom) {
        Some(i) => {
            proof {
                lemma_lookup_at(totals_view(totals@), i as int);
            }
            totals[i].amount
        },
        None => 0,
    }
}

/// Books the total of a denom.
pub(crate) fn store_total(totals: &mut Vec<Coin>, denom: &String, amount: u128)
    requires
        distinct_keys(totals_view(old(totals)@)),
    ensures
        totals_view(final(totals)@) == stored(totals_view(old(totals)@), denom@, amount as nat),
{
    let total = Coin { denom: denom.clone(), amount };
    let ghost before = totals_view(totals@);
    match find_total(totals, denom) {
        Some(i) => {
            proof {
                lemma_lookup_at(before, i as int);
            }
            totals.set(i, total);
            assert(totals_view(totals@) =~= stored(before, denom@, amount as nat));
        },
        None => {
            totals.push(total);
            assert(totals_view(totals@) =~= stored(before, denom@, amount as nat));
        },
    }
}

/// A copy of a list of entries.
fn clone_entries(entries: &Vec<Entry>) -> (r: Vec<Entry>)
    ensures
        entries_view(r@) == entries_view(entries@),
{
    let mut out: Vec<Entry> = Vec::new();
    let mut i: usize = 0;
    while i < entries.len()
        invariant
            i <= entries.len(),
            out.len() == i,
            forall|j: int| 0 <= j < i ==> (#[trigger] out[j])@ == entries[j]@,
        decreases entries.len() - i,
    {
        out.push(entries[i].clone());
        i += 1;
    }
    assert(entries_view(out@) =~= entries_view(entries@));
    out
}

/// A copy of a list of totals.
fn clone_totals(totals: &Vec<Coin>) -> (r: Vec<Coin>)
    ensures
        totals_view(r@) == totals_view(totals@),
{
    let mut out: Vec<Coin> = Vec::new();
    let mut i: usize = 0;
    while i < totals.len()
        invariant
            i <= totals.len(),
            out.len() == i,
            forall|j: int| 0 <= j < i ==> (#[trigger] out[j])@ == totals[j]@,
        decreases totals.len() - i,
    {
        out.push(totals[i].clone());
        i += 1;
    }
    assert(totals_view(out@) =~= totals_view(totals@));
    out
}

/// A copy of a list of unlocking amounts.
fn clone_unlocking(list: &Vec<Unlocking>) -> (r: Vec<Unlocking>)
    ensures
        unlocking_view(r@) == unlocking_view(list@),
{
    let mut out: Vec<Unlocking> = Vec::new();
    let mut i: usize = 0;
    while i < list.len()
        invariant
            i <= list.len(),
            out.len() == i,
            forall|j: int| 0 <= j < i ==> (#[trigger] out[j])@ == list[j]@,
        decreases list.len() - i,
    {
        out.push(list[i].clone());
        i += 1;
    }
    assert(unlocking_view(out@) =~= unlocking_view(list@));
    out
}

/// The debt side of the ledger: shares per account and totals per denom.
struct DebtBook {
    shares: Vec<Entry>,
    totals: Vec<Coin>,
}

/// The ledger store. Its balances change only through the operations below,
/// each of which either takes full effect or none. An operation takes the
/// list that it changes out of the ledger and puts it back when it is done, so
/// that the ledger is well-formed at every point in between.
pub struct Ledger {
    coins: Vec<Entry>,
    debt: DebtBook,
    unlocking: Vec<Unlocking>,
}

impl View for Ledger {
    type V = LedgerView;

    closed spec fn view(&self) -> LedgerView {
        LedgerView {
            coins: entries_view(self.coins@),
            debt_shares: entries_view(self.debt.shares@),
            total_debt_shares: totals_view(self.debt.totals@),
            unlocking: unlocking_view(self.unlocking@),
        }
    }
}

impl Ledger {
    /// What holds of every value of this type.
    #[verifier::type_invariant]
    pub open spec fn inv(self) -> bool {
        self@.wf()
    }

    /// A ledger without any balance.
    pub fn new() -> (r: Ledger)
        ensures
            r@.coins.len() == 0,
            r@.debt_shares.len() == 0,
            r@.total_debt_shares.len() == 0,
            r@.unlocking.len() == 0,
            r@.wf(),
    {
        let r = Ledger {
            coins: Vec::new(),
            debt: DebtBook { shares: Vec::new(), totals: Vec::new() },
            unlocking: Vec::new(),
        };
        assert(r@.unlocking.len() == 0);
        assert(r@.total_debt_shares.len() == 0);
        assert(r@.debt_shares.len() == 0);
        assert(r@.coins.len() == 0);
        assert forall|denom: Seq<char>| #[trigger]
            sum_for_denom(r@.debt_shares, denom) == r@.total_shares(denom) by {}
        r
    }

    /// Collateral that the account holds in the denom.
    pub fn coin_balance(&self, account_id: &str, denom: &str) -> (r: u128)
        ensures
            r == self@.coin_balance(account_id@, denom@),
            self@.wf(),
    {
        proof {
            use_type_invariant(self);
        }
        entry_amount(&self.coins, &account_id.to_owned(), &denom.to_owned())
    }

    /// Adds to the account's collateral in the denom and reports the new
    /// balance. Where the sum cannot be held, nothing changes.
    pub fn increment_coin_balance(&mut self, account_id: &str, denom: &str, amount: u128) -> (r:
        Result<u128, ContractError>)
        ensures
            amount_outcome(r) == lift_overflow(
                checked_sum(old(self)@.coin_balance(account_id@, denom@), amount as nat),
            ),
            final(self)@ == if r is Ok {
                old(self)@.credited(account_id@, denom@, amount as nat)
            } else {
                old(self)@
            },
            final(self)@.wf(),
    {
        proof {
            use_type_invariant(&*self);
        }
        let account = account_id.to_owned();
        let name = denom.to_owned();
        let current = entry_amount(&self.coins, &account, &name);
        match uint128_checked_add(current, amount) {
            Ok(sum) => {
                proof {
                    lemma_with_coin_balance(self@, account_id@, denom@, sum as nat);
                }
                let mut coins: Vec<Entry> = Vec::new();
                std::mem::swap(&mut self.coins, &mut coins);
                store_entry(&mut coins, &account, &name, sum);
                self.coins = coins;
                Ok(sum)
            },
            Err(e) => Err(ContractError::Overflow(e)),
        }
    }

    /// Takes from the account's collateral in the denom and reports the new
    /// balance. Where the account holds less than `amount`, nothing changes.
    pub fn decrement_coin_balance(&mut self, account_id: &str, denom: &str, amount: u128) -> (r:
        Result<u128, ContractError>)
        ensures
            amount_outcome(r) == lift_overflow(
                checked_difference(old(self)@.coin_balance(account_id@, denom@), amount as nat),
            ),
            final(self)@ == if r is Ok {
                old(self)@.debited(account_id@, denom@, amount as nat)
            } else {
                old(self)@
            },
            final(self)@.wf(),
    {
        proof {
            use_type_invariant(&*self);
        }
        let account = account_id.to_owned();
        let name = denom.to_owned();
        let current = entry_amount(&self.coins, &account, &name);
        match uint128_checked_sub(current, amount) {
            Ok(rest) => {
                proof {
                    lemma_with_coin_balance(self@, account_id@, denom@, rest as nat);
                }
                let mut coins: Vec<Entry> = Vec::new();
                std::mem::swap(&mut self.coins, &mut coins);
                store_entry(&mut coins, &account, &name, rest);
                self.coins = coins;
                Ok(rest)
            },
            Err(e) => Err(ContractError::Overflow(e)),
        }
    }

    /// Debt shares that the account holds in the denom.
    pub fn debt_shares(&self, account_id: &str, denom: &str) -> (r: u128)
        ensures
            r == self@.debt_shares_of(account_id@, denom@),
            self@.wf(),
    {
        proof {
            use_type_invariant(self);
        }
        entry_amount(&self.debt.shares, &account_id.to_owned(), &denom.to_owned())
    }

    /// Debt shares of the whole pool in the denom.
    pub fn total_debt_shares(&self, denom: &str) -> (r: u128)
        ensures
            r == self@.total_shares(denom@),
            self@.wf(),
    {
        proof {
            use_type_invariant(self);
        }
        total_amount(&self.debt.totals, &denom.to_owned())
    }

    /// Issues `shares` debt shares in the denom to the account: the pool's
    /// total and the account's own balance rise together, and the account's
    /// new balance is reported. Where the total cannot hold the sum, nothing
    /// changes.
    pub fn increment_debt_shares(&mut self, account_id: &str, denom: &str, shares: u128) -> (r:
        Result<u128, ContractError>)
        ensures
            r is Ok <==> old(self)@.total_shares(denom@) + shares <= u128::MAX,
            r is Ok ==> r->Ok_0 == old(self)@.debt_shares_of(account_id@, denom@) + shares,
            r is Err ==> r->Err_0@ == lift_overflow(
                checked_sum(old(self)@.total_shares(denom@), shares as nat),
            )->Err_0,
            final(self)@ == if r is Ok {
                old(self)@.with_shares_issued(account_id@, denom@, shares as nat)
            } else {
                old(self)@
            },
            final(self)@.wf(),
    {
        proof {
            use_type_invariant(&*self);
        }
        let account = account_id.to_owned();
        let name = denom.to_owned();
        let total = total_amount(&self.debt.totals, &name);
        let held = entry_amount(&self.debt.shares, &account, &name);
        proof {
            lemma_sum_stored(self@.debt_shares, (account_id@, denom@), held as nat, denom@);
            assert(held <= total);
        }
        match uint128_checked_add(total, shares) {
            Ok(new_total) => {
                let new_held = held + shares;
                proof {
                    lemma_shares_issued(self@, account_id@, denom@, shares as nat);
                }
                let mut debt = DebtBook { shares: Vec::new(), totals: Vec::new() };
                std::mem::swap(&mut self.debt, &mut debt);
                store_total(&mut debt.totals, &name, new_total);
                store_entry(&mut debt.shares, &account, &name, new_held);
                self.debt = debt;
                Ok(new_held)
            },
            Err(e) => Err(ContractError::Overflow(e)),
        }
    }

    /// Records that a vault is releasing `amount` to the account under `id`.
    pub fn add_unlocking_position(&mut self, account_id: &str, vault: &str, id: u64, amount: u128)
        ensures
            final(self)@ == (LedgerView {
                unlocking: old(self)@.unlocking.push(
                    UnlockingView {
                        account_id: account_id@,
                        vault: vault@,
                        id,
                        amount: amount as nat,
                    },
                ),
                ..old(self)@
            }),
            final(self)@.wf(),
    {
        proof {
            use_type_invariant(&*self);
        }
        let mut list: Vec<Unlocking> = Vec::new();
        std::mem::swap(&mut self.unlocking, &mut list);
        list.push(
            Unlocking { account_id: account_id.to_owned(), vault: vault.to_owned(), id, amount },
        );
        self.unlocking = list;
        assert(self@.unlocking =~= old(self)@.unlocking.push(
            UnlockingView { account_id: account_id@, vault: vault@, id, amount: amount as nat },
        ));
    }

    /// Whether the account holds a position in the vault.
    pub fn holds_in_vault(&self, account_id: &str, vault: &str) -> (r: bool)
        ensures
            r == self@.holds_in_vault(account_id@, vault@),
    {
        let account = account_id.to_owned();
        let name = vault.to_owned();
        let mut i: usize = 0;
        while i < self.unlocking.len()
            invariant
                i <= self.unlocking.len(),
                account@ == account_id@,
                name@ == vault@,
                self@.unlocking.len() == self.unlocking.len(),
                forall|j: int|
                    0 <= j < self.unlocking.len() ==> (#[trigger] self@.unlocking[j])
                        == self.unlocking[j]@,
                forall|j: int|
                    0 <= j < i ==> !((#[trigger] self@.unlocking[j]).account_id == account_id@
                        && self@.unlocking[j].vault == vault@),
            decreases self.unlocking.len() - i,
        {
            if self.unlocking[i].account_id == account && self.unlocking[i].vault == name {
                assert(self@.unlocking[i as int].account_id == account_id@);
                return true;
            }
            i += 1;
        }
        false
    }

    /// Index of the oldest release with this id from the vault to the
    /// account.
    fn find_unlocking(&self, account_id: &str, vault: &str, id: u64) -> (r: Option<usize>)
        ensures
            r is Some <==> self@.has_unlocking(account_id@, vault@, id),
            r is Some ==> r->Some_0 == self@.unlocking_index(account_id@, vault@, id)
                && self@.first_unlocking_at(r->Some_0 as int, account_id@, vault@, id)
                && r->Some_0 < self.unlocking.len() && self.unlocking[r->Some_0 as int]@
                == self@.unlocking[r->Some_0 as int],
    {
        let account = account_id.to_owned();
        let name = vault.to_owned();
        let mut i: usize = 0;
        while i < self.unlocking.len()
            invariant
                i <= self.unlocking.len(),
                account@ == account_id@,
                name@ == vault@,
                self@.unlocking.len() == self.unlocking.len(),
                forall|j: int|
                    0 <= j < self.unlocking.len() ==> (#[trigger] self@.unlocking[j])
                        == self.unlocking[j]@,
                forall|j: int| 0 <= j < i ==> !self@.unlocking_at(j, account_id@, vault@, id),
            decreases self.unlocking.len() - i,
        {
            if self.unlocking[i].id == id && self.unlocking[i].account_id == account
                && self.unlocking[i].vault == name {
                proof {
                    let v = self@;
                    assert(v.first_unlocking_at(i as int, account_id@, vault@, id));
                    let k = v.unlocking_index(account_id@, vault@, id);
                    assert(v.first_unlocking_at(k, account_id@, vault@, id));
                    if k < i {
                        assert(!v.unlocking_at(k, account_id@, vault@, id));
                    } else if i < k {
                        assert(!v.unlocking_at(i as int, account_id@, vault@, id));
                    }
                }
                return Some(i);
            }
            i += 1;
        }
        None
    }

    /// The amount of the oldest release with this id from the vault to the
    /// account, if there is one.
    pub fn unlocking_amount(&self, account_id: &str, vault: &str, id: u64) -> (r: Option<u128>)
        ensures
            r is Some <==> self@.has_unlocking(account_id@, vault@, id),
            r is Some ==> r->Some_0 == self@.unlocking[self@.unlocking_index(
                account_id@,
                vault@,
                id,
            )].amount,
    {
        match self.find_unlocking(account_id, vault, id) {
            Some(i) => Some(self.unlocking[i].amount),
            None => None,
        }
    }

    /// Strikes the oldest release with this id from the vault to the account
    /// and reports whether there was one.
    pub fn remove_unlocking(&mut self, account_id: &str, vault: &str, id: u64) -> (r: bool)
        ensures
            r == old(self)@.has_unlocking(account_id@, vault@, id),
            final(self)@ == if r {
                old(self)@.without_unlocking(account_id@, vault@, id)
            } else {
                old(self)@
            },
            final(self)@.wf(),
    {
        proof {
            use_type_invariant(&*self);
        }
        match self.find_unlocking(account_id, vault, id) {
            Some(i) => {
                let mut list: Vec<Unlocking> = Vec::new();
                std::mem::swap(&mut self.unlocking, &mut list);
                let _ = list.remove(i);
                self.unlocking = list;
                assert(self@.unlocking =~= old(self)@.unlocking.remove(i as int));
                true
            },
            None => false,
        }
    }

    /// The collateral balances of all accounts, in the order in which their
    /// keys were first booked.
    pub fn coin_entries(&self) -> (r: Vec<Entry>)
        ensures
            entries_view(r@) == self@.coins,
    {
        clone_entries(&self.coins)
    }

    /// The debt shares of all accounts, in the order in which their keys were
    /// first booked.
    pub fn debt_share_entries(&self) -> (r: Vec<Entry>)
        ensures
            entries_view(r@) == self@.debt_shares,
    {
        clone_entries(&self.debt.shares)
    }

    /// The amounts that vaults are releasing, oldest first.
    pub fn unlocking_positions(&self) -> (r: Vec<Unlocking>)
        ensures
            unlocking_view(r@) == self@.unlocking,
    {
        clone_unlocking(&self.unlocking)
    }
}

impl Clone for Ledger {
    fn clone(&self) -> (r: Ledger)
        ensures
            r@ == self@,
    {
        proof {
            use_type_invariant(self);
        }
        Ledger {
            coins: clone_entries(&self.coins),
            debt: DebtBook {
                shares: clone_entries(&self.debt.shares),
                totals: clone_totals(&self.debt.totals),
            },
            unlocking: clone_unlocking(&self.unlocking),
        }
    }
}

/// Conservation of debt shares: in a well-formed ledger the debt shares that
/// the accounts hold in a denom add up to the pool's total for that denom, and
/// no account holds more than the total.
pub proof fn lemma_conservation(v: LedgerView, account_id: Seq<char>, denom: Seq<char>)
    requires
        v.wf(),
    ensures
        sum_for_denom(v.debt_shares, denom) == v.total_shares(denom),
        v.debt_shares_of(account_id, denom) <= v.total_shares(denom),
        v.total_shares(denom) <= u128::MAX,
{
    lemma_sum_stored(
        v.debt_shares,
        (account_id, denom),
        v.debt_shares_of(account_id, denom),
        denom,
    );
    if contains_key(v.total_debt_shares, denom) {
        let k = key_index(v.total_debt_shares, denom);
        assert(v.total_debt_shares[k].amount <= u128::MAX);
    }
}

/// Issuing shares to an account keeps a well-formed ledger well-formed: the
/// denom's sum and total rise by the same amount, and no other denom moves.
pub proof fn lemma_shares_issued(
    v: LedgerView,
    account_id: Seq<char>,
    denom: Seq<char>,
    shares: nat,
)
    requires
        v.wf(),
        v.total_shares(denom) + shares <= u128::MAX,
    ensures
        v.with_shares_issued(account_id, denom, shares).wf(),
        v.debt_shares_of(account_id, denom) <= v.total_shares(denom),
        v.with_shares_issued(account_id, denom, shares).total_shares(denom) == v.total_shares(
            denom,
        ) + shares,
        v.with_shares_issued(account_id, denom, shares).debt_shares_of(account_id, denom)
            == v.debt_shares_of(account_id, denom) + shares,
        forall|d: Seq<char>|
            d != denom ==> v.with_shares_issued(account_id, denom, shares).total_shares(d)
                == v.total_shares(d),
        forall|a: Seq<char>, d: Seq<char>|
            (a, d) != (account_id, denom) ==> v.with_shares_issued(
                account_id,
                denom,
                shares,
            ).debt_shares_of(a, d) == v.debt_shares_of(a, d),
{
    let w = v.with_shares_issued(account_id, denom, shares);
    let key = (account_id, denom);
    let held = v.debt_shares_of(account_id, denom);
    lemma_sum_stored(v.debt_shares, key, held + shares, denom);
    lemma_stored(v.debt_shares, key, held + shares);
    lemma_stored(v.total_debt_shares, denom, v.total_shares(denom) + shares);
    lemma_bounded_stored(v.debt_shares, key, held + shares);
    lemma_bounded_stored(v.total_debt_shares, denom, v.total_shares(denom) + shares);
    assert forall|other: Seq<char>| #[trigger]
        sum_for_denom(w.debt_shares, other) == w.total_shares(other) by {
        lemma_sum_stored(v.debt_shares, key, held + shares, other);
        assert(sum_for_denom(v.debt_shares, other) == v.total_shares(other));
    }
}

/// Setting an account's collateral keeps a well-formed ledger well-formed,
/// yields that balance and leaves every other balance as it was.
pub proof fn lemma_with_coin_balance(
    v: LedgerView,
    account_id: Seq<char>,
    denom: Seq<char>,
    amount: nat,
)
    requires
        v.wf(),
        amount <= u128::MAX,
    ensures
        v.with_coin_balance(account_id, denom, amount).wf(),
        v.with_coin_balance(account_id, denom, amount).coin_balance(account_id, denom) == amount,
        forall|a: Seq<char>, d: Seq<char>|
            (a, d) != (account_id, denom) ==> v.with_coin_balance(
                account_id,
                denom,
                amount,
            ).coin_balance(a, d) == v.coin_balance(a, d),
{
    lemma_stored(v.coins, (account_id, denom), amount);
    lemma_bounded_stored(v.coins, (account_id, denom), amount);
}

} // verus!
