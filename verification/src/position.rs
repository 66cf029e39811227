//! The position valuator: what an account holds and owes, priced.

use crate::book::contains_key;
use crate::book::lookup;
use crate::book::AccountKey;
use crate::book::Slot;
use crate::coin::amount_of;
use crate::coin::coin_amount;
use crate::coin::coins_view;
use crate::coin::Coin;
use crate::coin::CoinView;
use crate::decimal::Decimal;
use crate::error::lift_overflow;
use crate::error::outcome;
use crate::error::ContractError;
use crate::error::ContractErrorView;
use crate::fold::lemma_try_fold_all;
use crate::fold::lemma_try_fold_failed;
use crate::fold::lemma_try_fold_next;
use crate::fold::lemma_try_fold_none;
use crate::fold::try_fold;
use crate::ledger::entries_view;
use crate::ledger::lemma_conservation;
use crate::ledger::Entry;
use crate::ledger::Ledger;
use crate::ledger::LedgerView;
use crate::math::decimal_checked_product;
use crate::math::ratio_floor;
use crate::math::scaled_atomics;
use crate::math::ten_to;
use crate::math::DECIMAL_FRACTIONAL;
use crate::oracle::PriceStore;
use crate::book::sum_for_denom;
use crate::pool::amount_for_shares;
use crate::pool::lemma_floor_superadditive;
use crate::pool::lemma_part_within_whole;
use crate::pool::shares_value;
use vstd::prelude::*;

verus! {

/// Collateral of one denom, priced.
#[derive(Debug, PartialEq, Eq)]
pub struct CoinValue {
    pub denom: String,
    pub amount: u128,
    pub price: Decimal,
    pub value: Decimal,
}

pub struct CoinValueView {
    pub denom: Seq<char>,
    pub amount: nat,
    pub price: nat,
    pub value: nat,
}

impl View for CoinValue {
    type V = CoinValueView;

    open spec fn view(&self) -> CoinValueView {
        CoinValueView {
            denom: self.denom@,
            amount: self.amount as nat,
            price: self.price@,
            value: self.value@,
        }
    }
}

/// Debt of one denom: the account's shares, the part of the pooled debt that
/// they stand for, and its value.
#[derive(Debug, PartialEq, Eq)]
pub struct DebtShareValue {
    pub denom: String,
    pub shares: u128,
    pub amount: u128,
    pub price: Decimal,
    pub value: Decimal,
}

pub struct DebtShareValueView {
    pub denom: Seq<char>,
    pub shares: nat,
    pub amount: nat,
    pub price: nat,
    pub value: nat,
}

impl View for DebtShareValue {
    type V = DebtShareValueView;

    open spec fn view(&self) -> DebtShareValueView {
        DebtShareValueView {
            denom: self.denom@,
            shares: self.shares as nat,
            amount: self.amount as nat,
            price: self.price@,
            value: self.value@,
        }
    }
}

/// What one account holds and owes. Computed on demand, never stored.
#[derive(Debug, PartialEq, Eq)]
pub struct Position {
    pub token_id: String,
    pub coins: Vec<CoinValue>,
    pub debt: Vec<DebtShareValue>,
}

pub struct PositionView {
    pub token_id: Seq<char>,
    pub coins: Seq<CoinValueView>,
    pub debt: Seq<DebtShareValueView>,
}

/// The views of a list of priced collateral, in order.
pub open spec fn coin_values_view(lines: Seq<CoinValue>) -> Seq<CoinValueView> {
    lines.map_values(|l: CoinValue| l@)
}

/// The views of a list of priced debt, in order.
pub open spec fn debt_values_view(lines: Seq<DebtShareValue>) -> Seq<DebtShareValueView> {
    lines.map_values(|l: DebtShareValue| l@)
}

impl View for Position {
    type V = PositionView;

    open spec fn view(&self) -> PositionView {
        PositionView {
            token_id: self.token_id@,
            coins: coin_values_view(self.coins@),
            debt: debt_values_view(self.debt@),
        }
    }
}

/// The value of `amount` units at `price`: the amount as a decimal, times the
/// price. Fails where the amount has no decimal or the product cannot be held.
pub open spec fn value_of(price: nat, amount: nat) -> Result<nat, ContractErrorView> {
    match scaled_atomics(amount, 0) {
        None => Err(ContractErrorView::DecimalRangeExceeded),
        Some(whole) => lift_overflow(decimal_checked_product(price, whole)),
    }
}

/// Ten to the eighteenth is the number of atomic units in one whole.
pub proof fn lemma_ten_to_18()
    ensures
        ten_to(18) == DECIMAL_FRACTIONAL,
{
    reveal_with_fuel(ten_to, 19);
}

/// A value is exact: no rounding happens when a whole amount is priced.
pub proof fn lemma_value_exact(price: nat, amount: nat)
    ensures
        value_of(price, amount) is Ok ==> value_of(price, amount) == Ok::<nat, ContractErrorView>(
            price * amount,
        ),
{
    lemma_ten_to_18();
    if value_of(price, amount) is Ok {
        let whole = amount * ten_to(18);
        let k = DECIMAL_FRACTIONAL as int;
        assert(price * whole == (price * amount) * k) by (nonlinear_arith)
            requires
                whole == amount * k,
        ;
        vstd::arithmetic::div_mod::lemma_div_multiples_vanish((price * amount) as int, k);
        assert(((price * amount) * k) == k * (price * amount)) by (nonlinear_arith);
    }
}

/// What the holders of debt shares in a denom owe when each holding is valued
/// on its own and rounded down.
pub open spec fn owed_sum(
    shares: Seq<Slot<AccountKey>>,
    denom: Seq<char>,
    pooled: nat,
    total_shares: nat,
) -> nat
    decreases shares.len(),
{
    if shares.len() == 0 {
        0
    } else {
        owed_sum(shares.drop_last(), denom, pooled, total_shares) + if shares.last().key.1
            == denom {
            ratio_floor(pooled, shares.last().amount, total_shares)
        } else {
            0
        }
    }
}

/// Holdings valued one by one are worth at most what they are worth taken
/// together.
pub proof fn lemma_owed_sum_bound(
    shares: Seq<Slot<AccountKey>>,
    denom: Seq<char>,
    pooled: nat,
    total_shares: nat,
)
    requires
        total_shares > 0,
    ensures
        owed_sum(shares, denom, pooled, total_shares) <= ratio_floor(
            pooled,
            sum_for_denom(shares, denom),
            total_shares,
        ),
    decreases shares.len(),
{
    if shares.len() > 0 {
        lemma_owed_sum_bound(shares.drop_last(), denom, pooled, total_shares);
        if shares.last().key.1 == denom {
            lemma_floor_superadditive(
                pooled,
                sum_for_denom(shares.drop_last(), denom),
                shares.last().amount,
                total_shares,
            );
        }
    } else {
        assert(pooled * 0 == 0) by (nonlinear_arith);
    }
}

/// Rounding favours the pool: whatever the pool owes in a denom, the amounts
/// that the accounts owe according to their shares, each rounded down, add up
/// to no more than that.
pub proof fn lemma_owed_amounts_within_pool(ledger: LedgerView, denom: Seq<char>, pooled: nat)
    requires
        ledger.wf(),
        ledger.total_shares(denom) > 0,
    ensures
        owed_sum(ledger.debt_shares, denom, pooled, ledger.total_shares(denom)) <= pooled,
{
    let total = ledger.total_shares(denom);
    lemma_owed_sum_bound(ledger.debt_shares, denom, pooled, total);
    assert(sum_for_denom(ledger.debt_shares, denom) == total);
    vstd::arithmetic::div_mod::lemma_div_multiples_vanish(pooled as int, total as int);
    assert(pooled * total == total * pooled) by (nonlinear_arith);
}

/// In a well-formed ledger the part of the pooled debt that a holder of debt
/// shares owes can always be computed, and it is at most the pooled debt.
pub proof fn lemma_owed_amount_defined(
    ledger: LedgerView,
    token_id: Seq<char>,
    denom: Seq<char>,
    pooled: nat,
)
    requires
        ledger.wf(),
        ledger.debt_shares_of(token_id, denom) > 0,
        pooled <= u128::MAX,
    ensures
        amount_for_shares(
            pooled,
            ledger.debt_shares_of(token_id, denom),
            ledger.total_shares(denom),
        ) is Ok,
        amount_for_shares(
            pooled,
            ledger.debt_shares_of(token_id, denom),
            ledger.total_shares(denom),
        )->Ok_0 <= pooled,
{
    lemma_conservation(ledger, token_id, denom);
    lemma_part_within_whole(
        pooled,
        ledger.debt_shares_of(token_id, denom),
        ledger.total_shares(denom),
    );
}

/// Prices `amount` units.
pub fn coin_value(price: Decimal, amount: u128) -> (r: Result<Decimal, ContractError>)
    ensures
        outcome(r) == value_of(price@, amount as nat),
        r is Ok ==> r->Ok_0@ == price@ * amount,
{
    proof {
        lemma_value_exact(price@, amount as nat);
    }
    let whole = match Decimal::from_atomics(amount, 0) {
        Ok(d) => d,
        Err(e) => {
            return Err(e);
        },
    };
    price.checked_mul(whole)
}

/// The priced line of one collateral entry.
pub open spec fn coin_line(entry: Slot<AccountKey>, prices: Seq<Slot<Seq<char>>>) -> Result<
    CoinValueView,
    ContractErrorView,
> {
    let denom = entry.key.1;
    if !contains_key(prices, denom) {
        Err(ContractErrorView::PriceNotFound(denom))
    } else {
        match value_of(lookup(prices, denom), entry.amount) {
            Err(e) => Err(e),
            Ok(value) => Ok(
                CoinValueView { denom, amount: entry.amount, price: lookup(prices, denom), value },
            ),
        }
    }
}

/// One step of listing an account's collateral: an entry of the account that
/// is not zero adds its line; any other entry adds nothing.
pub open spec fn coin_step(
    token_id: Seq<char>,
    prices: Seq<Slot<Seq<char>>>,
) -> spec_fn(Seq<CoinValueView>, Slot<AccountKey>) -> Result<
    Seq<CoinValueView>,
    ContractErrorView,
> {
    |lines: Seq<CoinValueView>, entry: Slot<AccountKey>|
        if entry.key.0 == token_id && entry.amount > 0 {
            match coin_line(entry, prices) {
                Err(e) => Err(e),
                Ok(line) => Ok(lines.push(line)),
            }
        } else {
            Ok(lines)
        }
}

/// The priced line of one debt entry: the account's part of the pooled debt,
/// rounded down, and its value.
pub open spec fn debt_line(
    entry: Slot<AccountKey>,
    ledger: LedgerView,
    prices: Seq<Slot<Seq<char>>>,
    debts: Seq<CoinView>,
) -> Result<DebtShareValueView, ContractErrorView> {
    let denom = entry.key.1;
    match amount_for_shares(amount_of(debts, denom), entry.amount, ledger.total_shares(denom)) {
        Err(e) => Err(e),
        Ok(owed) => if !contains_key(prices, denom) {
            Err(ContractErrorView::PriceNotFound(denom))
        } else {
            match value_of(lookup(prices, denom), owed) {
                Err(e) => Err(e),
                Ok(value) => Ok(
                    DebtShareValueView {
                        denom,
                        shares: entry.amount,
                        amount: owed,
                        price: lookup(prices, denom),
                        value,
                    },
                ),
            }
        },
    }
}

/// One step of listing an account's debt.
pub open spec fn debt_step(
    token_id: Seq<char>,
    ledger: LedgerView,
    prices: Seq<Slot<Seq<char>>>,
    debts: Seq<CoinView>,
) -> spec_fn(Seq<DebtShareValueView>, Slot<AccountKey>) -> Result<
    Seq<DebtShareValueView>,
    ContractErrorView,
> {
    |lines: Seq<DebtShareValueView>, entry: Slot<AccountKey>|
        if entry.key.0 == token_id && entry.amount > 0 {
            match debt_line(entry, ledger, prices, debts) {
                Err(e) => Err(e),
                Ok(line) => Ok(lines.push(line)),
            }
        } else {
            Ok(lines)
        }
}

/// The position of an account: a line for each denom in which it holds
/// collateral and a line for each denom in which it holds debt shares, each in
/// the ledger's order. `prices` is the oracle's table and `debts` what the
/// lender reports as owed by the pool, denom by denom. The first line that
/// cannot be priced decides the error, collateral before debt.
pub open spec fn position_spec(
    ledger: LedgerView,
    prices: Seq<Slot<Seq<char>>>,
    debts: Seq<CoinView>,
    token_id: Seq<char>,
) -> Result<PositionView, ContractErrorView> {
    match try_fold(Seq::empty(), ledger.coins, coin_step(token_id, prices)) {
        Err(e) => Err(e),
        Ok(coins) => match try_fold(
            Seq::empty(),
            ledger.debt_shares,
            debt_step(token_id, ledger, prices, debts),
        ) {
            Err(e) => Err(e),
            Ok(debt) => Ok(PositionView { token_id, coins, debt }),
        },
    }
}

/// Prices one collateral entry.
fn price_coin(entry: &Entry, oracle: &PriceStore) -> (r: Result<CoinValue, ContractError>)
    ensures
        outcome(r) == coin_line(entry@, oracle@),
{
    let price = match oracle.load(entry.denom.as_str()) {
        Some(p) => p,
        None => {
            return Err(ContractError::PriceNotFound(entry.denom.clone()));
        },
    };
    let value = match coin_value(price, entry.amount) {
        Ok(v) => v,
        Err(e) => {
            return Err(e);
        },
    };
    Ok(CoinValue { denom: entry.denom.clone(), amount: entry.amount, price, value })
}

/// Prices one debt entry.
fn price_debt(entry: &Entry, ledger: &Ledger, oracle: &PriceStore, debts: &Vec<Coin>) -> (r: Result<
    DebtShareValue,
    ContractError,
>)
    ensures
        outcome(r) == debt_line(entry@, ledger@, oracle@, coins_view(debts@)),
{
    let pooled = coin_amount(debts, entry.denom.as_str());
    let total = ledger.total_debt_shares(entry.denom.as_str());
    let owed = match shares_value(pooled, entry.amount, total) {
        Ok(a) => a,
        Err(e) => {
            return Err(e);
        },
    };
    let price = match oracle.load(entry.denom.as_str()) {
        Some(p) => p,
        None => {
            return Err(ContractError::PriceNotFound(entry.denom.clone()));
        },
    };
    let value = match coin_value(price, owed) {
        Ok(v) => v,
        Err(e) => {
            return Err(e);
        },
    };
    Ok(
        DebtShareValue {
            denom: entry.denom.clone(),
            shares: entry.amount,
            amount: owed,
            price,
            value,
        },
    )
}

/// Values the position of the account `token_id`: its collateral at the
/// oracle's prices, and its part of the debt that the lender reports in
/// `debts`, at the same prices. Reads the ledger and changes nothing.
pub fn value_position(
    ledger: &Ledger,
    oracle: &PriceStore,
    debts: &Vec<Coin>,
    token_id: &str,
) -> (r: Result<Position, ContractError>)
    ensures
        outcome(r) == position_spec(ledger@, oracle@, coins_view(debts@), token_id@),
{
    let account = token_id.to_owned();
    let held = ledger.coin_entries();
    let ghost held_view = entries_view(held@);
    let ghost coin_f = coin_step(token_id@, oracle@);
    let mut coins: Vec<CoinValue> = Vec::new();
    let mut i: usize = 0;
    proof {
        lemma_try_fold_none(Seq::<CoinValueView>::empty(), held_view, coin_f);
        assert(coin_values_view(coins@) =~= Seq::<CoinValueView>::empty());
    }
    while i < held.len()
        invariant
            i <= held.len(),
            account@ == token_id@,
            held_view == entries_view(held@),
            held_view == ledger@.coins,
            coin_f == coin_step(token_id@, oracle@),
            try_fold(Seq::empty(), held_view.take(i as int), coin_f) == Ok::<
                Seq<CoinValueView>,
                ContractErrorView,
            >(coin_values_view(coins@)),
        decreases held.len() - i,
    {
        proof {
            lemma_try_fold_next(Seq::<CoinValueView>::empty(), held_view, i as int, coin_f);
            assert(held_view[i as int] == held[i as int]@);
        }
        if held[i].account_id == account && held[i].amount > 0 {
            match price_coin(&held[i], oracle) {
                Ok(line) => {
                    let ghost before = coin_values_view(coins@);
                    coins.push(line);
                    assert(coin_values_view(coins@) =~= before.push(line@));
                },
                Err(e) => {
                    proof {
                        lemma_try_fold_failed(
                            Seq::<CoinValueView>::empty(),
                            held_view,
                            i + 1,
                            coin_f,
                        );
                    }
                    return Err(e);
                },
            }
        }
        i += 1;
    }
    proof {
        lemma_try_fold_all(Seq::<CoinValueView>::empty(), held_view, coin_f);
    }
    let owed = ledger.debt_share_entries();
    let ghost owed_view = entries_view(owed@);
    let ghost debt_f = debt_step(token_id@, ledger@, oracle@, coins_view(debts@));
    let mut debt: Vec<DebtShareValue> = Vec::new();
    let mut j: usize = 0;
    proof {
        lemma_try_fold_none(Seq::<DebtShareValueView>::empty(), owed_view, debt_f);
        assert(debt_values_view(debt@) =~= Seq::<DebtShareValueView>::empty());
    }
    while j < owed.len()
        invariant
            j <= owed.len(),
            account@ == token_id@,
            owed_view == entries_view(owed@),
            owed_view == ledger@.debt_shares,
            debt_f == debt_step(token_id@, ledger@, oracle@, coins_view(debts@)),
            try_fold(Seq::empty(), ledger@.coins, coin_step(token_id@, oracle@)) == Ok::<
                Seq<CoinValueView>,
                ContractErrorView,
            >(coin_values_view(coins@)),
            try_fold(Seq::empty(), owed_view.take(j as int), debt_f) == Ok::<
                Seq<DebtShareValueView>,
                ContractErrorView,
            >(debt_values_view(debt@)),
        decreases owed.len() - j,
    {
        proof {
            lemma_try_fold_next(Seq::<DebtShareValueView>::empty(), owed_view, j as int, debt_f);
            assert(owed_view[j as int] == owed[j as int]@);
        }
        if owed[j].account_id == account && owed[j].amount > 0 {
            match price_debt(&owed[j], ledger, oracle, debts) {
                Ok(line) => {
                    let ghost before = debt_values_view(debt@);
                    debt.push(line);
                    assert(debt_values_view(debt@) =~= before.push(line@));
                },
                Err(e) => {
                    proof {
                        lemma_try_fold_failed(
                            Seq::<DebtShareValueView>::empty(),
                            owed_view,
                            j + 1,
                            debt_f,
                        );
                    }
                    return Err(e);
                },
            }
        }
        j += 1;
    }
    proof {
        lemma_try_fold_all(Seq::<DebtShareValueView>::empty(), owed_view, debt_f);
    }
    Ok(Position { token_id: account, coins, debt })
}

} // verus!
