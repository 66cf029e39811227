//! The health checker: whether what an account owes is covered by what it
//! holds, each denom counted at its maximum loan-to-value ratio.

use crate::book::Slot;
use crate::coin::coins_view;
use crate::coin::Coin;
use crate::coin::CoinView;
use crate::decimal::lift_quotient;
use crate::decimal::Decimal;
use crate::error::lift_overflow;
use crate::error::outcome;
use crate::error::ContractError;
use crate::error::ContractErrorView;
use crate::fold::lemma_try_fold_all;
use crate::fold::lemma_try_fold_failed;
use crate::fold::lemma_try_fold_next;
use crate::fold::lemma_try_fold_none;
use crate::fold::try_fold;
use crate::ledger::Ledger;
use crate::ledger::LedgerView;
use crate::math::decimal_checked_product;
use crate::math::decimal_checked_quotient;
use crate::math::decimal_checked_sum;
use crate::math::decimal_display;
use crate::math::DECIMAL_FRACTIONAL;
use crate::oracle::PriceStore;
use crate::position::coin_values_view;
use crate::position::debt_values_view;
use crate::position::position_spec;
use crate::position::value_position;
use crate::position::CoinValueView;
use crate::position::DebtShareValueView;
use crate::position::Position;
use crate::position::PositionView;
use crate::registry::CoinRegistry;
use crate::registry::RegistryView;
use vstd::prelude::*;

verus! {

/// The health of a position.
#[derive(Clone, Copy, Debug, PartialEq, Eq)]
pub struct Health {
    /// Value of the collateral, each denom counted at its maximum
    /// loan-to-value ratio.
    pub max_ltv_adjusted_collateral: Decimal,
    /// Value of the debt.
    pub total_debt_value: Decimal,
    /// The first divided by the second; none where nothing is owed.
    pub max_ltv_health_factor: Option<Decimal>,
}

pub struct HealthView {
    pub max_ltv_adjusted_collateral: nat,
    pub total_debt_value: nat,
    pub max_ltv_health_factor: Option<nat>,
}

impl View for Health {
    type V = HealthView;

    open spec fn view(&self) -> HealthView {
        HealthView {
            max_ltv_adjusted_collateral: self.max_ltv_adjusted_collateral@,
            total_debt_value: self.total_debt_value@,
            max_ltv_health_factor: match self.max_ltv_health_factor {
                Some(f) => Some(f@),
                None => None,
            },
        }
    }
}

impl HealthView {
    /// A position is healthy where nothing is owed or the factor is at least
    /// one.
    pub open spec fn is_healthy(self) -> bool {
        match self.max_ltv_health_factor {
            None => true,
            Some(f) => f >= DECIMAL_FRACTIONAL,
        }
    }
}

impl Health {
    /// Whether nothing is owed or the factor is at least one.
    pub fn is_healthy(&self) -> (r: bool)
        ensures
            r == self@.is_healthy(),
    {
        match self.max_ltv_health_factor {
            None => true,
            Some(f) => f.atomics() >= DECIMAL_FRACTIONAL,
        }
    }
}

/// One step of adding up collateral: the line's value times the maximum
/// loan-to-value ratio of its denom joins the sum.
pub open spec fn weigh_step(registry: RegistryView) -> spec_fn(nat, CoinValueView) -> Result<
    nat,
    ContractErrorView,
> {
    |sum: nat, line: CoinValueView|
        match registry.max_ltv(line.denom) {
            None => Err(ContractErrorView::NotWhitelisted(line.denom)),
            Some(max_ltv) => match decimal_checked_product(line.value, max_ltv) {
                Err(e) => Err(ContractErrorView::Overflow(e)),
                Ok(weighted) => lift_overflow(decimal_checked_sum(sum, weighted)),
            },
        }
}

/// One step of adding up debt.
pub open spec fn owe_step() -> spec_fn(nat, DebtShareValueView) -> Result<nat, ContractErrorView> {
    |sum: nat, line: DebtShareValueView| lift_overflow(decimal_checked_sum(sum, line.value))
}

/// The health of a position: the factor is the collateral, counted at each
/// denom's maximum loan-to-value ratio, divided by the debt, and there is none
/// where the debt is zero.
pub open spec fn health_spec(position: PositionView, registry: RegistryView) -> Result<
    HealthView,
    ContractErrorView,
> {
    match try_fold(0nat, position.coins, weigh_step(registry)) {
        Err(e) => Err(e),
        Ok(adjusted) => match try_fold(0nat, position.debt, owe_step()) {
            Err(e) => Err(e),
            Ok(owed) => if owed == 0 {
                Ok(
                    HealthView {
                        max_ltv_adjusted_collateral: adjusted,
                        total_debt_value: owed,
                        max_ltv_health_factor: None,
                    },
                )
            } else {
                match lift_quotient(decimal_checked_quotient(adjusted, owed)) {
                    Err(e) => Err(e),
                    Ok(factor) => Ok(
                        HealthView {
                            max_ltv_adjusted_collateral: adjusted,
                            total_debt_value: owed,
                            max_ltv_health_factor: Some(factor),
                        },
                    ),
                }
            },
        },
    }
}

/// The health of an account in a ledger, at the oracle's prices and with the
/// debts that the lender reports.
pub open spec fn check_health_spec(
    ledger: LedgerView,
    registry: RegistryView,
    prices: Seq<Slot<Seq<char>>>,
    debts: Seq<CoinView>,
    token_id: Seq<char>,
) -> Result<HealthView, ContractErrorView> {
    match position_spec(ledger, prices, debts, token_id) {
        Err(e) => Err(e),
        Ok(position) => health_spec(position, registry),
    }
}

/// Passes a healthy account and fails any other, reporting its health factor
/// in decimal.
pub open spec fn enforce_spec(
    ledger: LedgerView,
    registry: RegistryView,
    prices: Seq<Slot<Seq<char>>>,
    debts: Seq<CoinView>,
    token_id: Seq<char>,
) -> Result<(), ContractErrorView> {
    match check_health_spec(ledger, registry, prices, debts, token_id) {
        Err(e) => Err(e),
        Ok(health) => match health.max_ltv_health_factor {
            None => Ok(()),
            Some(factor) => if factor >= DECIMAL_FRACTIONAL {
                Ok(())
            } else {
                Err(
                    ContractErrorView::AboveMaxLTV {
                        token_id,
                        max_ltv_health_factor: decimal_display(factor),
                    },
                )
            },
        },
    }
}

/// An account whose health factor is below one does not pass, and the error
/// carries the account and the factor.
pub proof fn lemma_unhealthy_fails(
    ledger: LedgerView,
    registry: RegistryView,
    prices: Seq<Slot<Seq<char>>>,
    debts: Seq<CoinView>,
    token_id: Seq<char>,
)
    requires
        check_health_spec(ledger, registry, prices, debts, token_id) is Ok,
        !check_health_spec(ledger, registry, prices, debts, token_id)->Ok_0.is_healthy(),
    ensures
        enforce_spec(ledger, registry, prices, debts, token_id) == Err::<(), ContractErrorView>(
            ContractErrorView::AboveMaxLTV {
                token_id,
                max_ltv_health_factor: decimal_display(
                    check_health_spec(
                        ledger,
                        registry,
                        prices,
                        debts,
                        token_id,
                    )->Ok_0.max_ltv_health_factor->Some_0,
                ),
            },
        ),
{
}

/// An account that owes nothing is healthy, whatever it holds.
pub proof fn lemma_debt_free_is_healthy(position: PositionView, registry: RegistryView)
    requires
        health_spec(position, registry) is Ok,
        health_spec(position, registry)->Ok_0.total_debt_value == 0,
    ensures
        health_spec(position, registry)->Ok_0.is_healthy(),
{
}

/// Computes the health of a position.
pub fn compute_health(position: &Position, registry: &CoinRegistry) -> (r: Result<
    Health,
    ContractError,
>)
    ensures
        outcome(r) == health_spec(position@, registry@),
{
    let ghost coins = coin_values_view(position.coins@);
    let ghost weigh = weigh_step(registry@);
    let mut adjusted = Decimal::zero();
    let mut i: usize = 0;
    proof {
        lemma_try_fold_none(0nat, coins, weigh);
    }
    while i < position.coins.len()
        invariant
            i <= position.coins.len(),
            coins == coin_values_view(position.coins@),
            weigh == weigh_step(registry@),
            try_fold(0nat, coins.take(i as int), weigh) == Ok::<nat, ContractErrorView>(adjusted@),
        decreases position.coins.len() - i,
    {
        proof {
            lemma_try_fold_next(0nat, coins, i as int, weigh);
            lemma_try_fold_failed(0nat, coins, i + 1, weigh);
            assert(coins[i as int] == position.coins[i as int]@);
        }
        let max_ltv = match registry.max_ltv(position.coins[i].denom.as_str()) {
            Some(ltv) => ltv,
            None => {
                return Err(ContractError::NotWhitelisted(position.coins[i].denom.clone()));
            },
        };
        let weighted = match position.coins[i].value.checked_mul(max_ltv) {
            Ok(w) => w,
            Err(e) => {
                return Err(e);
            },
        };
        adjusted = match adjusted.checked_add(weighted) {
            Ok(sum) => sum,
            Err(e) => {
                return Err(e);
            },
        };
        i += 1;
    }
    proof {
        lemma_try_fold_all(0nat, coins, weigh);
    }
    let ghost debt = debt_values_view(position.debt@);
    let ghost owe = owe_step();
    let mut owed = Decimal::zero();
    let mut j: usize = 0;
    proof {
        lemma_try_fold_none(0nat, debt, owe);
    }
    while j < position.debt.len()
        invariant
            j <= position.debt.len(),
            debt == debt_values_view(position.debt@),
            owe == owe_step(),
            try_fold(0nat, position@.coins, weigh_step(registry@)) == Ok::<nat, ContractErrorView>(
                adjusted@,
            ),
            try_fold(0nat, debt.take(j as int), owe) == Ok::<nat, ContractErrorView>(owed@),
        decreases position.debt.len() - j,
    {
        proof {
            lemma_try_fold_next(0nat, debt, j as int, owe);
            lemma_try_fold_failed(0nat, debt, j + 1, owe);
            assert(debt[j as int] == position.debt[j as int]@);
        }
        owed = match owed.checked_add(position.debt[j].value) {
            Ok(sum) => sum,
            Err(e) => {
                return Err(e);
            },
        };
        j += 1;
    }
    proof {
        lemma_try_fold_all(0nat, debt, owe);
    }
    if owed.is_zero() {
        return Ok(
            Health {
                max_ltv_adjusted_collateral: adjusted,
                total_debt_value: owed,
                max_ltv_health_factor: None,
            },
        );
    }
    match adjusted.checked_div(owed) {
        Ok(factor) => Ok(
            Health {
                max_ltv_adjusted_collateral: adjusted,
                total_debt_value: owed,
                max_ltv_health_factor: Some(factor),
            },
        ),
        Err(e) => Err(e),
    }
}

/// Computes the health of the account `token_id` from the ledger, the
/// oracle's prices and the debts that the lender reports.
pub fn check_health(
    ledger: &Ledger,
    registry: &CoinRegistry,
    oracle: &PriceStore,
    debts: &Vec<Coin>,
    token_id: &str,
) -> (r: Result<Health, ContractError>)
    ensures
        outcome(r) == check_health_spec(
            ledger@,
            registry@,
            oracle@,
            coins_view(debts@),
            token_id@,
        ),
{
    match value_position(ledger, oracle, debts, token_id) {
        Ok(position) => compute_health(&position, registry),
        Err(e) => Err(e),
    }
}

/// Fails with the health factor unless the account `token_id` is healthy.
pub fn enforce_healthy_or_fail(
    ledger: &Ledger,
    registry: &CoinRegistry,
    oracle: &PriceStore,
    debts: &Vec<Coin>,
    token_id: &str,
) -> (r: Result<(), ContractError>)
    ensures
        outcome(r) == enforce_spec(ledger@, registry@, oracle@, coins_view(debts@), token_id@),
{
    let health = match check_health(ledger, registry, oracle, debts, token_id) {
        Ok(h) => h,
        Err(e) => {
            return Err(e);
        },
    };
    match health.max_ltv_health_factor {
        None => Ok(()),
        Some(factor) => {
            if factor.atomics() >= DECIMAL_FRACTIONAL {
                Ok(())
            } else {
                Err(
                    ContractError::AboveMaxLTV {
                        token_id: token_id.to_owned(),
                        max_ltv_health_factor: factor.to_string(),
                    },
                )
            }
        },
    }
}

} // verus!
