use credit_manager::borrow::borrow;
use credit_manager::coin::Coin;
use credit_manager::decimal::Decimal;
use credit_manager::deposit::deposit;
use credit_manager::error::CheckedMultiplyRatioError;
use credit_manager::error::ContractError;
use credit_manager::error::OverflowError;
use credit_manager::error::OverflowOperation;
use credit_manager::health::check_health;
use credit_manager::health::compute_health;
use credit_manager::health::enforce_healthy_or_fail;
use credit_manager::health::Health;
use credit_manager::ledger::Ledger;
use credit_manager::oracle::PriceStore;
use credit_manager::position::coin_value;
use credit_manager::position::value_position;
use credit_manager::position::CoinValue;
use credit_manager::position::DebtShareValue;
use credit_manager::position::Position;
use credit_manager::registry::CoinRegistry;

const ONE: u128 = 1_000_000_000_000_000_000;

fn registry() -> CoinRegistry {
    let mut registry = CoinRegistry::new();
    registry.allow_coin("uosmo", Decimal::percent(70), Decimal::percent(78));
    registry.allow_coin("uatom", Decimal::percent(82), Decimal::percent(90));
    registry
}

fn oracle() -> PriceStore {
    let mut oracle = PriceStore::new();
    oracle.save("uosmo", Decimal::percent(25));
    oracle.save("uatom", Decimal::percent(1020));
    oracle
}

fn dec(atomics: u128, places: u32) -> Decimal {
    Decimal::from_atomics(atomics, places).unwrap()
}

#[test]
fn a_value_is_the_amount_times_the_price() {
    assert_eq!(coin_value(Decimal::percent(25), 342), Ok(dec(855, 1)));
    assert_eq!(coin_value(Decimal::raw(3), 5), Ok(Decimal::raw(15)));
    assert_eq!(coin_value(Decimal::percent(25), 0), Ok(Decimal::zero()));
    assert_eq!(coin_value(Decimal::zero(), 9), Ok(Decimal::zero()));
    assert_eq!(
        coin_value(Decimal::one(), 340_282_366_920_938_463_464),
        Err(ContractError::DecimalRangeExceeded)
    );
    assert_eq!(
        coin_value(dec(2, 0), 340_282_366_920_938_463_463),
        Err(ContractError::Overflow(OverflowError {
            operation: OverflowOperation::Mul,
            operand1: "2".to_string(),
            operand2: "340282366920938463463".to_string(),
        }))
    );
}

#[test]
fn position_lists_what_the_account_holds_and_owes() {
    let registry = registry();
    let oracle = oracle();
    let mut ledger = Ledger::new();
    deposit(&mut ledger, &registry, "1", &Coin::new(300, "uosmo")).unwrap();
    deposit(&mut ledger, &registry, "2", &Coin::new(9, "uosmo")).unwrap();
    deposit(&mut ledger, &registry, "1", &Coin::new(3, "uatom")).unwrap();
    borrow(&mut ledger, &registry, "1", &Coin::new(50, "uosmo"), 0).unwrap();
    borrow(&mut ledger, &registry, "2", &Coin::new(50, "uosmo"), 51).unwrap();
    let debts = vec![Coin::new(102, "uosmo")];
    let position = value_position(&ledger, &oracle, &debts, "1").unwrap();
    assert_eq!(
        position,
        Position {
            token_id: "1".to_string(),
            coins: vec![
                CoinValue {
                    denom: "uosmo".to_string(),
                    amount: 350,
                    price: Decimal::percent(25),
                    value: dec(875, 1),
                },
                CoinValue {
                    denom: "uatom".to_string(),
                    amount: 3,
                    price: Decimal::percent(1020),
                    value: dec(306, 1),
                },
            ],
            debt: vec![DebtShareValue {
                denom: "uosmo".to_string(),
                shares: 50_000_000,
                amount: 51,
                price: Decimal::percent(25),
                value: dec(1275, 2),
            }],
        }
    );
    let other = value_position(&ledger, &oracle, &debts, "2").unwrap();
    assert_eq!(other.debt[0].amount, 50);
    assert_eq!(other.debt[0].shares, 49_019_607);
    assert!(position.debt[0].amount + other.debt[0].amount <= 102);
    let nobody = value_position(&ledger, &oracle, &debts, "3").unwrap();
    assert_eq!(nobody.coins.len(), 0);
    assert_eq!(nobody.debt.len(), 0);
}

#[test]
fn position_leaves_out_what_has_gone_to_zero() {
    let registry = registry();
    let oracle = oracle();
    let mut ledger = Ledger::new();
    deposit(&mut ledger, &registry, "1", &Coin::new(300, "uosmo")).unwrap();
    ledger.decrement_coin_balance("1", "uosmo", 300).unwrap();
    deposit(&mut ledger, &registry, "1", &Coin::new(3, "uatom")).unwrap();
    let position = value_position(&ledger, &oracle, &vec![], "1").unwrap();
    assert_eq!(position.coins.len(), 1);
    assert_eq!(position.coins[0].denom, "uatom");
}

#[test]
fn position_needs_a_price_for_every_line() {
    let registry = registry();
    let mut oracle = PriceStore::new();
    oracle.save("uatom", Decimal::percent(1020));
    let mut ledger = Ledger::new();
    deposit(&mut ledger, &registry, "1", &Coin::new(3, "uatom")).unwrap();
    deposit(&mut ledger, &registry, "2", &Coin::new(3, "uosmo")).unwrap();
    assert!(value_position(&ledger, &oracle, &vec![], "1").is_ok());
    assert_eq!(
        value_position(&ledger, &oracle, &vec![], "2"),
        Err(ContractError::PriceNotFound("uosmo".to_string()))
    );
    ledger.increment_debt_shares("1", "uosmo", 10).unwrap();
    assert_eq!(
        value_position(&ledger, &oracle, &vec![Coin::new(4, "uosmo")], "1"),
        Err(ContractError::PriceNotFound("uosmo".to_string()))
    );
}

#[test]
fn owed_amount_that_leaves_the_range_is_an_error() {
    let oracle = oracle();
    let mut ledger = Ledger::new();
    ledger.increment_debt_shares("1", "uosmo", 10).unwrap();
    // more than any decimal can hold
    assert_eq!(
        value_position(&ledger, &oracle, &vec![Coin::new(u128::MAX, "uosmo")], "1"),
        Err(ContractError::DecimalRangeExceeded)
    );
    ledger.increment_debt_shares("2", "uosmo", 30).unwrap();
    let position =
        value_position(&ledger, &oracle, &vec![Coin::new(u128::MAX, "uosmo")], "1").unwrap_err();
    assert_eq!(position, ContractError::DecimalRangeExceeded);
    assert_eq!(
        credit_manager::pool::shares_value(7, 1, 0),
        Err(ContractError::CheckedMultiply(CheckedMultiplyRatioError::DivideByZero))
    );
}

#[test]
fn health_factor_is_weighted_collateral_over_debt() {
    let registry = registry();
    let oracle = oracle();
    let mut ledger = Ledger::new();
    deposit(&mut ledger, &registry, "1", &Coin::new(300, "uosmo")).unwrap();
    borrow(&mut ledger, &registry, "1", &Coin::new(700, "uosmo"), 0).unwrap();
    let debts = vec![Coin::new(701, "uosmo")];
    let health = check_health(&ledger, &registry, &oracle, &debts, "1").unwrap();
    assert_eq!(
        health,
        Health {
            max_ltv_adjusted_collateral: dec(175, 0),
            total_debt_value: dec(17525, 2),
            max_ltv_health_factor: Some(Decimal::raw(998_573_466_476_462_196)),
        }
    );
    assert!(!health.is_healthy());
    assert_eq!(
        enforce_healthy_or_fail(&ledger, &registry, &oracle, &debts, "1"),
        Err(ContractError::AboveMaxLTV {
            token_id: "1".to_string(),
            max_ltv_health_factor: "0.998573466476462196".to_string(),
        })
    );
}

#[test]
fn health_factor_of_exactly_one_passes() {
    let registry = registry();
    let oracle = oracle();
    let mut ledger = Ledger::new();
    deposit(&mut ledger, &registry, "1", &Coin::new(300, "uosmo")).unwrap();
    borrow(&mut ledger, &registry, "1", &Coin::new(700, "uosmo"), 0).unwrap();
    let debts = vec![Coin::new(700, "uosmo")];
    let health = check_health(&ledger, &registry, &oracle, &debts, "1").unwrap();
    assert_eq!(health.max_ltv_health_factor, Some(Decimal::raw(ONE)));
    assert!(health.is_healthy());
    assert_eq!(enforce_healthy_or_fail(&ledger, &registry, &oracle, &debts, "1"), Ok(()));
    let more = vec![Coin::new(699, "uosmo")];
    assert_eq!(enforce_healthy_or_fail(&ledger, &registry, &oracle, &more, "1"), Ok(()));
}

#[test]
fn an_account_without_debt_is_healthy() {
    let registry = registry();
    let oracle = oracle();
    let mut ledger = Ledger::new();
    let empty = check_health(&ledger, &registry, &oracle, &vec![], "1").unwrap();
    assert_eq!(
        empty,
        Health {
            max_ltv_adjusted_collateral: Decimal::zero(),
            total_debt_value: Decimal::zero(),
            max_ltv_health_factor: None,
        }
    );
    assert!(empty.is_healthy());
    deposit(&mut ledger, &registry, "1", &Coin::new(3, "uatom")).unwrap();
    let health = check_health(&ledger, &registry, &oracle, &vec![], "1").unwrap();
    assert_eq!(health.max_ltv_adjusted_collateral, dec(25092, 3));
    assert_eq!(health.max_ltv_health_factor, None);
    assert_eq!(enforce_healthy_or_fail(&ledger, &registry, &oracle, &vec![], "1"), Ok(()));
    // shares whose part of the pooled debt rounds to nothing owe nothing
    ledger.increment_debt_shares("1", "uosmo", 1).unwrap();
    ledger.increment_debt_shares("2", "uosmo", 1_000).unwrap();
    let rounded = check_health(&ledger, &registry, &oracle, &vec![Coin::new(5, "uosmo")], "1");
    assert_eq!(rounded.unwrap().max_ltv_health_factor, None);
}

#[test]
fn debt_without_collateral_has_factor_zero() {
    let registry = registry();
    let oracle = oracle();
    let mut ledger = Ledger::new();
    ledger.increment_debt_shares("1", "uosmo", 10).unwrap();
    let debts = vec![Coin::new(4, "uosmo")];
    let health = check_health(&ledger, &registry, &oracle, &debts, "1").unwrap();
    assert_eq!(health.max_ltv_health_factor, Some(Decimal::zero()));
    assert_eq!(
        enforce_healthy_or_fail(&ledger, &registry, &oracle, &debts, "1"),
        Err(ContractError::AboveMaxLTV {
            token_id: "1".to_string(),
            max_ltv_health_factor: "0".to_string(),
        })
    );
}

#[test]
fn collateral_in_a_denom_without_parameters_cannot_be_weighed() {
    let oracle = oracle();
    let mut ledger = Ledger::new();
    ledger.increment_coin_balance("1", "uosmo", 10).unwrap();
    let position = value_position(&ledger, &oracle, &vec![], "1").unwrap();
    assert_eq!(
        compute_health(&position, &CoinRegistry::new()),
        Err(ContractError::NotWhitelisted("uosmo".to_string()))
    );
    assert!(compute_health(&position, &registry()).is_ok());
}

#[test]
fn health_sums_that_leave_the_range_are_errors() {
    let registry = registry();
    let line = |value: u128| CoinValue {
        denom: "uosmo".to_string(),
        amount: 1,
        price: Decimal::one(),
        value: Decimal::raw(value),
    };
    let position = Position {
        token_id: "1".to_string(),
        coins: vec![line(u128::MAX), line(u128::MAX)],
        debt: vec![],
    };
    assert_eq!(
        compute_health(&position, &registry),
        Err(ContractError::Overflow(OverflowError {
            operation: OverflowOperation::Add,
            operand1: "238197656844656924424.362225202237748018".to_string(),
            operand2: "238197656844656924424.362225202237748018".to_string(),
        }))
    );
    let owes = |value: u128| DebtShareValue {
        denom: "uosmo".to_string(),
        shares: 1,
        amount: 1,
        price: Decimal::one(),
        value: Decimal::raw(value),
    };
    let position = Position {
        token_id: "1".to_string(),
        coins: vec![line(u128::MAX)],
        debt: vec![owes(1)],
    };
    assert_eq!(
        compute_health(&position, &registry),
        Err(ContractError::CheckedFromRatio(
            credit_manager::error::CheckedFromRatioError::Overflow
        ))
    );
}
