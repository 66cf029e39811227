use credit_manager::borrow::borrow;
use credit_manager::borrow::DEFAULT_DEBT_SHARES_PER_COIN_BORROWED;
use credit_manager::coin::coin_amount;
use credit_manager::coin::Coin;
use credit_manager::decimal::Decimal;
use credit_manager::deposit::deposit;
use credit_manager::error::CheckedMultiplyRatioError;
use credit_manager::error::ContractError;
use credit_manager::error::OverflowError;
use credit_manager::error::OverflowOperation;
use credit_manager::ledger::Ledger;
use credit_manager::message::Message;
use credit_manager::pool::shares_to_issue;
use credit_manager::pool::shares_value;
use credit_manager::registry::CoinRegistry;
use credit_manager::withdraw::withdraw;

fn registry() -> CoinRegistry {
    let mut registry = CoinRegistry::new();
    registry.allow_coin("uosmo", Decimal::percent(70), Decimal::percent(78));
    registry.allow_coin("uatom", Decimal::percent(82), Decimal::percent(90));
    registry
}

fn overflow(operation: OverflowOperation, a: &str, b: &str) -> ContractError {
    ContractError::Overflow(OverflowError {
        operation,
        operand1: a.to_string(),
        operand2: b.to_string(),
    })
}

/// Sum of the debt shares that the accounts hold in a denom.
fn shares_held(ledger: &Ledger, denom: &str) -> u128 {
    ledger.debt_share_entries().iter().filter(|e| e.denom == denom).map(|e| e.amount).sum()
}

fn assert_conserved(ledger: &Ledger) {
    for denom in ["uosmo", "uatom", "ujake"] {
        assert_eq!(shares_held(ledger, denom), ledger.total_debt_shares(denom));
    }
}

#[test]
fn registry_answers_for_allowed_denoms_only() {
    let mut registry = registry();
    assert!(registry.is_whitelisted("uosmo"));
    assert!(!registry.is_whitelisted("ujake"));
    assert_eq!(registry.max_ltv("uosmo"), Some(Decimal::percent(70)));
    assert_eq!(registry.liquidation_threshold("uatom"), Some(Decimal::percent(90)));
    assert_eq!(registry.max_ltv("ujake"), None);
    assert_eq!(registry.liquidation_threshold("ujake"), None);
    assert_eq!(registry.assert_coin_is_whitelisted("uatom"), Ok(()));
    assert_eq!(
        registry.assert_coin_is_whitelisted("ujake"),
        Err(ContractError::NotWhitelisted("ujake".to_string()))
    );
    registry.allow_coin("uosmo", Decimal::percent(60), Decimal::percent(65));
    assert_eq!(registry.max_ltv("uosmo"), Some(Decimal::percent(60)));
    assert_eq!(registry.liquidation_threshold("uosmo"), Some(Decimal::percent(65)));
    assert_eq!(registry.max_ltv("uatom"), Some(Decimal::percent(82)));
    assert!(!registry.is_vault_whitelisted("vault_contract_1"));
    registry.allow_vault("vault_contract_1");
    assert!(registry.is_vault_whitelisted("vault_contract_1"));
    assert!(!registry.is_vault_whitelisted("vault_contract_2"));
}

#[test]
fn coin_balances_are_kept_per_account_and_denom() {
    let mut ledger = Ledger::new();
    assert_eq!(ledger.coin_balance("1", "uosmo"), 0);
    assert_eq!(ledger.increment_coin_balance("1", "uosmo", 5), Ok(5));
    assert_eq!(ledger.increment_coin_balance("1", "uosmo", 7), Ok(12));
    assert_eq!(ledger.increment_coin_balance("2", "uosmo", 100), Ok(100));
    assert_eq!(ledger.increment_coin_balance("1", "uatom", 9), Ok(9));
    assert_eq!(ledger.decrement_coin_balance("1", "uosmo", 2), Ok(10));
    assert_eq!(ledger.coin_balance("1", "uosmo"), 10);
    assert_eq!(ledger.coin_balance("2", "uosmo"), 100);
    assert_eq!(ledger.coin_balance("1", "uatom"), 9);
    assert_eq!(ledger.coin_balance("2", "uatom"), 0);
    assert_eq!(ledger.coin_entries().len(), 3);
}

#[test]
fn coin_balance_arithmetic_is_checked() {
    let mut ledger = Ledger::new();
    ledger.increment_coin_balance("1", "uosmo", u128::MAX - 1).unwrap();
    assert_eq!(
        ledger.increment_coin_balance("1", "uosmo", 2),
        Err(overflow(OverflowOperation::Add, "340282366920938463463374607431768211454", "2"))
    );
    assert_eq!(ledger.coin_balance("1", "uosmo"), u128::MAX - 1);
    assert_eq!(ledger.increment_coin_balance("1", "uosmo", 1), Ok(u128::MAX));
    assert_eq!(
        ledger.decrement_coin_balance("2", "uosmo", 1),
        Err(overflow(OverflowOperation::Sub, "0", "1"))
    );
    assert_eq!(ledger.decrement_coin_balance("1", "uosmo", u128::MAX), Ok(0));
    assert_eq!(ledger.coin_balance("1", "uosmo"), 0);
}

#[test]
fn debt_shares_and_total_rise_together() {
    let mut ledger = Ledger::new();
    assert_eq!(ledger.increment_debt_shares("1", "uosmo", 40), Ok(40));
    assert_eq!(ledger.increment_debt_shares("2", "uosmo", 2), Ok(2));
    assert_eq!(ledger.increment_debt_shares("1", "uosmo", 1), Ok(41));
    assert_eq!(ledger.increment_debt_shares("1", "uatom", 8), Ok(8));
    assert_eq!(ledger.debt_shares("1", "uosmo"), 41);
    assert_eq!(ledger.debt_shares("2", "uosmo"), 2);
    assert_eq!(ledger.total_debt_shares("uosmo"), 43);
    assert_eq!(ledger.total_debt_shares("uatom"), 8);
    assert_eq!(ledger.total_debt_shares("ujake"), 0);
    assert_conserved(&ledger);
}

#[test]
fn debt_shares_stop_at_the_total_s_range() {
    let mut ledger = Ledger::new();
    ledger.increment_debt_shares("1", "uosmo", u128::MAX - 10).unwrap();
    assert_eq!(
        ledger.increment_debt_shares("2", "uosmo", 11),
        Err(overflow(OverflowOperation::Add, "340282366920938463463374607431768211445", "11"))
    );
    assert_eq!(ledger.debt_shares("2", "uosmo"), 0);
    assert_eq!(ledger.total_debt_shares("uosmo"), u128::MAX - 10);
    assert_eq!(ledger.increment_debt_shares("2", "uosmo", 10), Ok(10));
    assert_eq!(ledger.total_debt_shares("uosmo"), u128::MAX);
    assert_conserved(&ledger);
}

#[test]
fn a_copy_of_a_ledger_holds_the_same() {
    let mut ledger = Ledger::new();
    ledger.increment_coin_balance("1", "uosmo", 5).unwrap();
    ledger.increment_debt_shares("1", "uosmo", 40).unwrap();
    ledger.add_unlocking_position("1", "vault", 3, 10);
    let mut copy = ledger.clone();
    assert_eq!(copy.coin_entries(), ledger.coin_entries());
    assert_eq!(copy.debt_share_entries(), ledger.debt_share_entries());
    assert_eq!(copy.unlocking_positions(), ledger.unlocking_positions());
    assert_eq!(copy.total_debt_shares("uosmo"), 40);
    copy.increment_coin_balance("1", "uosmo", 1).unwrap();
    assert_eq!(ledger.coin_balance("1", "uosmo"), 5);
    assert_eq!(copy.coin_balance("1", "uosmo"), 6);
}

#[test]
fn shares_for_an_empty_pool_are_seeded() {
    assert_eq!(shares_to_issue(0, 0, 42, 1_000_000), Ok(42_000_000));
    assert_eq!(shares_to_issue(77, 0, 1, 1_000_000), Ok(1_000_000));
    assert_eq!(shares_to_issue(0, 0, 0, 1_000_000), Ok(0));
    assert_eq!(
        shares_to_issue(0, 0, u128::MAX, 1_000_000),
        Err(overflow(OverflowOperation::Mul, "340282366920938463463374607431768211455", "1000000"))
    );
}

#[test]
fn shares_for_a_pool_in_debt_are_proportional() {
    assert_eq!(shares_to_issue(50_000_000, 51, 50, 1_000_000), Ok(49_019_607));
    assert_eq!(shares_to_issue(100, 100, 99, 1_000_000), Ok(99));
    assert_eq!(shares_to_issue(5, 100, 99, 1_000_000), Ok(4));
    assert_eq!(shares_to_issue(0, 100, 99, 1_000_000), Ok(0));
    // the product leaves 128 bits, the quotient does not
    assert_eq!(shares_to_issue(u128::MAX, u128::MAX, 12, 1_000_000), Ok(12));
    assert_eq!(
        shares_to_issue(u128::MAX, 1, 2, 1_000_000),
        Err(ContractError::CheckedMultiply(CheckedMultiplyRatioError::Overflow))
    );
}

#[test]
fn the_value_of_shares_is_proportional() {
    assert_eq!(shares_value(102, 50_000_000, 99_019_607), Ok(51));
    assert_eq!(shares_value(102, 49_019_607, 99_019_607), Ok(50));
    assert_eq!(shares_value(43, 42_000_000, 42_000_000), Ok(43));
    assert_eq!(shares_value(0, 1, 10), Ok(0));
    assert_eq!(
        shares_value(5, 1, 0),
        Err(ContractError::CheckedMultiply(CheckedMultiplyRatioError::DivideByZero))
    );
    assert_eq!(
        shares_value(u128::MAX, 2, 1),
        Err(ContractError::CheckedMultiply(CheckedMultiplyRatioError::Overflow))
    );
}

#[test]
fn first_borrow_of_a_denom_seeds_the_shares() {
    let registry = registry();
    let mut ledger = Ledger::new();
    let coin = Coin::new(42, "uosmo");
    let borrowed = borrow(&mut ledger, &registry, "1", &coin, 0).unwrap();
    assert_eq!(borrowed.debt_shares_added, 42 * DEFAULT_DEBT_SHARES_PER_COIN_BORROWED);
    assert_eq!(borrowed.message, Message::Borrow { coin: Coin::new(42, "uosmo") });
    assert_eq!(ledger.total_debt_shares("uosmo"), 42_000_000);
    assert_eq!(ledger.debt_shares("1", "uosmo"), 42_000_000);
    assert_eq!(ledger.coin_balance("1", "uosmo"), 42);
    assert_conserved(&ledger);
}

#[test]
fn later_borrows_get_shares_in_proportion() {
    let registry = registry();
    let mut ledger = Ledger::new();
    borrow(&mut ledger, &registry, "1", &Coin::new(50, "uosmo"), 0).unwrap();
    let second = borrow(&mut ledger, &registry, "2", &Coin::new(50, "uosmo"), 51).unwrap();
    assert_eq!(second.debt_shares_added, 49_019_607);
    let third = borrow(&mut ledger, &registry, "1", &Coin::new(7, "uosmo"), 102).unwrap();
    assert_eq!(third.debt_shares_added, 99_019_607 * 7 / 102);
    assert_eq!(ledger.debt_shares("1", "uosmo"), 50_000_000 + 6_795_463);
    assert_eq!(ledger.debt_shares("2", "uosmo"), 49_019_607);
    assert_eq!(ledger.total_debt_shares("uosmo"), 105_815_070);
    assert_eq!(ledger.coin_balance("1", "uosmo"), 57);
    assert_eq!(ledger.coin_balance("2", "uosmo"), 50);
    assert_conserved(&ledger);
}

#[test]
fn borrow_of_nothing_fails_and_changes_nothing() {
    let registry = registry();
    let mut ledger = Ledger::new();
    borrow(&mut ledger, &registry, "1", &Coin::new(50, "uosmo"), 0).unwrap();
    let before = ledger.clone();
    assert_eq!(
        borrow(&mut ledger, &registry, "1", &Coin::new(0, "uosmo"), 51),
        Err(ContractError::NoAmount)
    );
    assert_eq!(
        borrow(&mut ledger, &registry, "1", &Coin::new(0, "ujake"), 0),
        Err(ContractError::NoAmount)
    );
    assert_eq!(ledger.coin_entries(), before.coin_entries());
    assert_eq!(ledger.debt_share_entries(), before.debt_share_entries());
    assert_eq!(ledger.total_debt_shares("uosmo"), 50_000_000);
}

#[test]
fn borrow_of_an_unlisted_denom_fails_and_changes_nothing() {
    let registry = registry();
    let mut ledger = Ledger::new();
    assert_eq!(
        borrow(&mut ledger, &registry, "1", &Coin::new(5, "ujake"), 0),
        Err(ContractError::NotWhitelisted("ujake".to_string()))
    );
    assert_eq!(ledger.coin_entries().len(), 0);
    assert_eq!(ledger.debt_share_entries().len(), 0);
    assert_eq!(ledger.total_debt_shares("ujake"), 0);
}

#[test]
fn borrow_that_overflows_changes_nothing() {
    let registry = registry();
    let mut ledger = Ledger::new();
    assert_eq!(
        borrow(&mut ledger, &registry, "1", &Coin::new(u128::MAX, "uosmo"), 0),
        Err(overflow(OverflowOperation::Mul, "340282366920938463463374607431768211455", "1000000"))
    );
    ledger.increment_coin_balance("1", "uosmo", u128::MAX - 3).unwrap();
    assert_eq!(
        borrow(&mut ledger, &registry, "1", &Coin::new(4, "uosmo"), 0),
        Err(overflow(OverflowOperation::Add, "340282366920938463463374607431768211452", "4"))
    );
    assert_eq!(ledger.total_debt_shares("uosmo"), 0);
    assert_eq!(ledger.debt_shares("1", "uosmo"), 0);
    assert_eq!(ledger.coin_balance("1", "uosmo"), u128::MAX - 3);
    ledger.increment_debt_shares("2", "uosmo", u128::MAX - 5).unwrap();
    assert_eq!(
        borrow(&mut ledger, &registry, "1", &Coin::new(1, "uosmo"), 0),
        Err(overflow(OverflowOperation::Add, "340282366920938463463374607431768211450", "1000000"))
    );
    assert_eq!(
        borrow(&mut ledger, &registry, "1", &Coin::new(3, "uosmo"), 1),
        Err(ContractError::CheckedMultiply(CheckedMultiplyRatioError::Overflow))
    );
    assert_eq!(ledger.total_debt_shares("uosmo"), u128::MAX - 5);
    assert_conserved(&ledger);
}

#[test]
fn withdraw_takes_from_the_balance_and_queues_the_transfer() {
    let registry = registry();
    let mut ledger = Ledger::new();
    deposit(&mut ledger, &registry, "1", &Coin::new(300, "uosmo")).unwrap();
    let message = withdraw(&mut ledger, &registry, "1", &Coin::new(120, "uosmo"), "user").unwrap();
    assert_eq!(
        message,
        Message::Transfer { to_address: "user".to_string(), coin: Coin::new(120, "uosmo") }
    );
    assert_eq!(ledger.coin_balance("1", "uosmo"), 180);
}

#[test]
fn withdraw_of_more_than_held_leaves_the_balance() {
    let registry = registry();
    let mut ledger = Ledger::new();
    deposit(&mut ledger, &registry, "1", &Coin::new(300, "uosmo")).unwrap();
    assert_eq!(
        withdraw(&mut ledger, &registry, "1", &Coin::new(301, "uosmo"), "user"),
        Err(overflow(OverflowOperation::Sub, "300", "301"))
    );
    assert_eq!(ledger.coin_balance("1", "uosmo"), 300);
    assert_eq!(
        withdraw(&mut ledger, &registry, "2", &Coin::new(1, "uosmo"), "user"),
        Err(overflow(OverflowOperation::Sub, "0", "1"))
    );
    assert!(withdraw(&mut ledger, &registry, "1", &Coin::new(300, "uosmo"), "user").is_ok());
    assert_eq!(ledger.coin_balance("1", "uosmo"), 0);
}

#[test]
fn withdraw_checks_amount_and_denom_first() {
    let registry = registry();
    let mut ledger = Ledger::new();
    deposit(&mut ledger, &registry, "1", &Coin::new(300, "uosmo")).unwrap();
    assert_eq!(
        withdraw(&mut ledger, &registry, "1", &Coin::new(0, "uosmo"), "user"),
        Err(ContractError::NoAmount)
    );
    assert_eq!(
        withdraw(&mut ledger, &registry, "1", &Coin::new(0, "ujake"), "user"),
        Err(ContractError::NoAmount)
    );
    assert_eq!(
        withdraw(&mut ledger, &registry, "1", &Coin::new(1, "ujake"), "user"),
        Err(ContractError::NotWhitelisted("ujake".to_string()))
    );
    assert_eq!(ledger.coin_balance("1", "uosmo"), 300);
    assert_eq!(ledger.coin_entries().len(), 1);
}

#[test]
fn deposit_adds_to_the_balance() {
    let registry = registry();
    let mut ledger = Ledger::new();
    assert_eq!(deposit(&mut ledger, &registry, "1", &Coin::new(300, "uosmo")), Ok(()));
    assert_eq!(deposit(&mut ledger, &registry, "1", &Coin::new(5, "uosmo")), Ok(()));
    assert_eq!(ledger.coin_balance("1", "uosmo"), 305);
    assert_eq!(deposit(&mut ledger, &registry, "1", &Coin::new(0, "uatom")), Ok(()));
    assert_eq!(ledger.coin_entries().len(), 1);
    assert_eq!(
        deposit(&mut ledger, &registry, "1", &Coin::new(0, "ujake")),
        Err(ContractError::NotWhitelisted("ujake".to_string()))
    );
    assert_eq!(
        deposit(&mut ledger, &registry, "1", &Coin::new(u128::MAX, "uosmo")),
        Err(overflow(OverflowOperation::Add, "305", "340282366920938463463374607431768211455"))
    );
    assert_eq!(ledger.coin_balance("1", "uosmo"), 305);
}

#[test]
fn coin_amount_finds_the_first_coin_of_a_denom() {
    let coins = vec![Coin::new(5, "uosmo"), Coin::new(7, "uatom"), Coin::new(9, "uosmo")];
    assert_eq!(coin_amount(&coins, "uosmo"), 5);
    assert_eq!(coin_amount(&coins, "uatom"), 7);
    assert_eq!(coin_amount(&coins, "ujake"), 0);
    assert_eq!(coin_amount(&vec![], "uosmo"), 0);
}

#[test]
fn borrow_from_a_pool_that_owes_without_shares_issues_none() {
    let registry = registry();
    let mut ledger = Ledger::new();
    // the lender reports a debt although no shares are outstanding
    let borrowed = borrow(&mut ledger, &registry, "1", &Coin::new(50, "uosmo"), 3).unwrap();
    assert_eq!(borrowed.debt_shares_added, 0);
    assert_eq!(ledger.total_debt_shares("uosmo"), 0);
    assert_eq!(ledger.debt_shares("1", "uosmo"), 0);
    assert_eq!(ledger.coin_balance("1", "uosmo"), 50);
    assert_conserved(&ledger);
}

#[test]
fn overflow_operands_are_written_in_decimal() {
    let mut ledger = Ledger::new();
    let mut x: u128 = 5;
    for i in 0..40u32 {
        x = x.wrapping_mul(6_364_136_223_846_793_005).wrapping_add(1_442_695_040_888_963_407);
        let held = x >> (i % 100);
        let account = i.to_string();
        ledger.increment_coin_balance(&account, "uosmo", held).unwrap();
        assert_eq!(
            ledger.increment_coin_balance(&account, "uosmo", u128::MAX - held + 1),
            Err(overflow(
                OverflowOperation::Add,
                &held.to_string(),
                &(u128::MAX - held + 1).to_string()
            ))
        );
        if held < u128::MAX {
            assert_eq!(
                ledger.decrement_coin_balance(&account, "uosmo", held + 1),
                Err(overflow(OverflowOperation::Sub, &held.to_string(), &(held + 1).to_string()))
            );
        }
    }
}
