use credit_manager::batch::Action::Borrow;
use credit_manager::batch::Action::Deposit;
use credit_manager::borrow::DEFAULT_DEBT_SHARES_PER_COIN_BORROWED;
use credit_manager::batch::run_batch;
use credit_manager::batch::Action;
use credit_manager::batch::Step;
use credit_manager::coin::Coin;
use credit_manager::decimal::Decimal;
use credit_manager::error::ContractError;
use credit_manager::ledger::Ledger;
use credit_manager::message::Message;
use credit_manager::oracle::instantiate;
use credit_manager::oracle::CoinPrice;
use credit_manager::oracle::InstantiateMsg;
use credit_manager::oracle::PriceStore;
use credit_manager::position::value_position;
use credit_manager::position::Position;
use credit_manager::registry::CoinRegistry;

#[allow(dead_code)]
const DEFAULT_RED_BANK_COIN_BALANCE: u128 = 1_000_000;
const ROVER: &str = "rover";
#[allow(dead_code)]
const RED_BANK: &str = "red_bank";

#[derive(Clone, Debug, PartialEq, Eq)]
struct CoinInfo {
    denom: String,
    price: Decimal,
    max_ltv: Decimal,
    liquidation_threshold: Decimal,
}

impl CoinInfo {
    fn to_coin(&self, amount: u128) -> Coin {
        Coin::new(amount, &self.denom)
    }
}

#[allow(dead_code)]
fn uosmo_info() -> CoinInfo {
    CoinInfo {
        denom: "uosmo".to_string(),
        price: Decimal::from_atomics(25, 2).unwrap(),
        max_ltv: Decimal::from_atomics(7, 1).unwrap(),
        liquidation_threshold: Decimal::from_atomics(78, 2).unwrap(),
    }
}

#[allow(dead_code)]
fn uatom_info() -> CoinInfo {
    CoinInfo {
        denom: "uatom".to_string(),
        price: Decimal::from_atomics(102, 1).unwrap(),
        max_ltv: Decimal::from_atomics(82, 2).unwrap(),
        liquidation_threshold: Decimal::from_atomics(9, 1).unwrap(),
    }
}

#[allow(dead_code)]
fn ujake_info() -> CoinInfo {
    CoinInfo {
        denom: "ujake".to_string(),
        price: Decimal::from_atomics(23654, 4).unwrap(),
        max_ltv: Decimal::from_atomics(5, 1).unwrap(),
        liquidation_threshold: Decimal::from_atomics(55, 2).unwrap(),
    }
}

struct AccountToFund {
    addr: String,
    funds: Vec<Coin>,
}

/// Stands in for the chain around the ledger: a bank, a lender that adds one
/// unit of interest to every loan, an oracle and the owners of the accounts.
struct MockEnv {
    ledger: Ledger,
    registry: CoinRegistry,
    oracle: PriceStore,
    lender_debts: Vec<Coin>,
    bank: Vec<(String, String, u128)>,
    owners: Vec<(String, String)>,
}

struct MockEnvBuilder {
    coins: Vec<CoinInfo>,
    funded: Vec<AccountToFund>,
}

#[allow(dead_code)]
impl MockEnv {
    fn new() -> MockEnvBuilder {
        MockEnvBuilder { coins: vec![], funded: vec![] }
    }

    fn bank_balance(&self, addr: &str, denom: &str) -> u128 {
        self.bank
            .iter()
            .find(|(a, d, _)| a == addr && d == denom)
            .map(|(_, _, n)| *n)
            .unwrap_or(0)
    }

    fn set_bank_balance(&mut self, addr: &str, denom: &str, amount: u128) {
        match self.bank.iter_mut().find(|(a, d, _)| a == addr && d == denom) {
            Some(slot) => slot.2 = amount,
            None => self.bank.push((addr.to_string(), denom.to_string(), amount)),
        }
    }

    fn transfer(&mut self, from: &str, to: &str, coin: &Coin) {
        let left = self.bank_balance(from, &coin.denom) - coin.amount;
        self.set_bank_balance(from, &coin.denom, left);
        let more = self.bank_balance(to, &coin.denom) + coin.amount;
        self.set_bank_balance(to, &coin.denom, more);
    }

    fn lender_debt(debts: &[Coin], denom: &str) -> u128 {
        debts.iter().find(|c| c.denom == denom).map(|c| c.amount).unwrap_or(0)
    }

    fn lender_lend(debts: &mut Vec<Coin>, coin: &Coin) {
        // the extra unit is the interest that the lender has accrued
        let owed = Self::lender_debt(debts, &coin.denom) + coin.amount + 1;
        match debts.iter_mut().find(|c| c.denom == coin.denom) {
            Some(slot) => slot.amount = owed,
            None => debts.push(Coin::new(owed, &coin.denom)),
        }
    }

    fn create_credit_account(&mut self, owner: &str) -> Result<String, ContractError> {
        let token_id = (self.owners.len() + 1).to_string();
        self.owners.push((token_id.clone(), owner.to_string()));
        Ok(token_id)
    }

    fn owner_of(&self, token_id: &str) -> String {
        self.owners
            .iter()
            .find(|(t, _)| t == token_id)
            .map(|(_, o)| o.clone())
            .unwrap_or_default()
    }

    fn update_credit_account(
        &mut self,
        token_id: &str,
        user: &str,
        actions: Vec<Action>,
        send_funds: &[Coin],
    ) -> Result<(), ContractError> {
        let mut debts = self.lender_debts.clone();
        let mut steps = vec![];
        for action in actions {
            let pooled_debt = match &action {
                Action::Borrow(coin) => Self::lender_debt(&debts, &coin.denom),
                _ => 0,
            };
            if let Action::Borrow(coin) = &action {
                if coin.amount > 0 {
                    Self::lender_lend(&mut debts, coin);
                }
            }
            steps.push(Step { action, pooled_debt, unlocked_at: 0, previous_balances: vec![] });
        }
        let owner = self.owner_of(token_id);
        let messages = run_batch(
            &mut self.ledger,
            &self.registry,
            &self.oracle,
            token_id,
            user,
            &owner,
            &steps,
            &send_funds.to_vec(),
            0,
            &debts,
        )?;
        for coin in send_funds {
            self.transfer(user, ROVER, coin);
        }
        for message in messages {
            match message {
                Message::Borrow { coin } => self.transfer(RED_BANK, ROVER, &coin),
                Message::Transfer { to_address, coin } => self.transfer(ROVER, &to_address, &coin),
                _ => {}
            }
        }
        self.lender_debts = debts;
        Ok(())
    }

    fn query_position(&self, token_id: &str) -> Position {
        value_position(&self.ledger, &self.oracle, &self.lender_debts, token_id).unwrap()
    }

    fn query_balance(&self, addr: &str, denom: &str) -> Coin {
        Coin::new(self.bank_balance(addr, denom), denom)
    }

    fn query_total_debt_shares(&self, denom: &str) -> u128 {
        self.ledger.total_debt_shares(denom)
    }

    fn query_red_bank_debt(&self, denom: &str) -> Coin {
        Coin::new(Self::lender_debt(&self.lender_debts, denom), denom)
    }
}

impl MockEnvBuilder {
    fn allowed_coins(mut self, coins: &[CoinInfo]) -> Self {
        self.coins = coins.to_vec();
        self
    }

    fn fund_account(mut self, account: AccountToFund) -> Self {
        self.funded.push(account);
        self
    }

    fn build(self) -> Result<MockEnv, ContractError> {
        let mut registry = CoinRegistry::new();
        let mut prices = vec![];
        let mut bank = vec![];
        for info in &self.coins {
            registry.allow_coin(&info.denom, info.max_ltv, info.liquidation_threshold);
            prices.push(CoinPrice { denom: info.denom.clone(), price: info.price });
            bank.push((RED_BANK.to_string(), info.denom.clone(), DEFAULT_RED_BANK_COIN_BALANCE));
        }
        for account in &self.funded {
            for coin in &account.funds {
                bank.push((account.addr.clone(), coin.denom.clone(), coin.amount));
            }
        }
        Ok(MockEnv {
            ledger: Ledger::new(),
            registry,
            oracle: instantiate(InstantiateMsg { coins: prices }),
            lender_debts: vec![],
            bank,
            owners: vec![],
        })
    }
}

fn assert_err(res: Result<(), ContractError>, err: ContractError) {
    match res {
        Ok(_) => panic!("Result was not an error"),
        Err(e) => assert_eq!(e, err),
    }
}

fn whole(amount: u128) -> Decimal {
    Decimal::from_atomics(amount, 0).unwrap()
}

#[test]
fn test_only_token_owner_can_borrow() {
    let coin_info = uosmo_info();

    let user = "user";
    let mut mock = MockEnv::new().allowed_coins(&[coin_info.clone()]).build().unwrap();
    let token_id = mock.create_credit_account(user).unwrap();

    let another_user = "another_user";
    let res = mock.update_credit_account(
        &token_id,
        another_user,
        vec![Borrow(coin_info.to_coin(12312u128))],
        &[],
    );

    assert_err(
        res,
        ContractError::NotTokenOwner { user: another_user.into(), token_id },
    )
}

#[test]
fn test_can_only_borrow_what_is_whitelisted() {
    let coin_info = uosmo_info();

    let user = "user";
    let mut mock = MockEnv::new().allowed_coins(&[coin_info]).build().unwrap();
    let token_id = mock.create_credit_account(user).unwrap();

    let res = mock.update_credit_account(
        &token_id,
        user,
        vec![Borrow(Coin { denom: "usomething".to_string(), amount: 234 })],
        &[],
    );

    assert_err(res, ContractError::NotWhitelisted(String::from("usomething")))
}

#[test]
fn test_borrowing_zero_does_nothing() {
    let coin_info = uosmo_info();

    let user = "user";
    let mut mock = MockEnv::new().allowed_coins(&[coin_info.clone()]).build().unwrap();
    let token_id = mock.create_credit_account(user).unwrap();

    let res =
        mock.update_credit_account(&token_id, user, vec![Borrow(coin_info.to_coin(0))], &[]);

    assert_err(res, ContractError::NoAmount);

    let position = mock.query_position(&token_id);
    assert_eq!(position.coins.len(), 0);
    assert_eq!(position.debt.len(), 0);
}

#[test]
fn test_cannot_borrow_above_max_ltv() {
    let coin_info = uosmo_info();
    let user = "user";
    let mut mock = MockEnv::new()
        .allowed_coins(&[coin_info.clone()])
        .fund_account(AccountToFund {
            addr: user.to_string(),
            funds: vec![Coin::new(300u128, &coin_info.denom)],
        })
        .build()
        .unwrap();
    let token_id = mock.create_credit_account(user).unwrap();

    let position = mock.query_position(&token_id);
    assert_eq!(position.coins.len(), 0);
    assert_eq!(position.debt.len(), 0);

    let res = mock.update_credit_account(
        &token_id,
        user,
        vec![Deposit(coin_info.to_coin(300)), Borrow(coin_info.to_coin(700))],
        &[Coin::new(300u128, &coin_info.denom)],
    );

    assert_err(
        res,
        ContractError::AboveMaxLTV {
            token_id: token_id.clone(),
            max_ltv_health_factor: "0.998573466476462196".to_string(),
        },
    );

    let position = mock.query_position(&token_id);
    assert_eq!(position.coins.len(), 0);
    assert_eq!(position.debt.len(), 0);
}

#[test]
fn test_success_when_new_debt_asset() {
    let coin_info = uosmo_info();
    let user = "user";
    let mut mock = MockEnv::new()
        .allowed_coins(&[coin_info.clone()])
        .fund_account(AccountToFund {
            addr: user.to_string(),
            funds: vec![Coin::new(300u128, &coin_info.denom)],
        })
        .build()
        .unwrap();
    let token_id = mock.create_credit_account(user).unwrap();

    let position = mock.query_position(&token_id);
    assert_eq!(position.coins.len(), 0);
    assert_eq!(position.debt.len(), 0);
    mock.update_credit_account(
        &token_id,
        user,
        vec![
            Deposit(Coin { denom: coin_info.denom.clone(), amount: 300 }),
            Borrow(Coin { denom: coin_info.denom.clone(), amount: 42 }),
        ],
        &[Coin::new(300u128, &coin_info.denom)],
    )
    .unwrap();

    let position = mock.query_position(&token_id);
    assert_eq!(position.coins.len(), 1);
    let asset_res = position.coins.first().unwrap();
    assert_eq!(
        asset_res.amount,
        342 // Deposit + Borrow
    );
    assert_eq!(asset_res.denom, coin_info.denom);
    assert_eq!(asset_res.price, coin_info.price);
    assert_eq!(asset_res.value, coin_info.price.checked_mul(whole(342)).unwrap());

    let debt_shares_res = position.debt.first().unwrap();
    assert_eq!(position.debt.len(), 1);
    assert_eq!(debt_shares_res.shares, 42 * DEFAULT_DEBT_SHARES_PER_COIN_BORROWED);
    assert_eq!(debt_shares_res.denom, coin_info.denom);
    let debt_amount = 42u128 + 1; // simulated yield
    assert_eq!(debt_shares_res.value, coin_info.price.checked_mul(whole(debt_amount)).unwrap());

    let coin = mock.query_balance(ROVER, &coin_info.denom);
    assert_eq!(coin.amount, 342);

    let coin = mock.query_balance(RED_BANK, &coin_info.denom);
    assert_eq!(coin.amount, DEFAULT_RED_BANK_COIN_BALANCE - 42);

    let res = mock.query_total_debt_shares(&coin_info.denom);
    assert_eq!(res, 42 * DEFAULT_DEBT_SHARES_PER_COIN_BORROWED);
}

#[test]
fn test_debt_shares_with_debt_amount() {
    let coin_info = uosmo_info();
    let user_a = "user_a";
    let user_b = "user_b";
    let mut mock = MockEnv::new()
        .allowed_coins(&[coin_info.clone()])
        .fund_account(AccountToFund {
            addr: user_a.to_string(),
            funds: vec![Coin::new(300u128, &coin_info.denom)],
        })
        .fund_account(AccountToFund {
            addr: user_b.to_string(),
            funds: vec![Coin::new(450u128, &coin_info.denom)],
        })
        .build()
        .unwrap();
    let token_id_a = mock.create_credit_account(user_a).unwrap();
    let token_id_b = mock.create_credit_account(user_b).unwrap();

    mock.update_credit_account(
        &token_id_a,
        user_a,
        vec![Deposit(coin_info.to_coin(300)), Borrow(coin_info.to_coin(50))],
        &[Coin::new(300u128, &coin_info.denom)],
    )
    .unwrap();

    let interim_red_bank_debt = mock.query_red_bank_debt(&coin_info.denom);

    mock.update_credit_account(
        &token_id_b,
        user_b,
        vec![Deposit(coin_info.to_coin(450)), Borrow(coin_info.to_coin(50))],
        &[Coin::new(450u128, &coin_info.denom)],
    )
    .unwrap();

    let token_a_shares = 50 * DEFAULT_DEBT_SHARES_PER_COIN_BORROWED;
    let position = mock.query_position(&token_id_a);
    let debt_position_a = position.debt.first().unwrap();
    assert_eq!(debt_position_a.shares, token_a_shares);
    assert_eq!(debt_position_a.denom, coin_info.denom);

    let token_b_shares =
        50 * DEFAULT_DEBT_SHARES_PER_COIN_BORROWED * 50 / interim_red_bank_debt.amount;
    let position = mock.query_position(&token_id_b);
    let debt_position_b = position.debt.first().unwrap();
    assert_eq!(debt_position_b.shares, token_b_shares);
    assert_eq!(debt_position_b.denom, coin_info.denom);

    let total = mock.query_total_debt_shares(&coin_info.denom);

    assert_eq!(total, debt_position_a.shares + debt_position_b.shares);

    let red_bank_debt = mock.query_red_bank_debt(&coin_info.denom);

    let a_amount_owed = red_bank_debt.amount * debt_position_a.shares / total;
    assert_eq!(debt_position_a.value, coin_info.price.checked_mul(whole(a_amount_owed)).unwrap());

    let b_amount_owed = red_bank_debt.amount * debt_position_b.shares / total;
    assert_eq!(debt_position_b.value, coin_info.price.checked_mul(whole(b_amount_owed)).unwrap());

    // Rounding down is expected: the two parts do not add up to the 102 owed.
    let total_owed = whole(a_amount_owed + b_amount_owed);
    assert_eq!(
        total_owed.checked_mul(coin_info.price).unwrap(),
        debt_position_a.value.checked_add(debt_position_b.value).unwrap()
    );
    assert_eq!(interim_red_bank_debt.amount, 51);
    assert_eq!(red_bank_debt.amount, 102);
    assert_eq!(token_b_shares, 49_019_607);
    assert_eq!(a_amount_owed + b_amount_owed, 101);
}
