//! The coin registry: which denoms and vaults an account may use, and the
//! risk parameters of each denom.

use crate::decimal::Decimal;
use crate::error::outcome;
use crate::error::ContractError;
use crate::error::ContractErrorView;
use vstd::prelude::*;

verus! {

/// Risk parameters of one allowed denom.
#[derive(Debug, PartialEq, Eq)]
pub struct CoinParams {
    pub denom: String,
    /// Share of the denom's value that may be borrowed against.
    pub max_ltv: Decimal,
    /// Share of the denom's value at which a position may be liquidated.
    pub liquidation_threshold: Decimal,
}

pub struct CoinParamsView {
    pub denom: Seq<char>,
    pub max_ltv: nat,
    pub liquidation_threshold: nat,
}

impl View for CoinParams {
    type V = CoinParamsView;

    open spec fn view(&self) -> CoinParamsView {
        CoinParamsView {
            denom: self.denom@,
            max_ltv: self.max_ltv@,
            liquidation_threshold: self.liquidation_threshold@,
        }
    }
}

/// No denom occurs in two entries.
pub open spec fn distinct_denoms(coins: Seq<CoinParamsView>) -> bool {
    forall|i: int, j: int|
        0 <= i < j < coins.len() ==> (#[trigger] coins[i]).denom != (#[trigger] coins[j]).denom
}

/// What the registry holds.
pub struct RegistryView {
    /// The allowed denoms with their parameters, one entry per denom.
    pub coins: Seq<CoinParamsView>,
    /// The allowed vaults.
    pub vaults: Seq<Seq<char>>,
}

impl RegistryView {
    /// Whether the denom is on the allow-list.
    pub open spec fn is_whitelisted(self, denom: Seq<char>) -> bool {
        exists|i: int| 0 <= i < self.coins.len() && (#[trigger] self.coins[i]).denom == denom
    }

    /// Where the denom's entry stands; meaningful for an allowed denom.
    pub open spec fn index_of(self, denom: Seq<char>) -> int {
        choose|i: int| 0 <= i < self.coins.len() && (#[trigger] self.coins[i]).denom == denom
    }

    /// The parameters of an allowed denom.
    pub open spec fn params(self, denom: Seq<char>) -> CoinParamsView
        recommends
            self.is_whitelisted(denom),
    {
        self.coins[self.index_of(denom)]
    }

    /// The maximum loan-to-value ratio of the denom, if it is allowed.
    pub open spec fn max_ltv(self, denom: Seq<char>) -> Option<nat> {
        if self.is_whitelisted(denom) {
            Some(self.params(denom).max_ltv)
        } else {
            None
        }
    }

    /// The liquidation threshold of the denom, if it is allowed.
    pub open spec fn liquidation_threshold(self, denom: Seq<char>) -> Option<nat> {
        if self.is_whitelisted(denom) {
            Some(self.params(denom).liquidation_threshold)
        } else {
            None
        }
    }

    /// Whether the vault is on the allow-list.
    pub open spec fn is_vault_whitelisted(self, vault: Seq<char>) -> bool {
        self.vaults.contains(vault)
    }

    /// No denom has two entries.
    pub open spec fn wf(self) -> bool {
        distinct_denoms(self.coins)
    }

    /// The registry after the denom was allowed with these parameters: its
    /// entry is replaced, or added at the end.
    pub open spec fn with_coin(self, params: CoinParamsView) -> RegistryView {
        RegistryView {
            coins: if self.is_whitelisted(params.denom) {
                self.coins.update(self.index_of(params.denom), params)
            } else {
                self.coins.push(params)
            },
            ..self
        }
    }

    /// The check that every action on a denom starts with.
    pub open spec fn assert_whitelisted(self, denom: Seq<char>) -> Result<(), ContractErrorView> {
        if self.is_whitelisted(denom) {
            Ok(())
        } else {
            Err(ContractErrorView::NotWhitelisted(denom))
        }
    }
}

/// In a registry without repeated denoms an entry is the one its denom leads
/// to.
pub proof fn lemma_params_at(v: RegistryView, i: int)
    requires
        v.wf(),
        0 <= i < v.coins.len(),
    ensures
        v.is_whitelisted(v.coins[i].denom),
        v.index_of(v.coins[i].denom) == i,
        v.params(v.coins[i].denom) == v.coins[i],
{
    let denom = v.coins[i].denom;
    let j = v.index_of(denom);
    assert(0 <= j < v.coins.len() && v.coins[j].denom == denom);
    if j < i {
        assert(v.coins[j].denom != v.coins[i].denom);
    } else if i < j {
        assert(v.coins[i].denom != v.coins[j].denom);
    }
}

/// The views of a list of parameters, in order.
pub open spec fn params_view(coins: Seq<CoinParams>) -> Seq<CoinParamsView> {
    coins.map_values(|p: CoinParams| p@)
}

/// The views of a list of names, in order.
pub open spec fn names_view(names: Seq<String>) -> Seq<Seq<char>> {
    names.map_values(|n: String| n@)
}

/// The allow-list of denoms and vaults.
pub struct CoinRegistry {
    coins: Vec<CoinParams>,
    vaults: Vec<String>,
}

impl View for CoinRegistry {
    type V = RegistryView;

    closed spec fn view(&self) -> RegistryView {
        RegistryView {
            coins: params_view(self.coins@),
            vaults: names_view(self.vaults@),
        }
    }
}

impl CoinRegistry {
    /// What holds of every value of this type.
    #[verifier::type_invariant]
    pub open spec fn inv(self) -> bool {
        self@.wf()
    }

    /// A registry that allows nothing.
    pub fn new() -> (r: CoinRegistry)
        ensures
            r@.coins.len() == 0,
            r@.vaults.len() == 0,
    {
        let r = CoinRegistry { coins: Vec::new(), vaults: Vec::new() };
        assert(r@.coins.len() == 0);
        assert(r@.vaults.len() == 0);
        r
    }

    /// Index of the denom's entry.
    fn find(&self, denom: &String) -> (r: Option<usize>)
        ensures
            self@.wf(),
            match r {
                Some(i) => i < self@.coins.len() && self@.coins[i as int].denom == denom@
                    && self@.is_whitelisted(denom@) && self@.index_of(denom@) == i,
                None => !self@.is_whitelisted(denom@),
            },
    {
        proof {
            use_type_invariant(self);
        }
        let mut i: usize = 0;
        while i < self.coins.len()
            invariant
                i <= self.coins.len(),
                self@.wf(),
                self@.coins.len() == self.coins.len(),
                forall|j: int|
                    0 <= j < self.coins.len() ==> (#[trigger] self@.coins[j]) == self.coins[j]@,
                forall|j: int| 0 <= j < i ==> (#[trigger] self@.coins[j]).denom != denom@,
            decreases self.coins.len() - i,
        {
            if self.coins[i].denom == *denom {
                proof {
                    lemma_params_at(self@, i as int);
                }
                return Some(i);
            }
            i += 1;
        }
        None
    }

    /// Allows the denom with these parameters, in place of any it had.
    pub fn allow_coin(&mut self, denom: &str, max_ltv: Decimal, liquidation_threshold: Decimal)
        ensures
            final(self)@ == old(self)@.with_coin(
                CoinParamsView {
                    denom: denom@,
                    max_ltv: max_ltv@,
                    liquidation_threshold: liquidation_threshold@,
                },
            ),
            final(self)@.is_whitelisted(denom@),
            final(self)@.max_ltv(denom@) == Some(max_ltv@),
            final(self)@.liquidation_threshold(denom@) == Some(liquidation_threshold@),
    {
        let name = denom.to_owned();
        let params = CoinParams { denom: denom.to_owned(), max_ltv, liquidation_threshold };
        let ghost before = self@;
        let found = self.find(&name);
        let mut coins: Vec<CoinParams> = Vec::new();
        std::mem::swap(&mut self.coins, &mut coins);
        match found {
            Some(i) => {
                coins.set(i, params);
                let ghost after = params_view(coins@);
                assert(after =~= before.with_coin(params@).coins);
                assert forall|a: int, b: int| 0 <= a < b < after.len() implies (
                #[trigger] after[a]).denom != (#[trigger] after[b]).denom by {
                    assert(before.coins[a].denom != before.coins[b].denom);
                }
                self.coins = coins;
                proof {
                    lemma_params_at(self@, i as int);
                }
            },
            None => {
                coins.push(params);
                let ghost after = params_view(coins@);
                assert(after =~= before.with_coin(params@).coins);
                assert forall|a: int, b: int| 0 <= a < b < after.len() implies (
                #[trigger] after[a]).denom != (#[trigger] after[b]).denom by {
                    if b < before.coins.len() {
                        assert(before.coins[a].denom != before.coins[b].denom);
                    } else {
                        assert(before.coins[a].denom != denom@);
                    }
                }
                self.coins = coins;
                proof {
                    lemma_params_at(self@, self@.coins.len() - 1);
                }
            },
        }
    }

    /// Allows the vault.
    pub fn allow_vault(&mut self, vault: &str)
        ensures
            final(self)@ == (RegistryView {
                vaults: old(self)@.vaults.push(vault@),
                ..old(self)@
            }),
            final(self)@.is_vault_whitelisted(vault@),
    {
        proof {
            use_type_invariant(&*self);
        }
        let mut vaults: Vec<String> = Vec::new();
        std::mem::swap(&mut self.vaults, &mut vaults);
        vaults.push(vault.to_owned());
        self.vaults = vaults;
        assert(self@.vaults =~= old(self)@.vaults.push(vault@));
        assert(self@.vaults[self@.vaults.len() - 1] == vault@);
    }

    /// Whether the denom is on the allow-list.
    pub fn is_whitelisted(&self, denom: &str) -> (r: bool)
        ensures
            r == self@.is_whitelisted(denom@),
    {
        self.find(&denom.to_owned()).is_some()
    }

    /// Fails unless the denom is on the allow-list.
    pub fn assert_coin_is_whitelisted(&self, denom: &str) -> (r: Result<(), ContractError>)
        ensures
            outcome(r) == self@.assert_whitelisted(denom@),
    {
        if self.is_whitelisted(denom) {
            Ok(())
        } else {
            Err(ContractError::NotWhitelisted(denom.to_owned()))
        }
    }

    /// The maximum loan-to-value ratio of the denom, if it is allowed.
    pub fn max_ltv(&self, denom: &str) -> (r: Option<Decimal>)
        ensures
            r is Some <==> self@.is_whitelisted(denom@),
            r is Some ==> self@.max_ltv(denom@) == Some(r->Some_0@),
    {
        match self.find(&denom.to_owned()) {
            Some(i) => Some(self.coins[i].max_ltv),
            None => None,
        }
    }

    /// The liquidation threshold of the denom, if it is allowed.
    pub fn liquidation_threshold(&self, denom: &str) -> (r: Option<Decimal>)
        ensures
            r is Some <==> self@.is_whitelisted(denom@),
            r is Some ==> self@.liquidation_threshold(denom@) == Some(r->Some_0@),
    {
        match self.find(&denom.to_owned()) {
            Some(i) => Some(self.coins[i].liquidation_threshold),
            None => None,
        }
    }

    /// Whether the vault is on the allow-list.
    pub fn is_vault_whitelisted(&self, vault: &str) -> (r: bool)
        ensures
            r == self@.is_vault_whitelisted(vault@),
    {
        let name = vault.to_owned();
        let mut i: usize = 0;
        while i < self.vaults.len()
            invariant
                i <= self.vaults.len(),
                self@.vaults.len() == self.vaults.len(),
                forall|j: int|
                    0 <= j < self.vaults.len() ==> (#[trigger] self@.vaults[j])
                        == self.vaults[j]@,
                forall|j: int| 0 <= j < i ==> (#[trigger] self@.vaults[j]) != vault@,
                name@ == vault@,
            decreases self.vaults.len() - i,
        {
            if self.vaults[i] == name {
                assert(self@.vaults[i as int] == vault@);
                return true;
            }
            i += 1;
        }
        false
    }
}

} // verus!
