//! A price oracle that answers from a table of prices set by hand.

use crate::book::contains_key;
use crate::book::distinct_keys;
use crate::book::key_index;
use crate::book::lemma_lookup_at;
use crate::book::lemma_stored;
use crate::book::lookup;
use crate::book::stored;
use crate::book::Slot;
use crate::decimal::Decimal;
use crate::error::outcome;
use crate::error::ContractError;
use crate::error::ContractErrorView;
use vstd::prelude::*;

verus! {

/// The price of one unit of a denom.
#[derive(Debug, PartialEq, Eq)]
pub struct CoinPrice {
    pub denom: String,
    pub price: Decimal,
}

impl View for CoinPrice {
    type V = Slot<Seq<char>>;

    open spec fn view(&self) -> Slot<Seq<char>> {
        Slot { key: self.denom@, amount: self.price@ }
    }
}

/// The views of a list of prices, in order.
pub open spec fn prices_view(prices: Seq<CoinPrice>) -> Seq<Slot<Seq<char>>> {
    prices.map_values(|p: CoinPrice| p@)
}

/// The prices that the oracle starts with.
#[derive(Debug, PartialEq, Eq)]
pub struct InstantiateMsg {
    pub coins: Vec<CoinPrice>,
}

/// A change to the oracle.
#[derive(Debug, PartialEq, Eq)]
pub enum ExecuteMsg {
    /// Sets the price of a denom, in place of any it had.
    ChangePrice(CoinPrice),
}

/// A question to the oracle.
#[derive(Debug, PartialEq, Eq)]
pub enum QueryMsg {
    /// The price of a denom.
    AssetPrice { denom: String },
    /// The oracle's configuration, which this oracle does not have.
    Config,
}

pub enum QueryMsgView {
    AssetPrice { denom: Seq<char> },
    Config,
}

impl View for QueryMsg {
    type V = QueryMsgView;

    open spec fn view(&self) -> QueryMsgView {
        match *self {
            QueryMsg::AssetPrice { denom } => QueryMsgView::AssetPrice { denom: denom@ },
            QueryMsg::Config => QueryMsgView::Config,
        }
    }
}

/// The table after each of `coins` was saved in turn on top of `table`: a
/// later price of a denom replaces an earlier one.
pub open spec fn saved_all(table: Seq<Slot<Seq<char>>>, coins: Seq<Slot<Seq<char>>>) -> Seq<
    Slot<Seq<char>>,
>
    decreases coins.len(),
{
    if coins.len() == 0 {
        table
    } else {
        stored(saved_all(table, coins.drop_last()), coins.last().key, coins.last().amount)
    }
}

/// What the oracle answers to a question about a table of prices.
pub open spec fn query_spec(table: Seq<Slot<Seq<char>>>, msg: QueryMsgView) -> Result<
    nat,
    ContractErrorView,
> {
    match msg {
        QueryMsgView::AssetPrice { denom } => if contains_key(table, denom) {
            Ok(lookup(table, denom))
        } else {
            Err(ContractErrorView::PriceNotFound(denom))
        },
        QueryMsgView::Config => Err(ContractErrorView::UnimplementedQuery),
    }
}

/// The oracle's table: at most one price per denom.
pub struct PriceStore {
    prices: Vec<CoinPrice>,
}

impl View for PriceStore {
    type V = Seq<Slot<Seq<char>>>;

    closed spec fn view(&self) -> Seq<Slot<Seq<char>>> {
        prices_view(self.prices@)
    }
}

impl PriceStore {
    /// What holds of every value of this type.
    #[verifier::type_invariant]
    pub open spec fn inv(self) -> bool {
        distinct_keys(self@)
    }

    /// A table without prices.
    pub fn new() -> (r: PriceStore)
        ensures
            r@.len() == 0,
    {
        PriceStore { prices: Vec::new() }
    }

    /// Index of the denom's price.
    fn find(&self, denom: &String) -> (r: Option<usize>)
        ensures
            distinct_keys(self@),
            match r {
                Some(i) => i < self.prices.len() && self.prices[i as int]@.key == denom@
                    && contains_key(self@, denom@) && lookup(self@, denom@)
                    == self.prices[i as int].price@,
                None => !contains_key(self@, denom@),
            },
    {
        proof {
            use_type_invariant(self);
        }
        let mut i: usize = 0;
        while i < self.prices.len()
            invariant
                i <= self.prices.len(),
                distinct_keys(self@),
                self@ == prices_view(self.prices@),
                forall|j: int| 0 <= j < i ==> (#[trigger] self.prices[j])@.key != denom@,
            decreases self.prices.len() - i,
        {
            if self.prices[i].denom == *denom {
                proof {
                    lemma_lookup_at(self@, i as int);
                }
                return Some(i);
            }
            i += 1;
        }
        assert(!contains_key(self@, denom@)) by {
            if contains_key(self@, denom@) {
                let k = key_index(self@, denom@);
                assert(self.prices[k]@.key == denom@);
            }
        }
        None
    }

    /// Saves the price of a denom, in place of any it had.
    pub fn save(&mut self, denom: &str, price: Decimal)
        ensures
            final(self)@ == stored(old(self)@, denom@, price@),
            contains_key(final(self)@, denom@),
            lookup(final(self)@, denom@) == price@,
    {
        let name = denom.to_owned();
        let item = CoinPrice { denom: denom.to_owned(), price };
        let ghost before = self@;
        let found = self.find(&name);
        proof {
            lemma_stored(before, denom@, price@);
        }
        let mut prices: Vec<CoinPrice> = Vec::new();
        std::mem::swap(&mut self.prices, &mut prices);
        match found {
            Some(i) => {
                proof {
                    lemma_lookup_at(before, i as int);
                }
                prices.set(i, item);
            },
            None => {
                prices.push(item);
            },
        }
        assert(prices_view(prices@) =~= stored(before, denom@, price@));
        self.prices = prices;
    }

    /// All prices of the table, in the order in which their denoms were first
    /// saved.
    pub fn prices(&self) -> (r: Vec<CoinPrice>)
        ensures
            prices_view(r@) == self@,
    {
        let mut out: Vec<CoinPrice> = Vec::new();
        let mut i: usize = 0;
        while i < self.prices.len()
            invariant
                i <= self.prices.len(),
                out.len() == i,
                forall|j: int| 0 <= j < i ==> (#[trigger] out[j])@ == self.prices[j]@,
            decreases self.prices.len() - i,
        {
            out.push(
                CoinPrice { denom: self.prices[i].denom.clone(), price: self.prices[i].price },
            );
            i += 1;
        }
        assert(prices_view(out@) =~= prices_view(self.prices@));
        out
    }

    /// The price of a denom, if the table has one.
    pub fn load(&self, denom: &str) -> (r: Option<Decimal>)
        ensures
            r is Some <==> contains_key(self@, denom@),
            r is Some ==> r->Some_0@ == lookup(self@, denom@),
    {
        match self.find(&denom.to_owned()) {
            Some(i) => Some(self.prices[i].price),
            None => None,
        }
    }
}

/// Sets the oracle up with the prices of the message, saved in their order.
pub fn instantiate(msg: InstantiateMsg) -> (r: PriceStore)
    ensures
        r@ == saved_all(Seq::empty(), prices_view(msg.coins@)),
{
    let mut store = PriceStore::new();
    let mut i: usize = 0;
    assert(prices_view(msg.coins@).take(0) =~= Seq::empty());
    while i < msg.coins.len()
        invariant
            i <= msg.coins.len(),
            store@ == saved_all(Seq::empty(), prices_view(msg.coins@).take(i as int)),
        decreases msg.coins.len() - i,
    {
        let ghost all = prices_view(msg.coins@);
        assert(all.take(i + 1).drop_last() =~= all.take(i as int));
        assert(all.take(i + 1).last() == msg.coins[i as int]@);
        store.save(msg.coins[i].denom.as_str(), msg.coins[i].price);
        i += 1;
    }
    assert(prices_view(msg.coins@).take(i as int) =~= prices_view(msg.coins@));
    store
}

/// Carries out a change to the oracle.
pub fn execute(store: &mut PriceStore, msg: ExecuteMsg)
    ensures
        match msg {
            ExecuteMsg::ChangePrice(coin) => final(store)@ == stored(
                old(store)@,
                coin.denom@,
                coin.price@,
            ),
        },
{
    match msg {
        ExecuteMsg::ChangePrice(coin) => change_price(store, coin),
    }
}

/// Sets the price of a denom.
fn change_price(store: &mut PriceStore, coin: CoinPrice)
    ensures
        final(store)@ == stored(old(store)@, coin.denom@, coin.price@),
{
    store.save(coin.denom.as_str(), coin.price);
}

/// Answers a question to the oracle: the price of a denom where the table has
/// one, and an error for a denom without a price or for any other question.
pub fn query(store: &PriceStore, msg: &QueryMsg) -> (r: Result<Decimal, ContractError>)
    ensures
        outcome(r) == query_spec(store@, msg@),
{
    match msg {
        QueryMsg::AssetPrice { denom } => query_asset_price(store, denom.as_str()),
        QueryMsg::Config => Err(ContractError::UnimplementedQuery),
    }
}

/// The price of a denom.
fn query_asset_price(store: &PriceStore, denom: &str) -> (r: Result<Decimal, ContractError>)
    ensures
        outcome(r) == query_spec(store@, QueryMsgView::AssetPrice { denom: denom@ }),
{
    match store.load(denom) {
        Some(price) => Ok(price),
        None => Err(ContractError::PriceNotFound(denom.to_owned())),
    }
}

} // verus!
