//! An amount of one denomination.

use vstd::prelude::*;

verus! {

/// `amount` units of the asset called `denom`.
#[derive(Debug, PartialEq, Eq)]
pub struct Coin {
    pub denom: String,
    pub amount: u128,
}

pub struct CoinView {
    pub denom: Seq<char>,
    pub amount: nat,
}

impl View for Coin {
    type V = CoinView;

    open spec fn view(&self) -> CoinView {
        CoinView { denom: self.denom@, amount: self.amount as nat }
    }
}

impl Clone for Coin {
    fn clone(&self) -> (r: Coin)
        ensures
            r@ == self@,
    {
        Coin { denom: self.denom.clone(), amount: self.amount }
    }
}

impl Coin {
    /// A coin of `amount` units of `denom`.
    pub fn new(amount: u128, denom: &str) -> (r: Coin)
        ensures
            r@ == (CoinView { denom: denom@, amount: amount as nat }),
    {
        Coin { denom: denom.to_owned(), amount }
    }
}

/// The views of a list of coins, in order.
pub open spec fn coins_view(coins: Seq<Coin>) -> Seq<CoinView> {
    coins.map_values(|c: Coin| c@)
}

/// A copy of a list of coins.
pub fn clone_coins(coins: &Vec<Coin>) -> (r: Vec<Coin>)
    ensures
        coins_view(r@) == coins_view(coins@),
{
    let mut out: Vec<Coin> = Vec::new();
    let mut i: usize = 0;
    while i < coins.len()
        invariant
            i <= coins.len(),
            out.len() == i,
            forall|j: int| 0 <= j < i ==> (#[trigger] out[j])@ == coins[j]@,
        decreases coins.len() - i,
    {
        out.push(coins[i].clone());
        i += 1;
    }
    assert(coins_view(out@) =~= coins_view(coins@));
    out
}

/// The amount of the first coin of the denom in a list; zero where the list
/// has none.
pub open spec fn amount_of(coins: Seq<CoinView>, denom: Seq<char>) -> nat
    decreases coins.len(),
{
    if coins.len() == 0 {
        0
    } else if coins[0].denom == denom {
        coins[0].amount
    } else {
        amount_of(coins.drop_first(), denom)
    }
}

/// Looks up the amount of the first coin of the denom in a list.
pub fn coin_amount(coins: &Vec<Coin>, denom: &str) -> (r: u128)
    ensures
        r == amount_of(coins_view(coins@), denom@),
{
    let name = denom.to_owned();
    let ghost all = coins_view(coins@);
    let mut i: usize = 0;
    assert(all.skip(0) =~= all);
    while i < coins.len()
        invariant
            i <= coins.len(),
            name@ == denom@,
            all == coins_view(coins@),
            amount_of(all, denom@) == amount_of(all.skip(i as int), denom@),
        decreases coins.len() - i,
    {
        assert(all.skip(i as int)[0] == coins[i as int]@);
        assert(all.skip(i as int).drop_first() =~= all.skip(i + 1));
        if coins[i].denom == name {
            return coins[i].amount;
        }
        i += 1;
    }
    assert(all.skip(i as int).len() == 0);
    0
}

} // verus!
