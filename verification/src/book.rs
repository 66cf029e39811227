//! The mathematical model of a balance book: a sequence of slots, each a key
//! with an amount, in which no key occurs twice.

use vstd::prelude::*;

verus! {

/// One line of a book.
pub struct Slot<K> {
    pub key: K,
    pub amount: nat,
}

/// Key of a per-account balance: the account and the denom.
pub type AccountKey = (Seq<char>, Seq<char>);

/// Whether some slot of `s` has the key.
pub open spec fn contains_key<K>(s: Seq<Slot<K>>, key: K) -> bool {
    exists|i: int| 0 <= i < s.len() && (#[trigger] s[i]).key == key
}

/// No key occurs in two slots.
pub open spec fn distinct_keys<K>(s: Seq<Slot<K>>) -> bool {
    forall|i: int, j: int|
        0 <= i < j < s.len() ==> (#[trigger] s[i]).key != (#[trigger] s[j]).key
}

/// Every amount fits in 128 bits.
pub open spec fn bounded<K>(s: Seq<Slot<K>>) -> bool {
    forall|i: int| 0 <= i < s.len() ==> (#[trigger] s[i]).amount <= u128::MAX
}

/// An index at which the key stands; meaningful where the book contains it.
pub open spec fn key_index<K>(s: Seq<Slot<K>>, key: K) -> int {
    choose|i: int| 0 <= i < s.len() && (#[trigger] s[i]).key == key
}

/// The amount booked under the key: zero where the book has no such slot.
pub open spec fn lookup<K>(s: Seq<Slot<K>>, key: K) -> nat {
    if contains_key(s, key) {
        s[key_index(s, key)].amount
    } else {
        0
    }
}

/// The book after `amount` has been booked under the key: its slot is
/// overwritten in place, or a new slot is added at the end.
pub open spec fn stored<K>(s: Seq<Slot<K>>, key: K, amount: nat) -> Seq<Slot<K>> {
    if contains_key(s, key) {
        s.update(key_index(s, key), Slot { key, amount })
    } else {
        s.push(Slot { key, amount })
    }
}

/// Sum of the amounts that the accounts hold in one denom.
pub open spec fn sum_for_denom(s: Seq<Slot<AccountKey>>, denom: Seq<char>) -> nat
    decreases s.len(),
{
    if s.len() == 0 {
        0
    } else {
        sum_for_denom(s.drop_last(), denom) + if s.last().key.1 == denom {
            s.last().amount
        } else {
            0
        }
    }
}

/// In a book without repeated keys, the slot found at an index is the one the
/// key leads to.
pub proof fn lemma_lookup_at<K>(s: Seq<Slot<K>>, i: int)
    requires
        distinct_keys(s),
        0 <= i < s.len(),
    ensures
        contains_key(s, s[i].key),
        key_index(s, s[i].key) == i,
        lookup(s, s[i].key) == s[i].amount,
{
    let key = s[i].key;
    assert(contains_key(s, key));
    let j = key_index(s, key);
    assert(0 <= j < s.len() && s[j].key == key);
    if j < i {
        assert(s[j].key != s[i].key);
    } else if i < j {
        assert(s[i].key != s[j].key);
    }
}

/// Booking keeps the keys distinct, yields the booked amount under its key and
/// leaves every other key as it was.
pub proof fn lemma_stored<K>(s: Seq<Slot<K>>, key: K, amount: nat)
    requires
        distinct_keys(s),
    ensures
        distinct_keys(stored(s, key, amount)),
        lookup(stored(s, key, amount), key) == amount,
        forall|other: K| other != key ==> lookup(stored(s, key, amount), other) == lookup(s, other),
        forall|other: K|
            contains_key(stored(s, key, amount), other) <==> (other == key || contains_key(
                s,
                other,
            )),
{
    let t = stored(s, key, amount);
    if contains_key(s, key) {
        let k = key_index(s, key);
        assert(0 <= k < s.len() && s[k].key == key);
        assert(t.len() == s.len());
        assert forall|i: int| 0 <= i < t.len() implies (#[trigger] t[i]).key == s[i].key by {}
        assert(distinct_keys(t)) by {
            assert forall|i: int, j: int| 0 <= i < j < t.len() implies (#[trigger] t[i]).key != (
            #[trigger] t[j]).key by {
                assert(s[i].key != s[j].key);
            }
        }
        lemma_lookup_at(t, k);
        assert forall|other: K|
            contains_key(t, other) <==> (other == key || contains_key(s, other)) by {
            if contains_key(t, other) {
                let i = key_index(t, other);
                assert(s[i].key == other);
            }
            if contains_key(s, other) {
                let i = key_index(s, other);
                assert(t[i].key == other);
            }
            if other == key {
                assert(t[k].key == other);
            }
        }
        assert forall|other: K| other != key implies lookup(t, other) == lookup(s, other) by {
            if contains_key(s, other) {
                let i = key_index(s, other);
                assert(s[i].key == other);
                assert(i != k);
                lemma_lookup_at(s, i);
                assert(t[i] == s[i]);
                lemma_lookup_at(t, i);
            }
        }
    } else {
        let n = s.len() as int;
        assert(t.len() == n + 1);
        assert(t[n].key == key);
        assert forall|i: int| 0 <= i < n implies #[trigger] t[i] == s[i] by {}
        assert(distinct_keys(t)) by {
            assert forall|i: int, j: int| 0 <= i < j < t.len() implies (#[trigger] t[i]).key != (
            #[trigger] t[j]).key by {
                if j < n {
                    assert(s[i].key != s[j].key);
                } else {
                    assert(s[i].key != key);
                }
            }
        }
        lemma_lookup_at(t, n);
        assert forall|other: K|
            contains_key(t, other) <==> (other == key || contains_key(s, other)) by {
            if contains_key(t, other) {
                let i = key_index(t, other);
                if i < n {
                    assert(s[i].key == other);
                }
            }
            if contains_key(s, other) {
                let i = key_index(s, other);
                assert(t[i].key == other);
            }
            if other == key {
                assert(t[n].key == other);
            }
        }
        assert forall|other: K| other != key implies lookup(t, other) == lookup(s, other) by {
            if contains_key(s, other) {
                let i = key_index(s, other);
                assert(s[i].key == other);
                lemma_lookup_at(s, i);
                assert(t[i] == s[i]);
                lemma_lookup_at(t, i);
            }
        }
    }
}

/// Booking an amount within range keeps every amount within range.
pub proof fn lemma_bounded_stored<K>(s: Seq<Slot<K>>, key: K, amount: nat)
    requires
        bounded(s),
        amount <= u128::MAX,
    ensures
        bounded(stored(s, key, amount)),
{
    let t = stored(s, key, amount);
    assert forall|i: int| 0 <= i < t.len() implies (#[trigger] t[i]).amount <= u128::MAX by {
        if contains_key(s, key) {
            if i != key_index(s, key) {
                assert(t[i] == s[i]);
            }
        } else {
            if i < s.len() {
                assert(t[i] == s[i]);
            }
        }
    }
}

/// Overwriting one slot changes the sum of its denom by the difference of the
/// amounts, and no other sum.
pub proof fn lemma_sum_update(s: Seq<Slot<AccountKey>>, i: int, amount: nat, denom: Seq<char>)
    requires
        0 <= i < s.len(),
    ensures
        sum_for_denom(s.update(i, Slot { key: s[i].key, amount }), denom) == if s[i].key.1
            == denom {
            sum_for_denom(s, denom) - s[i].amount + amount
        } else {
            sum_for_denom(s, denom) as int
        },
        s[i].key.1 == denom ==> s[i].amount <= sum_for_denom(s, denom),
    decreases s.len(),
{
    let t = s.update(i, Slot { key: s[i].key, amount });
    if i == s.len() - 1 {
        assert(t.drop_last() =~= s.drop_last());
    } else {
        assert(t.drop_last() =~= s.drop_last().update(i, Slot { key: s[i].key, amount }));
        assert(s.drop_last()[i] == s[i]);
        lemma_sum_update(s.drop_last(), i, amount, denom);
    }
}

/// A new slot at the end adds its amount to the sum of its denom.
pub proof fn lemma_sum_push(s: Seq<Slot<AccountKey>>, slot: Slot<AccountKey>, denom: Seq<char>)
    ensures
        sum_for_denom(s.push(slot), denom) == sum_for_denom(s, denom) + if slot.key.1 == denom {
            slot.amount
        } else {
            0
        },
{
    assert(s.push(slot).drop_last() =~= s);
}

/// Booking an amount under an account's key moves the sum of that denom by the
/// change of the account's balance, and leaves the sums of other denoms alone.
pub proof fn lemma_sum_stored(
    s: Seq<Slot<AccountKey>>,
    key: AccountKey,
    amount: nat,
    denom: Seq<char>,
)
    requires
        distinct_keys(s),
    ensures
        sum_for_denom(stored(s, key, amount), denom) == if key.1 == denom {
            sum_for_denom(s, denom) - lookup(s, key) + amount
        } else {
            sum_for_denom(s, denom) as int
        },
        key.1 == denom ==> lookup(s, key) <= sum_for_denom(s, denom),
{
    if contains_key(s, key) {
        let k = key_index(s, key);
        assert(0 <= k < s.len() && s[k].key == key);
        lemma_lookup_at(s, k);
        lemma_sum_update(s, k, amount, denom);
    } else {
        lemma_sum_push(s, Slot { key, amount }, denom);
    }
}

} // verus!
