//! Folding a sequence with a step that may fail: the first failure ends the
//! fold and is its result.

use vstd::prelude::*;

verus! {

/// The state reached from `init` by taking the items in order, or the error of
/// the first step that failed.
pub open spec fn try_fold<S, T, E>(
    init: S,
    items: Seq<T>,
    step: spec_fn(S, T) -> Result<S, E>,
) -> Result<S, E>
    decreases items.len(),
{
    if items.len() == 0 {
        Ok(init)
    } else {
        match try_fold(init, items.drop_last(), step) {
            Ok(state) => step(state, items.last()),
            Err(e) => Err(e),
        }
    }
}

/// Folding nothing leaves the initial state.
pub proof fn lemma_try_fold_none<S, T, E>(
    init: S,
    items: Seq<T>,
    step: spec_fn(S, T) -> Result<S, E>,
)
    ensures
        try_fold(init, items.take(0), step) == Ok::<S, E>(init),
{
    assert(items.take(0).len() == 0);
}

/// One more item is one more step.
pub proof fn lemma_try_fold_next<S, T, E>(
    init: S,
    items: Seq<T>,
    k: int,
    step: spec_fn(S, T) -> Result<S, E>,
)
    requires
        0 <= k < items.len(),
    ensures
        try_fold(init, items.take(k + 1), step) == match try_fold(init, items.take(k), step) {
            Ok(state) => step(state, items[k]),
            Err(e) => Err(e),
        },
{
    assert(items.take(k + 1).drop_last() =~= items.take(k));
    assert(items.take(k + 1).last() == items[k]);
}

/// A fold that has failed on a prefix fails in the same way on the whole.
pub proof fn lemma_try_fold_failed<S, T, E>(
    init: S,
    items: Seq<T>,
    k: int,
    step: spec_fn(S, T) -> Result<S, E>,
)
    requires
        0 <= k <= items.len(),
    ensures
        try_fold(init, items.take(k), step) is Err ==> try_fold(init, items, step) == try_fold(
            init,
            items.take(k),
            step,
        ),
    decreases items.len() - k,
{
    if try_fold(init, items.take(k), step) is Ok {
    } else if k < items.len() {
        lemma_try_fold_next(init, items, k, step);
        lemma_try_fold_failed(init, items, k + 1, step);
    } else {
        assert(items.take(k) =~= items);
    }
}

/// A fold over all items is the fold over the prefix of full length.
pub proof fn lemma_try_fold_all<S, T, E>(
    init: S,
    items: Seq<T>,
    step: spec_fn(S, T) -> Result<S, E>,
)
    ensures
        try_fold(init, items.take(items.len() as int), step) == try_fold(init, items, step),
{
    assert(items.take(items.len() as int) =~= items);
}

} // verus!
