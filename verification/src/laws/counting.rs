//! Counting occurrences in sequences.

use vstd::prelude::*;

verus! {

/// How often `item` occurs among `items`.
pub open spec fn times<T>(items: Seq<T>, item: T) -> nat
    decreases items.len(),
{
    if items.len() == 0 {
        0
    } else {
        times(items.drop_last(), item) + if items.last() == item {
            1nat
        } else {
            0nat
        }
    }
}

/// An item occurs at least once exactly where it is contained.
pub proof fn lemma_times_contains<T>(items: Seq<T>, item: T)
    ensures
        times(items, item) > 0 <==> items.contains(item),
    decreases items.len(),
{
    if items.len() > 0 {
        let rest = items.drop_last();
        lemma_times_contains(rest, item);
        if rest.contains(item) {
            let i = choose|i: int| 0 <= i < rest.len() && rest[i] == item;
            assert(items[i] == item);
        }
        if items.contains(item) && items.last() != item {
            let i = choose|i: int| 0 <= i < items.len() && items[i] == item;
            assert(rest[i] == item);
        }
        if items.last() == item {
            assert(items[items.len() - 1] == item);
        }
    }
}

/// Occurrences add up over a concatenation.
pub proof fn lemma_times_append<T>(left: Seq<T>, right: Seq<T>, item: T)
    ensures
        times(left + right, item) == times(left, item) + times(right, item),
    decreases right.len(),
{
    if right.len() == 0 {
        assert(left + right =~= left);
    } else {
        assert((left + right).drop_last() =~= left + right.drop_last());
        lemma_times_append(left, right.drop_last(), item);
    }
}

/// Filtering keeps every occurrence of what is kept and none of anything else.
pub proof fn lemma_times_filter<T>(items: Seq<T>, keep: spec_fn(T) -> bool, item: T)
    ensures
        times(items.filter(keep), item) == if keep(item) {
            times(items, item)
        } else {
            0
        },
    decreases items.len(),
{
    reveal(Seq::filter);
    if items.len() > 0 {
        let rest = items.drop_last();
        lemma_times_filter(rest, keep, item);
        if keep(items.last()) {
            let kept = rest.filter(keep);
            assert(kept.push(items.last()).drop_last() =~= kept);
        }
    }
}

/// What a kept element maps to is among the results.
pub proof fn lemma_filter_map_contains<A, B>(items: Seq<A>, f: spec_fn(A) -> Option<B>, i: int)
    requires
        0 <= i < items.len(),
        f(items[i]) is Some,
    ensures
        items.filter_map(f).contains(f(items[i])->0),
    decreases items.len(),
{
    let rest = items.drop_last();
    let found = items.filter_map(f);
    if i < rest.len() {
        assert(rest[i] == items[i]);
        lemma_filter_map_contains(rest, f, i);
        let before = rest.filter_map(f);
        let j = choose|j: int| 0 <= j < before.len() && before[j] == f(items[i])->0;
        assert(found[j] == before[j]);
    } else {
        assert(found.last() == f(items[i])->0);
        assert(found[found.len() - 1] == f(items[i])->0);
    }
}

/// Each result is what some element maps to.
pub proof fn lemma_filter_map_origin<A, B>(items: Seq<A>, f: spec_fn(A) -> Option<B>, k: int)
    requires
        0 <= k < items.filter_map(f).len(),
    ensures
        exists|i: int|
            0 <= i < items.len() && f(#[trigger] items[i]) == Some(items.filter_map(f)[k]),
    decreases items.len(),
{
    let rest = items.drop_last();
    let before = rest.filter_map(f);
    if k < before.len() {
        lemma_filter_map_origin(rest, f, k);
        let i = choose|i: int| 0 <= i < rest.len() && f(#[trigger] rest[i]) == Some(before[k]);
        assert(items[i] == rest[i]);
        assert(items.filter_map(f)[k] == before[k]);
    } else {
        assert(items[items.len() - 1] == items.last());
    }
}

} // verus!
