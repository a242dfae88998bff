//! Picking bodies by their flags: counting the active ones, finding the first
//! one, and dropping the ones marked for removal.

use vstd::prelude::*;

verus! {

/// Number of set flags.
pub open spec fn count_set(flags: Seq<bool>) -> nat
    decreases flags.len(),
{
    if flags.len() == 0 {
        0
    } else {
        count_set(flags.drop_last()) + if flags.last() {
            1nat
        } else {
            0nat
        }
    }
}

/// Counts the active bodies.
pub fn count_active(active: &Vec<bool>) -> (n: usize)
    ensures
        n == count_set(active@),
        n == active@.filter(set_flag()).len(),
{
    proof {
        lemma_count_is_number_of_set_flags(active@);
    }
    let mut n: usize = 0;
    let mut i: usize = 0;
    while i < active.len()
        invariant
            i <= active@.len(),
            n == count_set(active@.take(i as int)),
            n <= i,
        decreases active@.len() - i,
    {
        assert(active@.take(i + 1).drop_last() =~= active@.take(i as int));
        if active[i] {
            n += 1;
        }
        i += 1;
    }
    assert(active@.take(active@.len() as int) =~= active@);
    n
}

/// Index of the first active body, if any.
pub fn first_active(active: &Vec<bool>) -> (found: Option<usize>)
    ensures
        match found {
            Some(i) => i < active@.len() && active@[i as int] && forall|j: int|
                0 <= j < i ==> !#[trigger] active@[j],
            None => forall|j: int| 0 <= j < active@.len() ==> !#[trigger] active@[j],
        },
{
    let mut i: usize = 0;
    while i < active.len()
        invariant
            i <= active@.len(),
            forall|j: int| 0 <= j < i ==> !#[trigger] active@[j],
        decreases active@.len() - i,
    {
        if active[i] {
            return Some(i);
        }
        i += 1;
    }
    None
}

/// The items whose flag in `marked` is not set, in the order they came in.
pub open spec fn unmarked<T>(items: Seq<T>, marked: Seq<bool>) -> Seq<T>
    decreases items.len(),
{
    if items.len() == 0 {
        Seq::empty()
    } else {
        let rest = unmarked(items.drop_last(), marked.take(items.len() - 1));
        if marked[items.len() - 1] {
            rest
        } else {
            rest.push(items.last())
        }
    }
}

/// Keeps a flag that is set.
pub open spec fn set_flag() -> spec_fn(bool) -> bool {
    |b: bool| b
}

/// The number of active bodies is the number of set flags.
pub proof fn lemma_count_is_number_of_set_flags(flags: Seq<bool>)
    ensures
        count_set(flags) == flags.filter(set_flag()).len(),
    decreases flags.len(),
{
    reveal(Seq::filter);
    if flags.len() > 0 {
        lemma_count_is_number_of_set_flags(flags.drop_last());
    }
}

/// Each item paired with its removal flag.
pub open spec fn flagged_pairs<T>(items: Seq<T>, marked: Seq<bool>) -> Seq<(T, bool)> {
    Seq::new(items.len(), |i: int| (items[i], marked[i]))
}

/// Keeps a pair whose flag is not set.
pub open spec fn unmarked_pair<T>() -> spec_fn((T, bool)) -> bool {
    |p: (T, bool)| !p.1
}

/// The item of a pair.
pub open spec fn pair_item<T>() -> spec_fn((T, bool)) -> T {
    |p: (T, bool)| p.0
}

/// Dropping the marked items is filtering the item/flag pairs on an unset
/// flag and keeping their items: exactly the unmarked items stay, in their
/// order.
pub proof fn lemma_unmarked_is_filter<T>(items: Seq<T>, marked: Seq<bool>)
    requires
        marked.len() == items.len(),
    ensures
        unmarked(items, marked) == flagged_pairs(items, marked).filter(unmarked_pair()).map_values(
            pair_item(),
        ),
    decreases items.len(),
{
    reveal(Seq::filter);
    let pairs = flagged_pairs(items, marked);
    if items.len() == 0 {
        assert(pairs.filter(unmarked_pair()).map_values(pair_item()) =~= Seq::<T>::empty());
    } else {
        let n = items.len() - 1;
        let rest_items = items.drop_last();
        let rest_marked = marked.take(n);
        lemma_unmarked_is_filter(rest_items, rest_marked);
        let rest_pairs = flagged_pairs(rest_items, rest_marked);
        assert(pairs.drop_last() =~= rest_pairs);
        assert(pairs.last() == (items[n], marked[n]));
        let fr = rest_pairs.filter(unmarked_pair::<T>());
        if marked[n] {
            assert(pairs.filter(unmarked_pair()) == fr);
        } else {
            assert(pairs.filter(unmarked_pair()) == fr.push(pairs.last()));
            assert(fr.push(pairs.last()).map_values(pair_item()) =~= fr.map_values(pair_item()).push(
                items.last(),
            ));
        }
    }
}

/// Drops every item marked for removal and keeps the others in order.
pub fn remove_marked<T>(items: Vec<T>, marked: &Vec<bool>) -> (kept: Vec<T>)
    requires
        marked@.len() == items@.len(),
    ensures
        kept@ == unmarked(items@, marked@),
        kept@ == flagged_pairs(items@, marked@).filter(unmarked_pair()).map_values(pair_item()),
{
    proof {
        lemma_unmarked_is_filter(items@, marked@);
    }
    let ghost all = items@;
    assert(all.len() == marked.len());
    let mut kept: Vec<T> = Vec::new();
    let mut i: usize = 0;
    for item in it: items.into_iter()
        invariant
            i == it.index(),
            it.seq() == all,
            marked@.len() == all.len(),
            all.len() <= usize::MAX,
            kept@ == unmarked(all.take(i as int), marked@.take(i as int)),
    {
        proof {
            assert(all.take(i + 1).drop_last() =~= all.take(i as int));
            assert(marked@.take(i + 1).take(i as int) =~= marked@.take(i as int));
        }
        if !marked[i] {
            kept.push(item);
        }
        i += 1;
    }
    proof {
        assert(all.take(all.len() as int) =~= all);
        assert(marked@.take(all.len() as int) =~= marked@);
    }
    kept
}

/// Dropping marked items keeps exactly the unmarked ones: their number is the
/// number of unset flags, and every kept item comes from the input.
pub proof fn lemma_unmarked_count<T>(items: Seq<T>, marked: Seq<bool>)
    requires
        marked.len() == items.len(),
    ensures
        unmarked(items, marked).len() + count_set(marked) == items.len(),
        forall|k: int|
            0 <= k < unmarked(items, marked).len() ==> items.contains(
                #[trigger] unmarked(items, marked)[k],
            ),
    decreases items.len(),
{
    if items.len() > 0 {
        let n = items.len() - 1;
        let rest_items = items.drop_last();
        let rest_marked = marked.take(n);
        lemma_unmarked_count(rest_items, rest_marked);
        assert(rest_marked =~= marked.drop_last());
        let u = unmarked(items, marked);
        let r = unmarked(rest_items, rest_marked);
        assert forall|k: int| 0 <= k < u.len() implies items.contains(#[trigger] u[k]) by {
            if k < r.len() {
                assert(u[k] == r[k]);
                let w = choose|w: int| 0 <= w < rest_items.len() && rest_items[w] == r[k];
                assert(items[w] == r[k]);
            } else {
                assert(u[k] == items[n]);
            }
        }
    }
}

} // verus!
