//! Shrinking of sequences: by dropping an item, and by shrinking an item.

use vstd::prelude::*;
use crate::shrink::Shrink;

verus! {

/// The sum of the measures of the items.
pub open spec fn total_measure<T: Shrink>(items: Seq<T::V>) -> nat
    decreases items.len(),
{
    if items.len() == 0 {
        0
    } else {
        total_measure::<T>(items.drop_last()) + T::measure(items.last())
    }
}

/// The sequences that are left when one item is dropped, the first item's
/// first.
pub open spec fn removals<V>(items: Seq<V>) -> Seq<Seq<V>> {
    Seq::new(items.len(), |i: int| items.remove(i))
}

/// The sequences in which a candidate stands in the place of the item at `at`.
pub open spec fn replacements<T: Shrink>(items: Seq<T::V>, at: int) -> Seq<Seq<T::V>> {
    Seq::new(
        T::candidates(items[at]).len(),
        |k: int| items.update(at, T::candidates(items[at])[k]),
    )
}

/// The replacements of the first `count` items, the first item's first.
pub open spec fn replacements_before<T: Shrink>(items: Seq<T::V>, count: nat) -> Seq<Seq<T::V>>
    decreases count,
{
    if count == 0 {
        Seq::empty()
    } else {
        replacements_before::<T>(items, (count - 1) as nat) + replacements::<T>(items, count - 1)
    }
}

/// Dropping an item takes its measure off the total.
proof fn lemma_total_remove<T: Shrink>(items: Seq<T::V>, at: int)
    requires
        0 <= at < items.len(),
    ensures
        total_measure::<T>(items.remove(at)) + T::measure(items[at]) == total_measure::<T>(items),
    decreases items.len(),
{
    if at < items.len() - 1 {
        lemma_total_remove::<T>(items.drop_last(), at);
        assert(items.remove(at).drop_last() =~= items.drop_last().remove(at));
    }
}

/// Replacing an item exchanges its measure in the total for the new item's.
proof fn lemma_total_update<T: Shrink>(items: Seq<T::V>, at: int, item: T::V)
    requires
        0 <= at < items.len(),
    ensures
        total_measure::<T>(items.update(at, item)) + T::measure(items[at]) == total_measure::<T>(
            items,
        ) + T::measure(item),
    decreases items.len(),
{
    if at == items.len() - 1 {
        assert(items.update(at, item).drop_last() =~= items.drop_last());
    } else {
        lemma_total_update::<T>(items.drop_last(), at, item);
        assert(items.update(at, item).drop_last() =~= items.drop_last().update(at, item));
    }
}

/// Each replacement is simpler than the sequence.
proof fn lemma_replacements_simpler<T: Shrink>(items: Seq<T::V>, count: nat, i: int)
    requires
        count <= items.len(),
        0 <= i < replacements_before::<T>(items, count).len(),
    ensures
        replacements_before::<T>(items, count)[i].len() == items.len(),
        total_measure::<T>(replacements_before::<T>(items, count)[i]) < total_measure::<T>(items),
    decreases count,
{
    let earlier = replacements_before::<T>(items, (count - 1) as nat);
    if i < earlier.len() {
        lemma_replacements_simpler::<T>(items, (count - 1) as nat, i);
    } else {
        let at = count - 1;
        let k = i - earlier.len();
        let candidate = T::candidates(items[at])[k];
        T::lemma_candidates_simpler(items[at]);
        lemma_total_update::<T>(items, at, candidate);
    }
}

/// A copy of `items` without the item at `at`.
fn without<T: DeepView + Copy>(items: &Vec<T>, at: usize) -> (rest: Vec<T>)
    requires
        at < items.len(),
    ensures
        rest.deep_view() == items.deep_view().remove(at as int),
{
    let mut rest: Vec<T> = Vec::new();
    let mut j: usize = 0;
    while j < items.len()
        invariant
            j <= items.len(),
            at < items.len(),
            rest@ == (if j <= at {
                items@.take(j as int)
            } else {
                items@.take(j as int).remove(at as int)
            }),
        decreases items.len() - j,
    {
        if j != at {
            let item: T = items[j];
            rest.push(item);
        }
        j = j + 1;
    }
    rest
}

/// A copy of `items` with `item` in the place of the item at `at`.
fn with_item<T: DeepView + Copy>(items: &Vec<T>, at: usize, item: T) -> (changed: Vec<T>)
    requires
        at < items.len(),
    ensures
        changed.deep_view() == items.deep_view().update(at as int, item.deep_view()),
{
    let mut changed: Vec<T> = Vec::new();
    let mut j: usize = 0;
    while j < items.len()
        invariant
            j <= items.len(),
            at < items.len(),
            changed@ == items@.update(at as int, item).take(j as int),
        decreases items.len() - j,
    {
        let next: T = if j == at {
            item
        } else {
            items[j]
        };
        changed.push(next);
        j = j + 1;
    }
    changed
}

impl<T: Shrink + Copy> Shrink for Vec<T> {
    /// A sequence shrinks by dropping one item, and by shrinking one item.
    open spec fn candidates(model: Seq<T::V>) -> Seq<Seq<T::V>> {
        removals(model) + replacements_before::<T>(model, model.len())
    }

    /// The length and the measures of the items, added up.
    open spec fn measure(model: Seq<T::V>) -> nat {
        model.len() + total_measure::<T>(model)
    }

    proof fn lemma_candidates_simpler(model: Seq<T::V>) {
        assert forall|i: int| 0 <= i < Self::candidates(model).len() implies Self::measure(
            #[trigger] Self::candidates(model)[i],
        ) < Self::measure(model) by {
            if i < model.len() {
                lemma_total_remove::<T>(model, i);
            } else {
                lemma_replacements_simpler::<T>(model, model.len(), i - model.len());
            }
        }
    }

    fn shrink(value: &Vec<T>) -> (out: Vec<Vec<T>>) {
        let ghost model = value.deep_view();
        let mut out: Vec<Vec<T>> = Vec::new();
        let mut i: usize = 0;
        while i < value.len()
            invariant
                i <= value.len(),
                model == value.deep_view(),
                out.deep_view() == removals(model).take(i as int),
            decreases value.len() - i,
        {
            let ghost before = out.deep_view();
            let rest = without(value, i);
            out.push(rest);
            assert(out.deep_view() =~= before.push(rest.deep_view()));
            i = i + 1;
        }
        let mut at: usize = 0;
        while at < value.len()
            invariant
                at <= value.len(),
                model == value.deep_view(),
                out.deep_view() == removals(model) + replacements_before::<T>(model, at as nat),
            decreases value.len() - at,
        {
            let smaller = T::shrink(&value[at]);
            let ghost head = out.deep_view();
            let mut k: usize = 0;
            while k < smaller.len()
                invariant
                    k <= smaller.len(),
                    at < value.len(),
                    model == value.deep_view(),
                    smaller.deep_view() == T::candidates(model[at as int]),
                    out.deep_view() == head + replacements::<T>(model, at as int).take(k as int),
                decreases smaller.len() - k,
            {
                let ghost before = out.deep_view();
                let item: T = smaller[k];
                let changed = with_item(value, at, item);
                out.push(changed);
                assert(out.deep_view() =~= before.push(changed.deep_view()));
                k = k + 1;
            }
            at = at + 1;
        }
        out
    }
}

} // verus!
