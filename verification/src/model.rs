//! How the models of lists and options follow from those of what they hold.
use vstd::prelude::*;

verus! {

/// The models of the items of a list, in order.
pub open spec fn each<T: View>(items: Seq<T>) -> Seq<T::V> {
    Seq::new(items.len(), |i: int| items[i]@)
}

/// The model of what may be there.
pub open spec fn maybe<T: View>(item: Option<T>) -> Option<T::V> {
    match item {
        Some(v) => Some(v@),
        None => None,
    }
}

/// One more item adds one more model.
pub broadcast proof fn lemma_each_push<T: View>(items: Seq<T>, item: T)
    ensures
        #[trigger] each(items.push(item)) == each(items).push(item@),
{
    assert(each(items.push(item)) =~= each(items).push(item@));
}

/// The items that a predicate picks, in order.
pub open spec fn picked<V>(items: Seq<V>, pick: spec_fn(V) -> bool) -> Seq<V>
    decreases items.len(),
{
    if items.len() == 0 {
        Seq::empty()
    } else if pick(items.last()) {
        picked(items.drop_last(), pick).push(items.last())
    } else {
        picked(items.drop_last(), pick)
    }
}

/// What is picked was there, and was picked by the predicate.
pub proof fn lemma_picked<V>(items: Seq<V>, pick: spec_fn(V) -> bool)
    ensures
        picked(items, pick).len() <= items.len(),
        forall|i: int|
            0 <= i < picked(items, pick).len() ==> pick(#[trigger] picked(items, pick)[i])
                && items.contains(picked(items, pick)[i]),
        forall|i: int|
            0 <= i < items.len() && pick(#[trigger] items[i]) ==> picked(items, pick).contains(
                items[i],
            ),
    decreases items.len(),
{
    if items.len() > 0 {
        let rest = items.drop_last();
        lemma_picked(rest, pick);
        let all = picked(items, pick);
        assert forall|i: int| 0 <= i < all.len() implies pick(#[trigger] all[i]) && items.contains(
            all[i],
        ) by {
            if i < picked(rest, pick).len() {
                let j = choose|j: int| 0 <= j < rest.len() && rest[j] == picked(rest, pick)[i];
                assert(items[j] == all[i]);
            } else {
                assert(items[items.len() - 1] == all[i]);
            }
        }
        assert forall|i: int| 0 <= i < items.len() && pick(#[trigger] items[i]) implies all.contains(
            items[i],
        ) by {
            if i < rest.len() {
                assert(rest[i] == items[i]);
                let j = choose|j: int|
                    0 <= j < picked(rest, pick).len() && picked(rest, pick)[j] == rest[i];
                assert(all[j] == items[i]);
            } else {
                assert(all[all.len() - 1] == items[i]);
            }
        }
    }
}

/// What is picked stands in the order in which it stood, each item as often as it was there, and
/// everything that the predicate holds of is picked: the result tells where each item stood.
pub proof fn law_picked_in_order<V>(items: Seq<V>, pick: spec_fn(V) -> bool) -> (at: Seq<int>)
    ensures
        at.len() == picked(items, pick).len(),
        forall|i: int|
            0 <= i < at.len() ==> 0 <= #[trigger] at[i] < items.len() && picked(items, pick)[i]
                == items[at[i]],
        forall|i: int, j: int| 0 <= i < j < at.len() ==> at[i] < at[j],
        forall|k: int|
            0 <= k < items.len() ==> (pick(#[trigger] items[k]) <==> at.contains(k)),
    decreases items.len(),
{
    if items.len() == 0 {
        Seq::empty()
    } else {
        let rest = items.drop_last();
        let before = law_picked_in_order(rest, pick);
        let last = items.len() - 1;
        let at = if pick(items.last()) {
            before.push(last)
        } else {
            before
        };
        assert forall|k: int| 0 <= k < items.len() implies (pick(#[trigger] items[k])
            <==> at.contains(k)) by {
            if k < last {
                assert(rest[k] == items[k]);
                if before.contains(k) {
                    let i = choose|i: int| 0 <= i < before.len() && before[i] == k;
                    assert(at[i] == k);
                }
                if at.contains(k) {
                    let i = choose|i: int| 0 <= i < at.len() && at[i] == k;
                    assert(before[i] == k);
                }
            } else {
                if pick(items[k]) {
                    assert(at[before.len() as int] == k);
                } else if at.contains(k) {
                    let i = choose|i: int| 0 <= i < at.len() && at[i] == k;
                    assert(before[i] < rest.len());
                }
            }
        }
        at
    }
}

} // verus!
