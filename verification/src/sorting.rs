//! Ordering timed temperatures by their time of day, keeping entries of equal
//! time in the order in which they were given.

use vstd::prelude::*;
use vstd::seq_lib::*;
use crate::backends::Temperature;
use crate::time::TimeOfDay;

verus! {

/// Where `item` goes in `items`: behind every entry that is not later than
/// it, so behind those of its own time.
pub open spec fn insert_index(items: Seq<(TimeOfDay, Temperature)>, item: (TimeOfDay, Temperature)) -> int
    decreases items.len(),
{
    if items.len() == 0 {
        0
    } else if item.0.before(&items.last().0) {
        insert_index(items.drop_last(), item)
    } else {
        items.len() as int
    }
}

/// `items` with `item` put in at its place.
pub open spec fn insert_by_time(items: Seq<(TimeOfDay, Temperature)>, item: (TimeOfDay, Temperature)) -> Seq<
    (TimeOfDay, Temperature),
> {
    items.insert(insert_index(items, item), item)
}

/// The entries in ascending order of time; entries of the same time keep
/// their order.
pub open spec fn sorted_by_time(items: Seq<(TimeOfDay, Temperature)>) -> Seq<(TimeOfDay, Temperature)>
    decreases items.len(),
{
    if items.len() == 0 {
        Seq::empty()
    } else {
        insert_by_time(sorted_by_time(items.drop_last()), items.last())
    }
}

/// No entry is later than one behind it.
pub open spec fn ascending(items: Seq<(TimeOfDay, Temperature)>) -> bool {
    forall|i: int, j: int| 0 <= i < j < items.len() ==> items[i].0.at_or_before(&items[j].0)
}

/// Every entry is earlier than all those behind it.
pub open spec fn strictly_ascending(items: Seq<(TimeOfDay, Temperature)>) -> bool {
    forall|i: int, j: int| 0 <= i < j < items.len() ==> items[i].0.before(&items[j].0)
}

/// No two entries have the same time.
pub open spec fn distinct_times(items: Seq<(TimeOfDay, Temperature)>) -> bool {
    forall|i: int, j: int| 0 <= i < j < items.len() ==> items[i].0 != items[j].0
}

/// The place of an entry: all behind it are later, the one before it is not.
pub proof fn lemma_insert_index(items: Seq<(TimeOfDay, Temperature)>, item: (TimeOfDay, Temperature))
    ensures
        0 <= insert_index(items, item) <= items.len(),
        forall|k: int|
            insert_index(items, item) <= k < items.len() ==> item.0.before(&#[trigger] items[k].0),
        insert_index(items, item) > 0 ==> !item.0.before(&items[insert_index(items, item) - 1].0),
    decreases items.len(),
{
    if items.len() > 0 && item.0.before(&items.last().0) {
        let front = items.drop_last();
        lemma_insert_index(front, item);
        assert forall|k: int| insert_index(items, item) <= k < items.len() implies item.0.before(
            &#[trigger] items[k].0,
        ) by {
            if k < front.len() {
                assert(items[k] == front[k]);
            }
        }
        if insert_index(items, item) > 0 {
            assert(items[insert_index(items, item) - 1] == front[insert_index(front, item) - 1]);
        }
    }
}

/// The place is the only index with that property.
pub proof fn lemma_insert_index_unique(
    items: Seq<(TimeOfDay, Temperature)>,
    item: (TimeOfDay, Temperature),
    at: int,
)
    requires
        0 <= at <= items.len(),
        forall|k: int| at <= k < items.len() ==> item.0.before(&#[trigger] items[k].0),
        at > 0 ==> !item.0.before(&items[at - 1].0),
    ensures
        insert_index(items, item) == at,
    decreases items.len(),
{
    if items.len() > 0 {
        if at == items.len() {
        } else {
            assert(item.0.before(&items[items.len() - 1].0));
            lemma_insert_index_unique(items.drop_last(), item, at);
        }
    }
}

/// Putting an entry in keeps an ascending sequence ascending, and adds that
/// entry and nothing else.
pub proof fn lemma_insert_by_time(items: Seq<(TimeOfDay, Temperature)>, item: (TimeOfDay, Temperature))
    ensures
        insert_by_time(items, item).len() == items.len() + 1,
        insert_by_time(items, item).to_multiset() == items.to_multiset().insert(item),
        ascending(items) ==> ascending(insert_by_time(items, item)),
{
    lemma_insert_index(items, item);
    let at = insert_index(items, item);
    let out = insert_by_time(items, item);
    to_multiset_insert(items, at, item);
    if ascending(items) {
        assert forall|i: int, j: int| 0 <= i < j < out.len() implies out[i].0.at_or_before(
            &out[j].0,
        ) by {
            if j < at {
                assert(out[i] == items[i] && out[j] == items[j]);
            } else if j == at {
                assert(out[i] == items[i]);
                assert(items[i].0.at_or_before(&items[at - 1].0));
            } else if i < at {
                assert(out[i] == items[i] && out[j] == items[j - 1]);
            } else if i == at {
                assert(out[j] == items[j - 1]);
            } else {
                assert(out[i] == items[i - 1] && out[j] == items[j - 1]);
            }
        }
    }
}

/// Sorting gives an ascending sequence with the same entries, each as often
/// as it was given.
pub proof fn lemma_sorted_by_time(items: Seq<(TimeOfDay, Temperature)>)
    ensures
        sorted_by_time(items).len() == items.len(),
        sorted_by_time(items).to_multiset() == items.to_multiset(),
        ascending(sorted_by_time(items)),
    decreases items.len(),
{
    if items.len() == 0 {
        assert(items == Seq::<(TimeOfDay, Temperature)>::empty());
    } else {
        let front = items.drop_last();
        lemma_sorted_by_time(front);
        lemma_insert_by_time(sorted_by_time(front), items.last());
        assert(front.push(items.last()) == items);
        to_multiset_build(front, items.last());
    }
}

/// The test for an entry's being of the given time.
pub open spec fn is_at(time: TimeOfDay) -> spec_fn((TimeOfDay, Temperature)) -> bool {
    |item: (TimeOfDay, Temperature)| item.0 == time
}

/// The entries of one time, in their order.
pub open spec fn at_time(items: Seq<(TimeOfDay, Temperature)>, time: TimeOfDay) -> Seq<(TimeOfDay, Temperature)> {
    items.filter(is_at(time))
}

/// Sorting is stable: the entries of any one time come out in the order in
/// which they were given.
pub proof fn lemma_sort_is_stable(items: Seq<(TimeOfDay, Temperature)>, time: TimeOfDay)
    ensures
        at_time(sorted_by_time(items), time) == at_time(items, time),
    decreases items.len(),
{
    let pred = is_at(time);
    if items.len() == 0 {
        assert(items == Seq::<(TimeOfDay, Temperature)>::empty());
    } else {
        let front = items.drop_last();
        let item = items.last();
        let sorted = sorted_by_time(front);
        let at = insert_index(sorted, item);
        lemma_sort_is_stable(front, time);
        lemma_insert_index(sorted, item);
        let head = sorted.take(at);
        let tail = sorted.skip(at);
        assert(sorted == head + tail);
        assert(insert_by_time(sorted, item) == head.push(item) + tail);
        Seq::filter_distributes_over_add(head, tail, pred);
        Seq::filter_distributes_over_add(head.push(item), tail, pred);
        head.lemma_filter_push(item, pred);
        front.lemma_filter_push(item, pred);
        assert(front.push(item) == items);
        if item.0 == time {
            assert(tail.all(|other: (TimeOfDay, Temperature)| !pred(other))) by {
                assert forall|k: int| 0 <= k < tail.len() implies !pred(#[trigger] tail[k]) by {
                    assert(item.0.before(&sorted[at + k].0));
                }
            }
            tail.lemma_all_neg_filter_empty(pred);
            assert(tail.filter(pred) == Seq::<(TimeOfDay, Temperature)>::empty());
            assert(head.filter(pred) + tail.filter(pred) == head.filter(pred));
            assert(head.filter(pred).push(item) + tail.filter(pred) == head.filter(pred).push(item));
        }
    }
}

/// Sorts the entries by time; entries of the same time keep their order.
pub fn sort_by_time(items: &Vec<(TimeOfDay, Temperature)>) -> (sorted: Vec<(TimeOfDay, Temperature)>)
    ensures
        sorted@ == sorted_by_time(items@),
{
    let mut sorted: Vec<(TimeOfDay, Temperature)> = Vec::new();
    let mut i: usize = 0;
    while i < items.len()
        invariant
            i <= items.len(),
            sorted@ == sorted_by_time(items@.take(i as int)),
        decreases items.len() - i,
    {
        let item = items[i];
        let mut at: usize = sorted.len();
        while at > 0 && item.0.lt(&sorted[at - 1].0)
            invariant
                at <= sorted.len(),
                forall|k: int| at <= k < sorted.len() ==> item.0.before(&#[trigger] sorted@[k].0),
            decreases at,
        {
            at -= 1;
        }
        proof {
            lemma_insert_index_unique(sorted@, item, at as int);
            assert(items@.take(i + 1).drop_last() == items@.take(i as int));
        }
        sorted.insert(at, item);
        i += 1;
    }
    assert(items@.take(items.len() as int) == items@);
    sorted
}

} // verus!
