//! The order in which pending timers are listed: by target time, and among
//! equal target times by the order of creation.

use crate::model::{lemma_slot_is_unique, slot_of, unique_ids, Registered};
use crate::timer::{TimerInfo, TimerView};
use vstd::prelude::*;

verus! {

/// The timers as the contracts see them.
pub open spec fn views(timers: Seq<TimerInfo>) -> Seq<TimerView> {
    Seq::new(timers.len(), |i: int| timers[i]@)
}

/// Whether some entry holds the timer.
pub open spec fn has_timer<H>(entries: Seq<Registered<H>>, timer: TimerView) -> bool {
    exists|i: int| 0 <= i < entries.len() && (#[trigger] entries[i]).timer == timer
}

/// Whether no timer is due before one that stands ahead of it.
pub open spec fn ascending(listing: Seq<TimerView>) -> bool {
    forall|k: int, l: int|
        0 <= k < l < listing.len() ==> !(#[trigger] listing[l]).target_time.before(
            (#[trigger] listing[k]).target_time,
        )
}

/// Whether `a` is listed ahead of `b`: the timer that is due first, and of
/// two that are due together the one that was created first.
pub open spec fn listed_ahead<H>(entries: Seq<Registered<H>>, a: TimerView, b: TimerView) -> bool {
    a.target_time.before(b.target_time) || (a.target_time == b.target_time && slot_of(
        entries,
        a.id,
    ) < slot_of(entries, b.id))
}

/// Whether `listing` is the list of the pending timers: each of them once,
/// none besides, in listing order.
pub open spec fn is_listing<H>(entries: Seq<Registered<H>>, listing: Seq<TimerView>) -> bool {
    &&& listing.len() == entries.len()
    &&& forall|k: int| 0 <= k < listing.len() ==> has_timer(entries, #[trigger] listing[k])
    &&& forall|i: int|
        0 <= i < entries.len() ==> listing.contains((#[trigger] entries[i]).timer)
    &&& forall|k: int, l: int|
        0 <= k < l < listing.len() ==> listed_ahead(
            entries,
            #[trigger] listing[k],
            #[trigger] listing[l],
        )
}

/// Whether the entry at `a` goes ahead of the entry at `b`.
pub open spec fn slot_ahead<H>(entries: Seq<Registered<H>>, a: int, b: int) -> bool {
    entries[a].timer.target_time.before(entries[b].timer.target_time) || (
    entries[a].timer.target_time == entries[b].timer.target_time && a < b)
}

/// Whether `order` arranges the first `n` entries in listing order: it
/// names each of them once and puts none behind one that it goes ahead of.
pub open spec fn arranges<H>(entries: Seq<Registered<H>>, order: Seq<int>, n: int) -> bool {
    &&& order.len() == n
    &&& forall|k: int| 0 <= k < n ==> 0 <= #[trigger] order[k] < n
    &&& forall|j: int| 0 <= j < n ==> #[trigger] order.contains(j)
    &&& forall|k: int, l: int|
        0 <= k < l < n ==> slot_ahead(entries, #[trigger] order[k], #[trigger] order[l])
}

/// Putting the next entry behind every entry that is not due later, and
/// ahead of the others, keeps the arrangement in listing order.
pub proof fn lemma_insert_arranges<H>(
    entries: Seq<Registered<H>>,
    order: Seq<int>,
    n: int,
    p: int,
)
    requires
        0 <= n < entries.len(),
        arranges(entries, order, n),
        0 <= p <= n,
        forall|k: int|
            0 <= k < p ==> !entries[n].timer.target_time.before(
                entries[#[trigger] order[k]].timer.target_time,
            ),
        p < n ==> entries[n].timer.target_time.before(entries[order[p]].timer.target_time),
    ensures
        arranges(entries, order.insert(p, n), n + 1),
{
    let next = order.insert(p, n);
    assert(next.len() == n + 1);
    assert(next[p] == n);
    assert forall|k: int| 0 <= k < p implies next[k] == order[k] by {}
    assert forall|k: int| p < k <= n implies next[k] == order[k - 1] by {}
    assert forall|j: int| 0 <= j < n + 1 implies #[trigger] next.contains(j) by {
        if j == n {
            assert(next[p] == j);
        } else {
            assert(order.contains(j));
            let k = choose|k: int| 0 <= k < order.len() && order[k] == j;
            if k < p {
                assert(next[k] == j);
            } else {
                assert(next[k + 1] == j);
            }
        }
    }
    assert forall|k: int, l: int| 0 <= k < l < n + 1 implies slot_ahead(
        entries,
        #[trigger] next[k],
        #[trigger] next[l],
    ) by {
        if l < p {
            assert(slot_ahead(entries, order[k], order[l]));
        } else if l == p {
            assert(!entries[n].timer.target_time.before(entries[order[k]].timer.target_time));
        } else if k == p {
            if p < l - 1 {
                assert(slot_ahead(entries, order[p], order[l - 1]));
            }
        } else if k < p {
            assert(slot_ahead(entries, order[k], order[l - 1]));
        } else {
            assert(slot_ahead(entries, order[k - 1], order[l - 1]));
        }
    }
}

/// Timers taken from the entries as an arrangement of all of them names
/// them are the list of the pending timers.
pub proof fn lemma_arranged_is_listing<H>(
    entries: Seq<Registered<H>>,
    order: Seq<int>,
    listing: Seq<TimerView>,
)
    requires
        unique_ids(entries),
        arranges(entries, order, entries.len() as int),
        listing.len() == entries.len(),
        forall|k: int| 0 <= k < listing.len() ==> #[trigger] listing[k] == entries[order[k]].timer,
    ensures
        is_listing(entries, listing),
        ascending(listing),
{
    assert forall|k: int| 0 <= k < listing.len() implies has_timer(
        entries,
        #[trigger] listing[k],
    ) by {
        assert(entries[order[k]].timer == listing[k]);
    }
    assert forall|i: int| 0 <= i < entries.len() implies listing.contains(
        (#[trigger] entries[i]).timer,
    ) by {
        assert(order.contains(i));
        let k = choose|k: int| 0 <= k < order.len() && order[k] == i;
        assert(listing[k] == entries[i].timer);
    }
    assert forall|k: int, l: int| 0 <= k < l < listing.len() implies listed_ahead(
        entries,
        #[trigger] listing[k],
        #[trigger] listing[l],
    ) && !listing[l].target_time.before(listing[k].target_time) by {
        assert(slot_ahead(entries, order[k], order[l]));
        lemma_slot_is_unique(entries, order[k]);
        lemma_slot_is_unique(entries, order[l]);
    }
}

} // verus!
