//! Laws of the registry: what holds of every run of creations,
//! cancellations and waiters' wake-ups.

use crate::instant::{parsed_instant, Instant};
use crate::listing::{has_timer, is_listing, listed_ahead};
use crate::model::{
    after_event, cancels, creates, creation_outcome, fires, has_id, lemma_enroll_is_sound,
    lemma_settle_is_sound, unique_ids, Event, Ledger, Registered,
};
use crate::registry::WaitOutcome;
use crate::text::opt_trimmed;
use crate::timer::{TimerAction, TimerError, TimerView};
use vstd::prelude::*;

verus! {

/// The registry after a run of events.
pub open spec fn after_events<H>(ledger: Ledger<H>, events: Seq<Event<H>>) -> Ledger<H>
    decreases events.len(),
{
    if events.len() == 0 {
        ledger
    } else {
        after_event(after_events(ledger, events.drop_last()), events.last())
    }
}

/// One if the statement holds, nothing if it does not.
pub open spec fn count(holds: bool) -> nat {
    if holds {
        1
    } else {
        0
    }
}

/// How often a timer is registered under `id` in a run of events.
pub open spec fn creations<H>(ledger: Ledger<H>, events: Seq<Event<H>>, id: Seq<char>) -> nat
    decreases events.len(),
{
    if events.len() == 0 {
        0
    } else {
        let earlier = events.drop_last();
        creations(ledger, earlier, id) + count(
            creates(after_events(ledger, earlier), events.last(), id),
        )
    }
}

/// How often the timer `id` is cancelled with success in a run of events.
pub open spec fn cancellations<H>(ledger: Ledger<H>, events: Seq<Event<H>>, id: Seq<char>) -> nat
    decreases events.len(),
{
    if events.len() == 0 {
        0
    } else {
        let earlier = events.drop_last();
        cancellations(ledger, earlier, id) + count(
            cancels(after_events(ledger, earlier), events.last(), id),
        )
    }
}

/// How often the timer `id` fires in a run of events.
pub open spec fn firings<H>(ledger: Ledger<H>, events: Seq<Event<H>>, id: Seq<char>) -> nat
    decreases events.len(),
{
    if events.len() == 0 {
        0
    } else {
        let earlier = events.drop_last();
        firings(ledger, earlier, id) + count(
            fires(after_events(ledger, earlier), events.last(), id),
        )
    }
}

/// An event keeps the registry sound and touches no timer but the one it
/// names: a timer becomes pending only by being created and leaves only by
/// being cancelled or fired, and an identifier becomes known only by a
/// creation and stays known.
pub proof fn lemma_event_is_local<H>(ledger: Ledger<H>, event: Event<H>, id: Seq<char>)
    requires
        ledger.sound(),
    ensures
        after_event(ledger, event).sound(),
        count(has_id(after_event(ledger, event).pending, id)) + count(cancels(ledger, event, id))
            + count(fires(ledger, event, id)) == count(has_id(ledger.pending, id)) + count(
            creates(ledger, event, id),
        ),
        count(after_event(ledger, event).knows(id)) == count(ledger.knows(id)) + count(
            creates(ledger, event, id),
        ),
{
    match event {
        Event::Create(entry) => {
            if !ledger.knows(entry.timer.id) {
                lemma_enroll_is_sound(ledger, entry);
            }
        },
        Event::Cancel(target) => {
            lemma_settle_is_sound(ledger, target);
        },
        Event::Wake(target, outcome) => {
            lemma_settle_is_sound(ledger, target);
        },
    }
}

/// Every timer is settled at most once, and no identifier is given out
/// twice. Over any run of events, whatever is created, cancelled or woken
/// in it: the successful cancellations of the timer `id`, its firings and
/// its still being pending add up to what was pending at the start and
/// what was created since; and a timer is created under `id` at most
/// once, and never if the identifier was known at the start. So a timer
/// never fires twice, is never cancelled twice, never fires after a
/// cancellation that reported success, and is never reported as cancelled
/// once it has fired.
pub proof fn law_settled_at_most_once<H>(ledger: Ledger<H>, events: Seq<Event<H>>, id: Seq<char>)
    requires
        ledger.sound(),
    ensures
        after_events(ledger, events).sound(),
        cancellations(ledger, events, id) + firings(ledger, events, id) + count(
            has_id(after_events(ledger, events).pending, id),
        ) == count(has_id(ledger.pending, id)) + creations(ledger, events, id),
        creations(ledger, events, id) + count(ledger.knows(id)) == count(
            after_events(ledger, events).knows(id),
        ),
        cancellations(ledger, events, id) + firings(ledger, events, id) <= 1,
    decreases events.len(),
{
    if events.len() > 0 {
        law_settled_at_most_once(ledger, events.drop_last(), id);
        lemma_event_is_local(after_events(ledger, events.drop_last()), events.last(), id);
    }
}

/// No identifier is ever held by two pending timers, whatever is created,
/// cancelled or woken.
pub proof fn law_ids_stay_unique<H>(ledger: Ledger<H>, events: Seq<Event<H>>)
    requires
        ledger.sound(),
    ensures
        after_events(ledger, events).sound(),
        unique_ids(after_events(ledger, events).pending),
{
    law_settled_at_most_once(ledger, events, Seq::<char>::empty());
}

/// Whether the event at position `k` of a run is a creation that
/// registers its timer.
pub open spec fn registers<H>(ledger: Ledger<H>, events: Seq<Event<H>>, k: int) -> bool {
    events[k] matches Event::Create(entry) && creates(
        after_events(ledger, events.take(k)),
        events[k],
        entry.timer.id,
    )
}

proof fn lemma_created_id_stays<H>(ledger: Ledger<H>, events: Seq<Event<H>>, k: int, m: int)
    requires
        ledger.sound(),
        0 <= k < m <= events.len(),
        registers(ledger, events, k),
    ensures
        after_events(ledger, events.take(m)).knows(events[k]->Create_0.timer.id),
    decreases m - k,
{
    let id = events[k]->Create_0.timer.id;
    let earlier = after_events(ledger, events.take(m - 1));
    assert(events.take(m).drop_last() =~= events.take(m - 1));
    assert(events.take(m).last() == events[m - 1]);
    law_ids_stay_unique(ledger, events.take(m - 1));
    lemma_event_is_local(earlier, events[m - 1], id);
    if m > k + 1 {
        lemma_created_id_stays(ledger, events, k, m - 1);
    }
}

/// All timers that are ever created carry identifiers that are pairwise
/// distinct: in a run of events of any kind, two creations that register
/// their timer never do so under the same identifier, even when the first
/// timer has fired or was cancelled before the second is created.
pub proof fn law_created_ids_are_distinct<H>(
    ledger: Ledger<H>,
    events: Seq<Event<H>>,
    k: int,
    l: int,
)
    requires
        ledger.sound(),
        0 <= k < l < events.len(),
        registers(ledger, events, k),
        registers(ledger, events, l),
    ensures
        events[k]->Create_0.timer.id != events[l]->Create_0.timer.id,
{
    lemma_created_id_stays(ledger, events, k, l);
}

/// Cancelling is idempotent: of two cancellations of a pending timer in a
/// row, the first reports success and the second finds nothing.
pub proof fn law_cancel_twice<H>(ledger: Ledger<H>, id: Seq<char>)
    requires
        ledger.sound(),
        has_id(ledger.pending, id),
    ensures
        cancels(ledger, Event::<H>::Cancel(id), id),
        !cancels(after_event(ledger, Event::<H>::Cancel(id)), Event::<H>::Cancel(id), id),
        after_event(after_event(ledger, Event::<H>::Cancel(id)), Event::<H>::Cancel(id))
            == after_event(ledger, Event::<H>::Cancel(id)),
{
    lemma_settle_is_sound(ledger, id);
}

/// A cancellation and a deadline that meet are settled by whichever comes
/// first. If the cancellation is first, it reports success and the waiter
/// fires nothing, however its sleep ended. If the waiter's claim is first,
/// the timer fires and the cancellation reports that it found nothing.
pub proof fn law_first_claim_wins<H>(ledger: Ledger<H>, id: Seq<char>, outcome: WaitOutcome)
    requires
        ledger.sound(),
        has_id(ledger.pending, id),
    ensures
        cancels(ledger, Event::<H>::Cancel(id), id) && !fires(
            after_event(ledger, Event::<H>::Cancel(id)),
            Event::<H>::Wake(id, outcome),
            id,
        ),
        outcome.claims() ==> fires(ledger, Event::<H>::Wake(id, outcome), id) && !cancels(
            after_event(ledger, Event::<H>::Wake(id, outcome)),
            Event::<H>::Cancel(id),
            id,
        ),
{
    lemma_settle_is_sound(ledger, id);
}

/// A timer fires only through its deadline: a waiter that was signalled,
/// or whose signalling side went away, fires nothing and leaves the
/// registry as it is.
pub proof fn law_only_a_deadline_fires<H>(ledger: Ledger<H>, id: Seq<char>, outcome: WaitOutcome)
    requires
        outcome != WaitOutcome::Elapsed,
    ensures
        !fires(ledger, Event::<H>::Wake(id, outcome), id),
        after_event(ledger, Event::<H>::Wake(id, outcome)) == ledger,
{
}

/// A request whose target time cannot be read, or is not after the moment
/// of the request, is refused for that reason, whatever else it holds.
pub proof fn law_unusable_time_is_refused<H>(
    ledger: Ledger<H>,
    action: TimerAction,
    target_time: Seq<char>,
    message: Option<Seq<char>>,
    now: Instant,
    id: Seq<char>,
)
    ensures
        parsed_instant(target_time) is None ==> creation_outcome(
            ledger,
            action,
            target_time,
            message,
            now,
            id,
        ) == Err::<TimerView, TimerError>(TimerError::InvalidTimeFormat),
        parsed_instant(target_time) matches Some(target) && !now.before(target)
            ==> creation_outcome(ledger, action, target_time, message, now, id) == Err::<
            TimerView,
            TimerError,
        >(TimerError::TimeNotInFuture),
{
}

/// A popup needs text: a request for a popup with a usable target time is
/// refused if it carries no message, or one that is empty once trimmed.
pub proof fn law_popup_needs_text<H>(
    ledger: Ledger<H>,
    target_time: Seq<char>,
    message: Option<Seq<char>>,
    now: Instant,
    id: Seq<char>,
)
    requires
        parsed_instant(target_time) matches Some(target) && now.before(target),
        message is None || opt_trimmed(message)->0.len() == 0,
    ensures
        creation_outcome(ledger, TimerAction::Popup, target_time, message, now, id) == Err::<
            TimerView,
            TimerError,
        >(TimerError::MissingMessage),
{
}

/// A timer that is created is well formed, and its identifier was given to
/// no timer before, pending or settled.
pub proof fn law_created_timer_is_sound<H>(
    ledger: Ledger<H>,
    action: TimerAction,
    target_time: Seq<char>,
    message: Option<Seq<char>>,
    now: Instant,
    id: Seq<char>,
)
    requires
        creation_outcome(ledger, action, target_time, message, now, id) is Ok,
    ensures
        ({
            let timer = creation_outcome(ledger, action, target_time, message, now, id)->Ok_0;
            &&& timer.well_formed()
            &&& timer.id == id
            &&& !ledger.knows(id)
            &&& timer.created_at == now
            &&& timer.message == opt_trimmed(message)
            &&& Some(timer.target_time) == parsed_instant(target_time)
        }),
{
}

/// The list of the pending timers is determined by the registry: timers
/// that are due together are listed in one order only.
pub proof fn law_listing_is_determined<H>(
    entries: Seq<Registered<H>>,
    first: Seq<TimerView>,
    second: Seq<TimerView>,
)
    requires
        unique_ids(entries),
        is_listing(entries, first),
        is_listing(entries, second),
    ensures
        first == second,
{
    assert forall|k: int| 0 <= k < first.len() implies first[k] == second[k] by {
        lemma_listings_agree(entries, first, second, k);
    }
    assert(first =~= second);
}

proof fn lemma_listings_agree<H>(
    entries: Seq<Registered<H>>,
    first: Seq<TimerView>,
    second: Seq<TimerView>,
    k: int,
)
    requires
        unique_ids(entries),
        is_listing(entries, first),
        is_listing(entries, second),
        0 <= k < first.len(),
    ensures
        first[k] == second[k],
    decreases k,
{
    // Where the k-th timer of each list stands in the other list.
    let i = choose|i: int| 0 <= i < entries.len() && (#[trigger] entries[i]).timer == first[k];
    assert(has_timer(entries, first[k]));
    assert(second.contains(entries[i].timer));
    let m = choose|m: int| 0 <= m < second.len() && second[m] == first[k];
    let j = choose|j: int| 0 <= j < entries.len() && (#[trigger] entries[j]).timer == second[k];
    assert(has_timer(entries, second[k]));
    assert(first.contains(entries[j].timer));
    let n = choose|n: int| 0 <= n < first.len() && first[n] == second[k];
    if m < k {
        lemma_listings_agree(entries, first, second, m);
        assert(listed_ahead(entries, first[m], first[k]));
    } else if n < k {
        lemma_listings_agree(entries, first, second, n);
        assert(listed_ahead(entries, second[n], second[k]));
    } else if m > k && n > k {
        assert(listed_ahead(entries, second[k], second[m]));
        assert(listed_ahead(entries, first[k], first[n]));
    }
}

} // verus!
