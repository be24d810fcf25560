//! The registry as the contracts see it: the pending timers in the order of
//! their creation, the identifiers of the timers that are settled, and what
//! each event makes of both.

use crate::instant::{parsed_instant, Instant};
use crate::registry::WaitOutcome;
use crate::text::opt_trimmed;
use crate::timer::{request_fault, TimerAction, TimerError, TimerInfo, TimerView};
use vstd::prelude::*;

verus! {

/// A pending timer together with the handle of its waiter.
pub struct Registered<H> {
    pub timer: TimerView,
    pub handle: H,
}

/// Whether a timer with the identifier `id` is pending.
pub open spec fn has_id<H>(entries: Seq<Registered<H>>, id: Seq<char>) -> bool {
    exists|i: int| 0 <= i < entries.len() && (#[trigger] entries[i]).timer.id == id
}

/// The position of the timer with the identifier `id`, where there is one.
pub open spec fn slot_of<H>(entries: Seq<Registered<H>>, id: Seq<char>) -> int {
    choose|i: int| 0 <= i < entries.len() && (#[trigger] entries[i]).timer.id == id
}

/// Whether no identifier occurs twice.
pub open spec fn unique_ids<H>(entries: Seq<Registered<H>>) -> bool {
    forall|i: int, j: int|
        0 <= i < j < entries.len() ==> (#[trigger] entries[i]).timer.id != (
        #[trigger] entries[j]).timer.id
}

/// The entries that are left once the timer with the identifier `id` is
/// taken out; all of them if there is no such timer.
pub open spec fn without<H>(entries: Seq<Registered<H>>, id: Seq<char>) -> Seq<Registered<H>> {
    if has_id(entries, id) {
        entries.remove(slot_of(entries, id))
    } else {
        entries
    }
}

/// In a registry without repeated identifiers, the entry found under an
/// identifier is the only one that carries it.
pub proof fn lemma_slot_is_unique<H>(entries: Seq<Registered<H>>, i: int)
    requires
        unique_ids(entries),
        0 <= i < entries.len(),
    ensures
        has_id(entries, entries[i].timer.id),
        slot_of(entries, entries[i].timer.id) == i,
{
    let id = entries[i].timer.id;
    let j = slot_of(entries, id);
    assert(0 <= j < entries.len() && entries[j].timer.id == id);
    if j < i {
        assert(entries[j].timer.id != entries[i].timer.id);
    } else if i < j {
        assert(entries[i].timer.id != entries[j].timer.id);
    }
}

/// Taking an entry out of a registry without repeated identifiers leaves
/// one without repeated identifiers.
pub proof fn lemma_remove_keeps_unique<H>(entries: Seq<Registered<H>>, i: int)
    requires
        unique_ids(entries),
        0 <= i < entries.len(),
    ensures
        unique_ids(entries.remove(i)),
        !has_id(entries.remove(i), entries[i].timer.id),
{
    let rest = entries.remove(i);
    assert forall|a: int, b: int| 0 <= a < b < rest.len() implies (#[trigger] rest[a]).timer.id != (
    #[trigger] rest[b]).timer.id by {
        let a0 = if a < i { a } else { a + 1 };
        let b0 = if b < i { b } else { b + 1 };
        assert(rest[a] == entries[a0] && rest[b] == entries[b0]);
    }
    assert forall|a: int| 0 <= a < rest.len() implies (#[trigger] rest[a]).timer.id
        != entries[i].timer.id by {
        let a0 = if a < i { a } else { a + 1 };
        assert(rest[a] == entries[a0]);
        if a0 < i {
            assert(entries[a0].timer.id != entries[i].timer.id);
        } else {
            assert(entries[i].timer.id != entries[a0].timer.id);
        }
    }
}

/// Taking the timer `id` out leaves no timer `id`, and a second attempt
/// changes nothing.
pub proof fn lemma_without_removes<H>(entries: Seq<Registered<H>>, id: Seq<char>)
    requires
        unique_ids(entries),
    ensures
        unique_ids(without(entries, id)),
        !has_id(without(entries, id), id),
        without(without(entries, id), id) == without(entries, id),
{
    if has_id(entries, id) {
        lemma_remove_keeps_unique(entries, slot_of(entries, id));
    }
}

/// Taking one timer out does not touch the others.
pub proof fn lemma_without_keeps_others<H>(
    entries: Seq<Registered<H>>,
    gone: Seq<char>,
    id: Seq<char>,
)
    requires
        gone != id,
    ensures
        has_id(without(entries, gone), id) == has_id(entries, id),
{
    if has_id(entries, gone) {
        let j = slot_of(entries, gone);
        let rest = entries.remove(j);
        if has_id(entries, id) {
            let i = slot_of(entries, id);
            if i < j {
                assert(rest[i] == entries[i]);
            } else {
                assert(rest[i - 1] == entries[i]);
            }
        }
        if has_id(rest, id) {
            let i = slot_of(rest, id);
            if i < j {
                assert(rest[i] == entries[i]);
            } else {
                assert(rest[i] == entries[i + 1]);
            }
        }
    }
}

/// Adding an entry under an identifier that no entry carries leaves no
/// identifier twice, and touches no other identifier.
pub proof fn lemma_push_keeps_unique<H>(entries: Seq<Registered<H>>, entry: Registered<H>)
    requires
        unique_ids(entries),
        !has_id(entries, entry.timer.id),
    ensures
        unique_ids(entries.push(entry)),
        forall|id: Seq<char>|
            #[trigger] has_id(entries.push(entry), id) == (id == entry.timer.id || has_id(
                entries,
                id,
            )),
{
    let after = entries.push(entry);
    assert forall|a: int, b: int| 0 <= a < b < after.len() implies (#[trigger] after[a]).timer.id
        != (#[trigger] after[b]).timer.id by {
        if b < entries.len() {
            assert(after[a] == entries[a] && after[b] == entries[b]);
        } else {
            assert(after[a] == entries[a]);
        }
    }
    assert forall|id: Seq<char>| #[trigger]
        has_id(after, id) == (id == entry.timer.id || has_id(entries, id)) by {
        if has_id(entries, id) {
            assert(after[slot_of(entries, id)] == entries[slot_of(entries, id)]);
        }
        if id == entry.timer.id {
            assert(after[entries.len() as int] == entry);
        }
        if has_id(after, id) && id != entry.timer.id {
            let i = slot_of(after, id);
            assert(after[i] == entries[i]);
        }
    }
}

/// The registry as the contracts see it.
pub struct Ledger<H> {
    /// The pending timers with the handles of their waiters, in the order
    /// of their creation.
    pub pending: Seq<Registered<H>>,
    /// The identifiers of the timers that were cancelled or have fired.
    pub retired: Set<Seq<char>>,
}

impl<H> Ledger<H> {
    /// What holds of every registry: no identifier is carried by two
    /// pending timers, and none by a pending timer and a settled one.
    pub open spec fn sound(self) -> bool {
        &&& unique_ids(self.pending)
        &&& forall|id: Seq<char>| #[trigger] self.retired.contains(id) ==> !has_id(self.pending, id)
    }

    /// Whether the identifier has been given to a timer, pending or
    /// settled.
    pub open spec fn knows(self, id: Seq<char>) -> bool {
        has_id(self.pending, id) || self.retired.contains(id)
    }

    /// The registry once the pending timer `id` is settled: the timer is
    /// taken out and its identifier is kept. A registry without such a
    /// timer stays as it is.
    pub open spec fn settle(self, id: Seq<char>) -> Ledger<H> {
        if has_id(self.pending, id) {
            Ledger { pending: without(self.pending, id), retired: self.retired.insert(id) }
        } else {
            self
        }
    }

    /// The registry once `entry` is appended to the pending timers.
    pub open spec fn enroll(self, entry: Registered<H>) -> Ledger<H> {
        Ledger { pending: self.pending.push(entry), retired: self.retired }
    }
}

/// Settling a timer keeps the registry sound, leaves the timer no longer
/// pending, and keeps every identifier that was known.
pub proof fn lemma_settle_is_sound<H>(ledger: Ledger<H>, id: Seq<char>)
    requires
        ledger.sound(),
    ensures
        ledger.settle(id).sound(),
        !has_id(ledger.settle(id).pending, id),
        ledger.settle(id).settle(id) == ledger.settle(id),
        forall|other: Seq<char>|
            ledger.knows(other) ==> #[trigger] ledger.settle(id).knows(other),
        forall|other: Seq<char>|
            other != id ==> #[trigger] has_id(ledger.settle(id).pending, other) == has_id(
                ledger.pending,
                other,
            ),
        forall|other: Seq<char>| #[trigger]
            ledger.settle(id).knows(other) ==> ledger.knows(other),
{
    lemma_without_removes(ledger.pending, id);
    let after = ledger.settle(id);
    assert forall|other: Seq<char>| other != id implies #[trigger] has_id(after.pending, other)
        == has_id(ledger.pending, other) by {
        lemma_without_keeps_others(ledger.pending, id, other);
    }
    assert forall|other: Seq<char>| #[trigger] after.retired.contains(other) implies !has_id(
        after.pending,
        other,
    ) by {
        if other != id {
            lemma_without_keeps_others(ledger.pending, id, other);
        }
    }
}

/// Appending a timer under an identifier that is not known keeps the
/// registry sound, and makes known that identifier and no other.
pub proof fn lemma_enroll_is_sound<H>(ledger: Ledger<H>, entry: Registered<H>)
    requires
        ledger.sound(),
        !ledger.knows(entry.timer.id),
    ensures
        ledger.enroll(entry).sound(),
        forall|id: Seq<char>|
            #[trigger] has_id(ledger.enroll(entry).pending, id) == (id == entry.timer.id
                || has_id(ledger.pending, id)),
        forall|id: Seq<char>|
            #[trigger] ledger.enroll(entry).knows(id) == (id == entry.timer.id || ledger.knows(
                id,
            )),
{
    lemma_push_keeps_unique(ledger.pending, entry);
}

/// Something that happens to a registry.
pub enum Event<H> {
    /// A timer is to be registered with the handle of its waiter.
    Create(Registered<H>),
    /// The timer with this identifier is to be cancelled.
    Cancel(Seq<char>),
    /// The waiter of the timer with this identifier has woken up.
    Wake(Seq<char>, WaitOutcome),
}

/// The registry after an event. A timer is registered only under an
/// identifier that no timer has had before; a cancellation settles its
/// timer, and so does the wake-up of a waiter that claims it.
pub open spec fn after_event<H>(ledger: Ledger<H>, event: Event<H>) -> Ledger<H> {
    match event {
        Event::Create(entry) => if ledger.knows(entry.timer.id) {
            ledger
        } else {
            ledger.enroll(entry)
        },
        Event::Cancel(id) => ledger.settle(id),
        Event::Wake(id, outcome) => if outcome.claims() {
            ledger.settle(id)
        } else {
            ledger
        },
    }
}

/// Whether the event registers a timer under `id`.
pub open spec fn creates<H>(ledger: Ledger<H>, event: Event<H>, id: Seq<char>) -> bool {
    event matches Event::Create(entry) && entry.timer.id == id && !ledger.knows(id)
}

/// Whether the event is a cancellation of the timer `id` that finds it
/// pending, and so reports success.
pub open spec fn cancels<H>(ledger: Ledger<H>, event: Event<H>, id: Seq<char>) -> bool {
    event matches Event::Cancel(target) && target == id && has_id(ledger.pending, id)
}

/// Whether the event is a wake-up that finds the timer `id` pending and
/// claims it, so that its action is carried out.
pub open spec fn fires<H>(ledger: Ledger<H>, event: Event<H>, id: Seq<char>) -> bool {
    event matches Event::Wake(target, outcome) && target == id && outcome.claims() && has_id(
        ledger.pending,
        id,
    )
}

/// What becomes of a request once its target time has been read and its
/// text trimmed: the timer that is registered under `id` with `now` as its
/// creation time, or the reason for which nothing is registered. An
/// identifier that a timer has had before is refused, whether that timer is
/// pending or settled.
pub open spec fn admission<H>(
    ledger: Ledger<H>,
    id: Seq<char>,
    action: TimerAction,
    target: Option<Instant>,
    message: Option<Seq<char>>,
    now: Instant,
) -> Result<TimerView, TimerError> {
    match request_fault(action, target, message, now) {
        Some(fault) => Err(fault),
        None => if ledger.knows(id) {
            Err(TimerError::DuplicateId)
        } else {
            Ok(TimerView { id, action, target_time: target->0, message, created_at: now })
        },
    }
}

/// What becomes of a request as the caller words it, at the moment `now`
/// and with `id` drawn for the new timer.
pub open spec fn creation_outcome<H>(
    ledger: Ledger<H>,
    action: TimerAction,
    target_time: Seq<char>,
    message: Option<Seq<char>>,
    now: Instant,
    id: Seq<char>,
) -> Result<TimerView, TimerError> {
    admission(ledger, id, action, parsed_instant(target_time), opt_trimmed(message), now)
}

/// How a registry and the answer to the caller follow from the outcome of
/// a request: the timer is registered with its waiter's handle and
/// returned, or the registry stays as it was and the reason is returned.
pub open spec fn creation_applied<H>(
    before: Ledger<H>,
    after: Ledger<H>,
    handle: H,
    outcome: Result<TimerView, TimerError>,
    answer: Result<TimerInfo, TimerError>,
) -> bool {
    match outcome {
        Ok(timer) => answer is Ok && answer->Ok_0@ == timer && after == after_event(
            before,
            Event::Create(Registered { timer, handle }),
        ),
        Err(fault) => answer == Err::<TimerInfo, TimerError>(fault) && after == before,
    }
}

} // verus!
