//! The registry of pending timers.
//!
//! A timer is in the registry from its creation until it is cancelled or
//! commits to firing, whichever comes first. Both ways out remove the entry,
//! so whoever finds the entry gone has lost the race. The identifier of a
//! timer that has left is kept: a registry gives no identifier out twice.

use crate::ident::{random_id, ID_LENGTH};
use crate::instant::{parsed_instant, Instant, Timestamp};
use crate::listing::{
    arranges, ascending, is_listing, lemma_arranged_is_listing, lemma_insert_arranges, views,
};
use crate::model::{
    admission, after_event, cancels, creation_applied, creation_outcome, fires, has_id,
    lemma_enroll_is_sound, lemma_settle_is_sound, lemma_slot_is_unique, slot_of, Event, Ledger,
    Registered,
};
use crate::text::{opt_text, opt_trimmed, same_text, trim};
use crate::timer::{
    check_request, opt_instant, CreateTimerRequest, TimerAction, TimerError, TimerInfo,
};
use vstd::prelude::*;

verus! {

/// How a waiter's sleep ended.
#[derive(Clone, Copy, Debug, PartialEq, Eq, Structural)]
pub enum WaitOutcome {
    /// The cancellation signal arrived before the deadline.
    Cancelled,
    /// The deadline passed without a signal.
    Elapsed,
    /// The signalling side went away without a signal, and the deadline
    /// has not passed.
    Abandoned,
}

impl WaitOutcome {
    /// Whether the waiter goes on to claim its timer for firing: only a
    /// waiter that saw its deadline pass does.
    pub open spec fn claims(self) -> bool {
        self == WaitOutcome::Elapsed
    }

    /// Whether the waiter sleeps on until its deadline: no signal can reach
    /// it any more, but its timer is not due yet.
    pub open spec fn sleeps_on(self) -> bool {
        self == WaitOutcome::Abandoned
    }

    /// Whether the waiter has to sleep on until its deadline, after which
    /// its sleep has ended as `Elapsed`.
    pub fn must_sleep_on(&self) -> (r: bool)
        ensures
            r == self.sleeps_on(),
    {
        match self {
            WaitOutcome::Abandoned => true,
            _ => false,
        }
    }
}

struct Entry<H> {
    info: TimerInfo,
    handle: H,
}

/// The pending timers, each with the handle of its waiter, in the order of
/// their creation, and the identifiers of the timers that are settled. The
/// identifiers are kept so that none is given out a second time.
pub struct TimerRegistry<H> {
    entries: Vec<Entry<H>>,
    retired: Vec<String>,
}

impl<H> View for TimerRegistry<H> {
    type V = Ledger<H>;

    closed spec fn view(&self) -> Ledger<H> {
        Ledger { pending: registered(self.entries@), retired: id_set(self.retired@) }
    }
}

spec fn registered<H>(entries: Seq<Entry<H>>) -> Seq<Registered<H>> {
    Seq::new(
        entries.len(),
        |i: int| Registered { timer: entries[i].info@, handle: entries[i].handle },
    )
}

spec fn id_set(ids: Seq<String>) -> Set<Seq<char>> {
    Set::new(|id: Seq<char>| exists|i: int| 0 <= i < ids.len() && (#[trigger] ids[i])@ == id)
}

impl<H> TimerRegistry<H> {
    #[verifier::type_invariant]
    spec fn is_sound(self) -> bool {
        self@.sound()
    }

    /// A registry without timers.
    pub fn new() -> (r: TimerRegistry<H>)
        ensures
            r@.pending == Seq::<Registered<H>>::empty(),
            r@.retired == Set::<Seq<char>>::empty(),
    {
        let r = TimerRegistry { entries: Vec::new(), retired: Vec::new() };
        assert(r@.pending =~= Seq::<Registered<H>>::empty());
        assert(r@.retired =~= Set::<Seq<char>>::empty());
        r
    }

    /// The number of pending timers.
    pub fn len(&self) -> (n: usize)
        ensures
            n == self@.pending.len(),
            self@.sound(),
    {
        proof {
            use_type_invariant(self);
        }
        self.entries.len()
    }

    /// Whether no timer is pending.
    pub fn is_empty(&self) -> (r: bool)
        ensures
            r == (self@.pending.len() == 0),
    {
        self.entries.len() == 0
    }

    fn find(&self, id: &str) -> (r: Option<usize>)
        ensures
            self@.sound(),
            match r {
                Some(i) => i < self@.pending.len() && self@.pending[i as int].timer.id == id@
                    && has_id(self@.pending, id@) && slot_of(self@.pending, id@) == i,
                None => !has_id(self@.pending, id@),
            },
    {
        proof {
            use_type_invariant(self);
        }
        let mut i: usize = 0;
        while i < self.entries.len()
            invariant
                i <= self.entries.len(),
                self@.pending.len() == self.entries.len(),
                self@.sound(),
                forall|k: int| 0 <= k < i ==> (#[trigger] self@.pending[k]).timer.id != id@,
            decreases self.entries.len() - i,
        {
            if same_text(self.entries[i].info.id.as_str(), id) {
                proof {
                    lemma_slot_is_unique(self@.pending, i as int);
                }
                return Some(i);
            }
            i += 1;
        }
        None
    }

    fn is_retired(&self, id: &str) -> (r: bool)
        ensures
            r == self@.retired.contains(id@),
    {
        let mut i: usize = 0;
        while i < self.retired.len()
            invariant
                i <= self.retired.len(),
                forall|k: int| 0 <= k < i ==> (#[trigger] self.retired@[k])@ != id@,
            decreases self.retired.len() - i,
        {
            if same_text(self.retired[i].as_str(), id) {
                return true;
            }
            i += 1;
        }
        false
    }

    fn take_entry(&mut self, i: usize) -> (entry: Entry<H>)
        requires
            i < old(self)@.pending.len(),
        ensures
            final(self)@ == old(self)@.settle(old(self)@.pending[i as int].timer.id),
            final(self)@.sound(),
            entry.info@ == old(self)@.pending[i as int].timer,
            entry.handle == old(self)@.pending[i as int].handle,
    {
        proof {
            use_type_invariant(&*self);
        }
        let ghost id = self@.pending[i as int].timer.id;
        let mut entries: Vec<Entry<H>> = Vec::new();
        let mut retired: Vec<String> = Vec::new();
        std::mem::swap(&mut self.entries, &mut entries);
        std::mem::swap(&mut self.retired, &mut retired);
        let entry = entries.remove(i);
        retired.push(entry.info.id.clone());
        proof {
            lemma_slot_is_unique(old(self)@.pending, i as int);
            lemma_settle_is_sound(old(self)@, id);
            assert(registered(entries@) =~= old(self)@.pending.remove(i as int));
            assert(id_set(retired@) =~= old(self)@.retired.insert(id)) by {
                let before = old(self).retired@;
                assert(retired@ == before.push(retired@[before.len() as int]));
                assert(retired@[before.len() as int]@ == id);
                assert forall|other: Seq<char>| #[trigger]
                    id_set(retired@).contains(other) implies old(self)@.retired.insert(
                    id,
                ).contains(other) by {
                    let k = choose|k: int| 0 <= k < retired@.len() && (#[trigger] retired@[k])@
                        == other;
                    if k < before.len() {
                        assert(before[k]@ == other);
                    }
                }
                assert forall|other: Seq<char>|
                    old(self)@.retired.insert(id).contains(other) implies #[trigger] id_set(
                    retired@,
                ).contains(other) by {
                    if other != id {
                        let k = choose|k: int| 0 <= k < before.len() && (#[trigger] before[k])@
                            == other;
                        assert(retired@[k]@ == other);
                    }
                }
            }
            assert(id_set(Seq::<String>::empty()) =~= Set::<Seq<char>>::empty());
        }
        self.retired = retired;
        self.entries = entries;
        entry
    }

    fn append_entry(&mut self, info: TimerInfo, handle: H)
        requires
            !old(self)@.knows(info@.id),
        ensures
            final(self)@ == old(self)@.enroll(Registered { timer: info@, handle }),
            final(self)@.sound(),
    {
        proof {
            use_type_invariant(&*self);
        }
        let ghost added = Registered { timer: info@, handle };
        let mut entries: Vec<Entry<H>> = Vec::new();
        std::mem::swap(&mut self.entries, &mut entries);
        entries.push(Entry { info, handle });
        proof {
            assert(registered(entries@) =~= old(self)@.pending.push(added));
            lemma_enroll_is_sound(old(self)@, added);
        }
        self.entries = entries;
    }

    /// Whether a timer with the identifier `id` is pending.
    pub fn contains(&self, id: &str) -> (r: bool)
        ensures
            r == has_id(self@.pending, id@),
    {
        self.find(id).is_some()
    }

    /// Whether the identifier `id` has been given to a timer, pending or
    /// settled.
    pub fn knows(&self, id: &str) -> (r: bool)
        ensures
            r == self@.knows(id@),
    {
        self.find(id).is_some() || self.is_retired(id)
    }

    /// Registers a timer under `id` for a request whose target time has
    /// been read and whose text has been trimmed, with `now` as the moment
    /// of creation. The request is held to the rules first; an identifier
    /// that a timer has had before is refused last.
    pub fn register(
        &mut self,
        id: String,
        action: TimerAction,
        target: Option<Timestamp>,
        message: Option<String>,
        now: Timestamp,
        handle: H,
    ) -> (r: Result<TimerInfo, TimerError>)
        ensures
            creation_applied(
                old(self)@,
                final(self)@,
                handle,
                admission(old(self)@, id@, action, opt_instant(target), opt_text(message), now@),
                r,
            ),
            final(self)@.sound(),
    {
        proof {
            use_type_invariant(&*self);
        }
        let target_time = match check_request(action, target, &message, &now) {
            Ok(target_time) => target_time,
            Err(fault) => {
                return Err(fault);
            },
        };
        if self.knows(id.as_str()) {
            return Err(TimerError::DuplicateId);
        }
        let info = TimerInfo { id, action, target_time, message, created_at: now };
        let answer = info.clone();
        self.append_entry(info, handle);
        Ok(answer)
    }

    /// Creates a timer at the moment `now` under the identifier `id`: reads
    /// the target time, trims the text, holds the request to the rules and
    /// registers the timer with the handle of its waiter. A request that is
    /// refused leaves the registry as it was.
    pub fn create_timer_at(
        &mut self,
        request: &CreateTimerRequest,
        now: Timestamp,
        id: String,
        handle: H,
    ) -> (r: Result<TimerInfo, TimerError>)
        ensures
            creation_applied(
                old(self)@,
                final(self)@,
                handle,
                creation_outcome(
                    old(self)@,
                    request.action,
                    request.target_time@,
                    opt_text(request.message),
                    now@,
                    id@,
                ),
                r,
            ),
            final(self)@.sound(),
    {
        let target = Timestamp::parse_rfc3339(request.target_time.as_str());
        let message = match &request.message {
            Some(text) => Some(trim(text.as_str())),
            None => None,
        };
        self.register(id, request.action, target, message, now, handle)
    }

    /// Creates a timer now, under an identifier drawn at random. The waiter
    /// whose handle is given may be started once this returns a timer: by
    /// then the timer is in the registry.
    pub fn create_timer(&mut self, request: &CreateTimerRequest, handle: H) -> (r: Result<
        TimerInfo,
        TimerError,
    >)
        ensures
            exists|now: Instant, id: Seq<char>|
                now.representable() && id.len() == ID_LENGTH && creation_applied(
                    old(self)@,
                    final(self)@,
                    handle,
                    #[trigger] creation_outcome(
                        old(self)@,
                        request.action,
                        request.target_time@,
                        opt_text(request.message),
                        now,
                        id,
                    ),
                    r,
                ),
            final(self)@.sound(),
            r is Err ==> final(self)@ == old(self)@,
            r matches Err(fault) ==> fault != TimerError::LockUnavailable,
            parsed_instant(request.target_time@) is None ==> r == Err::<TimerInfo, TimerError>(
                TimerError::InvalidTimeFormat,
            ),
            r matches Ok(timer) ==> {
                &&& final(self)@ == old(self)@.enroll(Registered { timer: timer@, handle })
                &&& !old(self)@.knows(timer@.id)
                &&& timer@.well_formed()
                &&& timer@.action == request.action
                &&& Some(timer@.target_time) == parsed_instant(request.target_time@)
                &&& timer@.message == opt_trimmed(opt_text(request.message))
            },
    {
        let now = Timestamp::now();
        let id = random_id();
        let ghost now_view = now@;
        let ghost id_view = id@;
        let r = self.create_timer_at(request, now, id, handle);
        proof {
            let outcome = creation_outcome(
                old(self)@,
                request.action,
                request.target_time@,
                opt_text(request.message),
                now_view,
                id_view,
            );
            assert(creation_applied(old(self)@, self@, handle, outcome, r));
        }
        r
    }

    /// The pending timers, ordered by target time; timers that are due
    /// together keep the order of their creation. The registry is left as
    /// it is.
    pub fn list_timers(&self) -> (listing: Vec<TimerInfo>)
        ensures
            is_listing(self@.pending, views(listing@)),
            ascending(views(listing@)),
            self@.sound(),
    {
        proof {
            use_type_invariant(self);
        }
        let mut listing: Vec<TimerInfo> = Vec::new();
        let ghost mut order: Seq<int> = Seq::empty();
        let mut i: usize = 0;
        while i < self.entries.len()
            invariant
                i <= self.entries.len(),
                self@.pending == registered(self.entries@),
                listing.len() == i,
                arranges(self@.pending, order, i as int),
                forall|k: int| 0 <= k < i ==> (#[trigger] listing@[k])@ == self@.pending[order[k]].timer,
            decreases self.entries.len() - i,
        {
            let info = &self.entries[i].info;
            let mut p: usize = 0;
            while p < listing.len() && !info.target_time.is_before(&listing[p].target_time)
                invariant
                    p <= listing.len(),
                    listing.len() == i,
                    i < self.entries.len(),
                    self@.pending == registered(self.entries@),
                    info == self.entries@[i as int].info,
                    order.len() == i,
                    forall|k: int|
                        0 <= k < i ==> 0 <= #[trigger] order[k] < i && listing@[k]@
                            == self@.pending[order[k]].timer,
                    forall|k: int|
                        0 <= k < p ==> !self@.pending[i as int].timer.target_time.before(
                            self@.pending[#[trigger] order[k]].timer.target_time,
                        ),
                decreases listing.len() - p,
            {
                p += 1;
            }
            let ghost before = listing@;
            listing.insert(p, info.clone());
            proof {
                lemma_insert_arranges(self@.pending, order, i as int, p as int);
                order = order.insert(p as int, i as int);
                assert forall|k: int| 0 <= k < i + 1 implies (#[trigger] listing@[k])@
                    == self@.pending[order[k]].timer by {
                    if k < p {
                        assert(listing@[k] == before[k]);
                    } else if k > p {
                        assert(listing@[k] == before[k - 1]);
                    }
                }
            }
            i += 1;
        }
        proof {
            lemma_arranged_is_listing(self@.pending, order, views(listing@));
        }
        listing
    }

    /// Cancels the timer with the identifier `id`: takes it out of the
    /// registry and hands back the handle on which its waiter is to be
    /// signalled. `None` means that no such timer is pending, whether it
    /// never was, has fired or was cancelled before.
    pub fn cancel_timer(&mut self, id: &str) -> (r: Option<H>)
        ensures
            final(self)@ == after_event(old(self)@, Event::Cancel(id@)),
            final(self)@.sound(),
            r is Some <==> cancels(old(self)@, Event::Cancel(id@), id@),
            r matches Some(handle) ==> handle == old(self)@.pending[slot_of(
                old(self)@.pending,
                id@,
            )].handle,
    {
        match self.find(id) {
            Some(i) => {
                let entry = self.take_entry(i);
                Some(entry.handle)
            },
            None => None,
        }
    }

    /// Settles what a waiter does when its sleep has ended. Only a waiter
    /// that saw its deadline pass claims its timer: if the timer is still
    /// pending it leaves the registry and is handed back to be fired; if
    /// it is gone, a cancellation came first and nothing is to be done. A
    /// waiter that was signalled stands down, and one whose signalling
    /// side went away has nothing to claim before its deadline.
    pub fn resolve_wait(&mut self, id: &str, outcome: WaitOutcome) -> (r: Option<TimerInfo>)
        ensures
            final(self)@ == after_event(old(self)@, Event::Wake(id@, outcome)),
            final(self)@.sound(),
            r is Some <==> fires(old(self)@, Event::Wake(id@, outcome), id@),
            r matches Some(timer) ==> timer@ == old(self)@.pending[slot_of(
                old(self)@.pending,
                id@,
            )].timer,
    {
        match outcome {
            WaitOutcome::Elapsed => {},
            _ => {
                proof {
                    use_type_invariant(&*self);
                }
                return None;
            },
        }
        match self.find(id) {
            Some(i) => {
                let entry = self.take_entry(i);
                Some(entry.info)
            },
            None => None,
        }
    }
}

} // verus!
