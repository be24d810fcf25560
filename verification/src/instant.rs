//! Points in time on the UTC scale, and the waiting time between two of them.

use chrono::{DateTime, Utc};
use vstd::prelude::*;

verus! {

/// Earliest second that a timestamp can hold: midnight at the start of the
/// year -262143.
pub const MIN_SECS: i64 = -8_334_601_228_800;

/// Latest second that a timestamp can hold: the last second of the year
/// 262142.
pub const MAX_SECS: i64 = 8_210_266_876_799;

/// Nanoseconds in one second.
pub const NANOS_PER_SEC: u32 = 1_000_000_000;

/// Seconds in one day.
pub const SECS_PER_DAY: i64 = 86_400;

/// A point in time: whole seconds since 1970-01-01T00:00:00Z, not counting
/// leap seconds, and the nanoseconds since that second began. Within a leap
/// second the nanoseconds run from one to two thousand million.
pub struct Instant {
    pub secs: int,
    pub nanos: int,
}

impl Instant {
    /// Whether the calendar can hold this point in time.
    pub open spec fn representable(self) -> bool {
        &&& MIN_SECS <= self.secs <= MAX_SECS
        &&& 0 <= self.nanos < 2 * NANOS_PER_SEC
        &&& self.nanos >= NANOS_PER_SEC ==> self.secs % 60 == 59
    }

    /// Chronological order: by second, then by nanosecond.
    pub open spec fn before(self, other: Instant) -> bool {
        self.secs < other.secs || (self.secs == other.secs && self.nanos < other.nanos)
    }

    /// Seconds since midnight.
    pub open spec fn second_of_day(self) -> int {
        self.secs % (SECS_PER_DAY as int)
    }

    /// Whether this instant lies within a leap second.
    pub open spec fn in_leap_second(self) -> bool {
        self.nanos >= NANOS_PER_SEC
    }

    /// Signed nanoseconds from `self` to `target`. A leap second that one of
    /// the two instants lies in is counted when the other instant's time of
    /// day is on the far side of it.
    pub open spec fn nanos_until(self, target: Instant) -> int {
        let leap: int = if target.second_of_day() > self.second_of_day() && self.in_leap_second() {
            1
        } else if target.second_of_day() < self.second_of_day() && target.in_leap_second() {
            -1
        } else {
            0
        };
        (target.secs - self.secs + leap) * NANOS_PER_SEC + (target.nanos - self.nanos)
    }

    /// The time left from `self` to `target`, if `target` is not in the past.
    pub open spec fn span_until(self, target: Instant) -> Option<(u64, u32)> {
        let total = self.nanos_until(target);
        if total < 0 {
            None
        } else {
            Some(((total / (NANOS_PER_SEC as int)) as u64, (total % (NANOS_PER_SEC as int)) as u32))
        }
    }
}

/// What `chrono::DateTime::parse_from_rfc3339` makes of `text`: the seconds
/// and nanoseconds of the instant it denotes, or `None` where it rejects
/// the text.
pub uninterp spec fn rfc3339_instant(text: Seq<char>) -> Option<(i64, u32)>;

/// The instant that an RFC 3339 date-time denotes, if it is one.
pub open spec fn parsed_instant(text: Seq<char>) -> Option<Instant> {
    match rfc3339_instant(text) {
        Some(parts) => Some(Instant { secs: parts.0 as int, nanos: parts.1 as int }),
        None => None,
    }
}

/// Calls `chrono::DateTime::parse_from_rfc3339` and reads the result on the
/// UTC scale. The outcome depends on the text alone; an accepted instant is
/// one that `DateTime` can hold, so it is representable.
#[verifier::external_body]
fn chrono_parse_rfc3339(text: &str) -> (r: Option<(i64, u32)>)
    ensures
        r == rfc3339_instant(text@),
        r matches Some(parts) ==> (Instant {
            secs: parts.0 as int,
            nanos: parts.1 as int,
        }).representable(),
{
    match DateTime::parse_from_rfc3339(text) {
        Ok(parsed) => {
            let utc = parsed.with_timezone(&Utc);
            Some((utc.timestamp(), utc.timestamp_subsec_nanos()))
        },
        Err(_) => None,
    }
}

/// Calls `chrono::Utc::now`, which reads the system clock. Nothing is known
/// of the reading but that `DateTime` can hold it. `Utc::now` does not
/// return if the clock is set before 1970.
#[verifier::external_body]
fn chrono_now() -> (r: (i64, u32))
    ensures
        (Instant { secs: r.0 as int, nanos: r.1 as int }).representable(),
{
    let now = Utc::now();
    (now.timestamp(), now.timestamp_subsec_nanos())
}

/// Subtracts two instants with `chrono::DateTime::signed_duration_since` and
/// converts the difference with `TimeDelta::to_std`: the time from `now` to
/// `target` in seconds and nanoseconds, or `None` if it is negative. The
/// difference is that of the seconds and of the nanoseconds, with one
/// second more or less where a leap second lies between the two times of
/// day. Both instants are representable, so `DateTime::from_timestamp`
/// accepts them.
#[verifier::external_body]
fn chrono_span(now: (i64, u32), target: (i64, u32)) -> (r: Option<(u64, u32)>)
    requires
        (Instant { secs: now.0 as int, nanos: now.1 as int }).representable(),
        (Instant { secs: target.0 as int, nanos: target.1 as int }).representable(),
    ensures
        r == (Instant { secs: now.0 as int, nanos: now.1 as int }).span_until(
            Instant { secs: target.0 as int, nanos: target.1 as int },
        ),
{
    let from = DateTime::from_timestamp(now.0, now.1).unwrap();
    let to = DateTime::from_timestamp(target.0, target.1).unwrap();
    match to.signed_duration_since(from).to_std() {
        Ok(span) => Some((span.as_secs(), span.subsec_nanos())),
        Err(_) => None,
    }
}

/// A representable point in time.
#[derive(Clone, Copy, Debug, PartialEq, Eq)]
pub struct Timestamp {
    secs: i64,
    nanos: u32,
}

impl View for Timestamp {
    type V = Instant;

    closed spec fn view(&self) -> Instant {
        Instant { secs: self.secs as int, nanos: self.nanos as int }
    }
}

/// How long a waiter sleeps before its timer is due.
#[derive(Clone, Copy, Debug, PartialEq, Eq)]
pub struct WaitSpan {
    pub secs: u64,
    pub nanos: u32,
}

impl WaitSpan {
    /// The span in nanoseconds.
    pub open spec fn total_nanos(self) -> int {
        self.secs * NANOS_PER_SEC + self.nanos
    }
}

/// The waiting time from `now` until `target`: nothing if `target` has
/// passed.
pub open spec fn wait_nanos(now: Instant, target: Instant) -> int {
    if now.nanos_until(target) < 0 {
        0
    } else {
        now.nanos_until(target)
    }
}

impl Timestamp {
    #[verifier::type_invariant]
    spec fn in_range(self) -> bool {
        self@.representable()
    }

    /// The timestamp of the given second and nanosecond, if the calendar
    /// can hold it.
    pub fn new(secs: i64, nanos: u32) -> (r: Option<Timestamp>)
        ensures
            r is Some <==> (Instant { secs: secs as int, nanos: nanos as int }).representable(),
            r matches Some(t) ==> t@ == (Instant { secs: secs as int, nanos: nanos as int }),
    {
        if secs < MIN_SECS || secs > MAX_SECS || nanos >= 2 * NANOS_PER_SEC {
            return None;
        }
        if nanos >= NANOS_PER_SEC && (secs - MIN_SECS) % 60 != 59 {
            return None;
        }
        Some(Timestamp { secs, nanos })
    }

    /// Whole seconds since the epoch.
    pub fn secs(&self) -> (r: i64)
        ensures
            r == self@.secs,
            self@.representable(),
    {
        proof {
            use_type_invariant(self);
        }
        self.secs
    }

    /// Nanoseconds since the second began.
    pub fn nanos(&self) -> (r: u32)
        ensures
            r == self@.nanos,
            self@.representable(),
    {
        proof {
            use_type_invariant(self);
        }
        self.nanos
    }

    /// Whether `self` is strictly earlier than `other`.
    pub fn is_before(&self, other: &Timestamp) -> (r: bool)
        ensures
            r == self@.before(other@),
    {
        self.secs < other.secs || (self.secs == other.secs && self.nanos < other.nanos)
    }

    /// Reads an RFC 3339 date-time, such as `1996-12-19T16:39:57-08:00`.
    pub fn parse_rfc3339(text: &str) -> (r: Option<Timestamp>)
        ensures
            match r {
                Some(t) => parsed_instant(text@) == Some(t@),
                None => parsed_instant(text@) is None,
            },
    {
        match chrono_parse_rfc3339(text) {
            Some(parts) => Timestamp::new(parts.0, parts.1),
            None => None,
        }
    }

    /// The current time by the system clock.
    pub fn now() -> (r: Timestamp)
        ensures
            r@.representable(),
    {
        let parts = chrono_now();
        Timestamp::new(parts.0, parts.1).unwrap()
    }

    /// How long to wait from now until `self`; no time at all if `self` has
    /// passed.
    pub fn wait_from_now(&self) -> (w: WaitSpan)
        ensures
            exists|now: Instant|
                now.representable() && w.total_nanos() == #[trigger] wait_nanos(now, self@),
            w.nanos < NANOS_PER_SEC,
    {
        let now = Timestamp::now();
        let w = now.wait_until(self);
        assert(w.total_nanos() == wait_nanos(now@, self@));
        w
    }

    /// How long to wait from `self` until `target`; no time at all if
    /// `target` is not later.
    pub fn wait_until(&self, target: &Timestamp) -> (w: WaitSpan)
        ensures
            w.total_nanos() == wait_nanos(self@, target@),
            w.nanos < NANOS_PER_SEC,
    {
        proof {
            use_type_invariant(self);
            use_type_invariant(target);
        }
        match chrono_span((self.secs, self.nanos), (target.secs, target.nanos)) {
            Some(span) => WaitSpan { secs: span.0, nanos: span.1 },
            None => WaitSpan { secs: 0, nanos: 0 },
        }
    }
}

} // verus!
