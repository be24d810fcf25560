//! Timers, the requests that ask for them, and the rules a request must meet.

use crate::instant::{Instant, Timestamp};
use crate::text::opt_text;
use vstd::prelude::*;

verus! {

/// What a timer does when it is due.
#[derive(Clone, Copy, Debug, PartialEq, Eq, Structural)]
pub enum TimerAction {
    /// Show a message.
    Popup,
    /// Lock the session.
    Lock,
    /// Power the machine off.
    Shutdown,
    /// Restart the machine.
    Reboot,
}

/// Why an operation on the timers was refused.
#[derive(Clone, Copy, Debug, PartialEq, Eq, Structural)]
pub enum TimerError {
    /// The target time is not an RFC 3339 date-time.
    InvalidTimeFormat,
    /// The target time is now or in the past.
    TimeNotInFuture,
    /// A popup was asked for without any text to show.
    MissingMessage,
    /// The registry could not be reached. The registry itself never reports
    /// this; it is for the guard that serialises access to it.
    LockUnavailable,
    /// The identifier drawn for a new timer has been given to a timer
    /// before, pending or settled.
    DuplicateId,
}

impl TimerError {
    /// The text shown to the user for this error.
    pub open spec fn text(self) -> Seq<char> {
        match self {
            TimerError::InvalidTimeFormat => "Invalid date/time format"@,
            TimerError::TimeNotInFuture => "Selected time must be in the future"@,
            TimerError::MissingMessage => "Popup timers require a message"@,
            TimerError::LockUnavailable => "Failed to lock timer store"@,
            TimerError::DuplicateId => "Timer identifier is already in use"@,
        }
    }

    /// The text shown to the user for this error.
    pub fn message(&self) -> (r: &'static str)
        ensures
            r@ == self.text(),
    {
        match self {
            TimerError::InvalidTimeFormat => "Invalid date/time format",
            TimerError::TimeNotInFuture => "Selected time must be in the future",
            TimerError::MissingMessage => "Popup timers require a message",
            TimerError::LockUnavailable => "Failed to lock timer store",
            TimerError::DuplicateId => "Timer identifier is already in use",
        }
    }
}

/// A timer as the contracts see it.
pub struct TimerView {
    pub id: Seq<char>,
    pub action: TimerAction,
    pub target_time: Instant,
    pub message: Option<Seq<char>>,
    pub created_at: Instant,
}

impl TimerView {
    /// What holds of every timer from the moment it is created: it was due
    /// strictly after its creation, and a popup has text to show.
    pub open spec fn well_formed(self) -> bool {
        &&& self.created_at.before(self.target_time)
        &&& self.action == TimerAction::Popup ==> self.message is Some && self.message->0.len() > 0
    }
}

/// A scheduled one-shot action.
#[derive(Debug, PartialEq, Eq)]
pub struct TimerInfo {
    /// Identifier, unique among the pending timers.
    pub id: String,
    /// What to do when the timer is due.
    pub action: TimerAction,
    /// When the timer is due.
    pub target_time: Timestamp,
    /// Text for the action, without surrounding whitespace.
    pub message: Option<String>,
    /// When the timer was created.
    pub created_at: Timestamp,
}

impl View for TimerInfo {
    type V = TimerView;

    open spec fn view(&self) -> TimerView {
        TimerView {
            id: self.id@,
            action: self.action,
            target_time: self.target_time@,
            message: opt_text(self.message),
            created_at: self.created_at@,
        }
    }
}

impl Clone for TimerInfo {
    fn clone(&self) -> (r: TimerInfo)
        ensures
            r@ == self@,
    {
        let message = match &self.message {
            Some(text) => Some(text.clone()),
            None => None,
        };
        TimerInfo {
            id: self.id.clone(),
            action: self.action,
            target_time: self.target_time,
            message,
            created_at: self.created_at,
        }
    }
}

/// A request for a new timer, as the caller words it.
#[derive(Debug, PartialEq, Eq)]
pub struct CreateTimerRequest {
    /// What to do when the timer is due.
    pub action: TimerAction,
    /// When the timer is due, as an RFC 3339 date-time.
    pub target_time: String,
    /// Text for the action.
    pub message: Option<String>,
}

/// The first rule that a request breaks, if any. `target` is the target
/// time as far as it could be read, `message` the trimmed text, `now` the
/// moment of the check.
pub open spec fn request_fault(
    action: TimerAction,
    target: Option<Instant>,
    message: Option<Seq<char>>,
    now: Instant,
) -> Option<TimerError> {
    if target is None {
        Some(TimerError::InvalidTimeFormat)
    } else if !now.before(target->0) {
        Some(TimerError::TimeNotInFuture)
    } else if action == TimerAction::Popup && (message is None || message->0.len() == 0) {
        Some(TimerError::MissingMessage)
    } else {
        None
    }
}

/// The instant of an optional timestamp.
pub open spec fn opt_instant(t: Option<Timestamp>) -> Option<Instant> {
    match t {
        Some(t) => Some(t@),
        None => None,
    }
}

/// Holds a request to the rules: a readable target time, strictly after
/// `now`, and text for a popup. Returns the target time, or the first rule
/// broken.
pub fn check_request(
    action: TimerAction,
    target: Option<Timestamp>,
    message: &Option<String>,
    now: &Timestamp,
) -> (r: Result<Timestamp, TimerError>)
    ensures
        match request_fault(action, opt_instant(target), opt_text(*message), now@) {
            Some(fault) => r == Err::<Timestamp, TimerError>(fault),
            None => r == Ok::<Timestamp, TimerError>(target->0),
        },
{
    let target = match target {
        Some(target) => target,
        None => {
            return Err(TimerError::InvalidTimeFormat);
        },
    };
    if !now.is_before(&target) {
        return Err(TimerError::TimeNotInFuture);
    }
    if action == TimerAction::Popup {
        let usable = match message {
            Some(text) => !text.as_str().is_empty(),
            None => false,
        };
        if !usable {
            return Err(TimerError::MissingMessage);
        }
    }
    Ok(target)
}

} // verus!
