use chrono::{TimeDelta, Utc};
use lockpilot::instant::Timestamp;
use lockpilot::registry::{TimerRegistry, WaitOutcome};
use lockpilot::timer::{CreateTimerRequest, TimerAction, TimerError, TimerInfo};

fn at(secs: i64, nanos: u32) -> Timestamp {
    Timestamp::new(secs, nanos).expect("representable")
}

fn request(action: TimerAction, target_time: &str, message: Option<&str>) -> CreateTimerRequest {
    CreateTimerRequest {
        action,
        target_time: target_time.to_string(),
        message: message.map(|text| text.to_string()),
    }
}

/// 2030-01-01T00:00:00Z.
const NEW_YEAR: i64 = 1_893_456_000;

fn ids(listing: &[TimerInfo]) -> Vec<&str> {
    listing.iter().map(|timer| timer.id.as_str()).collect()
}

#[test]
fn new_registry_is_empty() {
    let registry: TimerRegistry<u32> = TimerRegistry::new();
    assert_eq!(registry.len(), 0);
    assert!(registry.is_empty());
    assert!(registry.list_timers().is_empty());
    assert!(!registry.contains("a"));
}

#[test]
fn create_registers_the_timer() {
    let mut registry: TimerRegistry<u32> = TimerRegistry::new();
    let now = at(NEW_YEAR - 10, 250);
    let created = registry
        .create_timer_at(
            &request(TimerAction::Lock, "2030-01-01T00:00:00Z", None),
            now,
            "id-1".to_string(),
            7,
        )
        .unwrap();
    assert_eq!(
        created,
        TimerInfo {
            id: "id-1".to_string(),
            action: TimerAction::Lock,
            target_time: at(NEW_YEAR, 0),
            message: None,
            created_at: now,
        }
    );
    assert_eq!(registry.len(), 1);
    assert!(!registry.is_empty());
    assert!(registry.contains("id-1"));
    assert_eq!(registry.list_timers(), vec![created]);
}

#[test]
fn create_reads_the_offset_of_the_target_time() {
    let mut registry: TimerRegistry<()> = TimerRegistry::new();
    let created = registry
        .create_timer_at(
            &request(TimerAction::Reboot, "2030-01-01T02:00:00+02:00", None),
            at(0, 0),
            "r".to_string(),
            (),
        )
        .unwrap();
    assert_eq!(created.target_time, at(NEW_YEAR, 0));
}

#[test]
fn create_rejects_a_malformed_time() {
    let mut registry: TimerRegistry<u32> = TimerRegistry::new();
    for text in ["", "soon", "2030-01-01", "01/01/2030 10:00"] {
        let r = registry.create_timer_at(
            &request(TimerAction::Lock, text, None),
            at(0, 0),
            "x".to_string(),
            1,
        );
        assert_eq!(r, Err(TimerError::InvalidTimeFormat), "{:?}", text);
        assert_eq!(registry.len(), 0);
    }
}

#[test]
fn create_rejects_a_time_that_is_not_in_the_future() {
    let mut registry: TimerRegistry<u32> = TimerRegistry::new();
    registry
        .create_timer_at(
            &request(TimerAction::Lock, "2031-01-01T00:00:00Z", None),
            at(NEW_YEAR, 0),
            "kept".to_string(),
            1,
        )
        .unwrap();
    for now in [at(NEW_YEAR, 0), at(NEW_YEAR, 1), at(NEW_YEAR + 86_400, 0)] {
        let r = registry.create_timer_at(
            &request(TimerAction::Shutdown, "2030-01-01T00:00:00Z", Some("x")),
            now,
            "x".to_string(),
            2,
        );
        assert_eq!(r, Err(TimerError::TimeNotInFuture));
        assert_eq!(registry.len(), 1);
        assert_eq!(ids(&registry.list_timers()), vec!["kept"]);
    }
    let r = registry.create_timer_at(
        &request(TimerAction::Shutdown, "2030-01-01T00:00:00Z", None),
        at(NEW_YEAR - 1, 999_999_999),
        "x".to_string(),
        3,
    );
    assert!(r.is_ok());
    assert_eq!(registry.len(), 2);
}

#[test]
fn popup_requires_a_message() {
    let mut registry: TimerRegistry<u32> = TimerRegistry::new();
    let now = at(NEW_YEAR - 60, 0);
    let r = registry.create_timer_at(
        &request(TimerAction::Popup, "2030-01-01T00:00:00Z", None),
        now,
        "a".to_string(),
        1,
    );
    assert_eq!(r, Err(TimerError::MissingMessage));
    let r = registry.create_timer_at(
        &request(TimerAction::Popup, "2030-01-01T00:00:00Z", Some("   ")),
        now,
        "a".to_string(),
        1,
    );
    assert_eq!(r, Err(TimerError::MissingMessage));
    let r = registry.create_timer_at(
        &request(TimerAction::Popup, "2030-01-01T00:00:00Z", Some("")),
        now,
        "a".to_string(),
        1,
    );
    assert_eq!(r, Err(TimerError::MissingMessage));
    assert!(registry.is_empty());
    let created = registry
        .create_timer_at(
            &request(TimerAction::Popup, "2030-01-01T00:00:00Z", Some("  hi  ")),
            now,
            "a".to_string(),
            1,
        )
        .unwrap();
    assert_eq!(created.message.as_deref(), Some("hi"));
    assert_eq!(registry.list_timers()[0].message.as_deref(), Some("hi"));
}

#[test]
fn other_actions_take_any_message() {
    let mut registry: TimerRegistry<u32> = TimerRegistry::new();
    let now = at(0, 0);
    let a = registry
        .create_timer_at(
            &request(TimerAction::Lock, "2030-01-01T00:00:00Z", Some("   ")),
            now,
            "a".to_string(),
            1,
        )
        .unwrap();
    assert_eq!(a.message.as_deref(), Some(""));
    let b = registry
        .create_timer_at(
            &request(TimerAction::Shutdown, "2030-01-01T00:00:00Z", Some(" bye ")),
            now,
            "b".to_string(),
            2,
        )
        .unwrap();
    assert_eq!(b.message.as_deref(), Some("bye"));
}

#[test]
fn faults_are_reported_in_order() {
    let mut registry: TimerRegistry<u32> = TimerRegistry::new();
    registry
        .create_timer_at(
            &request(TimerAction::Lock, "2030-01-01T00:00:00Z", None),
            at(0, 0),
            "taken".to_string(),
            1,
        )
        .unwrap();
    let r = registry.create_timer_at(
        &request(TimerAction::Popup, "never", None),
        at(0, 0),
        "taken".to_string(),
        2,
    );
    assert_eq!(r, Err(TimerError::InvalidTimeFormat));
    let r = registry.create_timer_at(
        &request(TimerAction::Popup, "2030-01-01T00:00:00Z", None),
        at(NEW_YEAR, 0),
        "taken".to_string(),
        2,
    );
    assert_eq!(r, Err(TimerError::TimeNotInFuture));
    let r = registry.create_timer_at(
        &request(TimerAction::Popup, "2030-01-01T00:00:00Z", None),
        at(0, 0),
        "taken".to_string(),
        2,
    );
    assert_eq!(r, Err(TimerError::MissingMessage));
    let r = registry.create_timer_at(
        &request(TimerAction::Popup, "2030-01-01T00:00:00Z", Some("hi")),
        at(0, 0),
        "taken".to_string(),
        2,
    );
    assert_eq!(r, Err(TimerError::DuplicateId));
    assert_eq!(registry.len(), 1);
    assert_eq!(registry.list_timers()[0].action, TimerAction::Lock);
}

#[test]
fn an_identifier_is_never_given_out_twice() {
    let mut registry: TimerRegistry<u32> = TimerRegistry::new();
    let lock = request(TimerAction::Lock, "2030-01-01T00:00:00Z", None);
    assert!(!registry.knows("a"));
    registry.create_timer_at(&lock, at(0, 0), "a".to_string(), 1).unwrap();
    registry.create_timer_at(&lock, at(0, 0), "b".to_string(), 2).unwrap();
    assert!(registry.knows("a"));
    // Once cancelled.
    assert_eq!(registry.cancel_timer("a"), Some(1));
    assert!(!registry.contains("a"));
    assert!(registry.knows("a"));
    assert_eq!(
        registry.create_timer_at(&lock, at(0, 0), "a".to_string(), 3),
        Err(TimerError::DuplicateId)
    );
    // Once fired.
    assert!(registry.resolve_wait("b", WaitOutcome::Elapsed).is_some());
    assert!(registry.knows("b"));
    assert_eq!(
        registry.create_timer_at(&lock, at(0, 0), "b".to_string(), 4),
        Err(TimerError::DuplicateId)
    );
    assert!(registry.is_empty());
    assert_eq!(registry.cancel_timer("a"), None);
    assert_eq!(registry.cancel_timer("b"), None);
    // Another identifier is free.
    assert!(!registry.knows("c"));
    assert!(registry.create_timer_at(&lock, at(0, 0), "c".to_string(), 5).is_ok());
    assert_eq!(registry.cancel_timer("c"), Some(5));
}

#[test]
fn returned_ids_are_distinct_over_any_history() {
    let mut registry: TimerRegistry<usize> = TimerRegistry::new();
    let lock = request(TimerAction::Lock, "2030-01-01T00:00:00Z", None);
    let draws = ["a", "b", "a", "c", "b", "a", "d", "c", "e"];
    let mut returned: Vec<String> = Vec::new();
    for (k, id) in draws.iter().enumerate() {
        if let Ok(timer) = registry.create_timer_at(&lock, at(0, 0), id.to_string(), k) {
            assert!(!returned.contains(&timer.id));
            returned.push(timer.id);
        }
        // Settle every timer at once, by turns cancelled and fired.
        if k % 2 == 0 {
            registry.cancel_timer(id);
        } else {
            registry.resolve_wait(id, WaitOutcome::Elapsed);
        }
    }
    assert_eq!(returned, vec!["a", "b", "c", "d", "e"]);
}

#[test]
fn register_takes_a_time_that_was_read() {
    let mut registry: TimerRegistry<u32> = TimerRegistry::new();
    let now = at(100, 0);
    let r = registry.register(
        "a".to_string(),
        TimerAction::Popup,
        Some(at(200, 0)),
        Some("tea".to_string()),
        now,
        1,
    );
    assert_eq!(
        r,
        Ok(TimerInfo {
            id: "a".to_string(),
            action: TimerAction::Popup,
            target_time: at(200, 0),
            message: Some("tea".to_string()),
            created_at: now,
        })
    );
    let r = registry.register("b".to_string(), TimerAction::Lock, None, None, now, 2);
    assert_eq!(r, Err(TimerError::InvalidTimeFormat));
    let r = registry.register("b".to_string(), TimerAction::Lock, Some(at(100, 0)), None, now, 2);
    assert_eq!(r, Err(TimerError::TimeNotInFuture));
    let r = registry.register("b".to_string(), TimerAction::Popup, Some(at(200, 0)), None, now, 2);
    assert_eq!(r, Err(TimerError::MissingMessage));
    let r = registry.register("a".to_string(), TimerAction::Lock, Some(at(200, 0)), None, now, 2);
    assert_eq!(r, Err(TimerError::DuplicateId));
    assert_eq!(registry.len(), 1);
}

#[test]
fn list_is_sorted_by_target_time() {
    let times = [
        ("t1", "2030-01-01T00:00:00Z"),
        ("t2", "2030-01-01T00:00:01Z"),
        ("t3", "2030-06-01T00:00:00Z"),
    ];
    let orders: [[usize; 3]; 6] =
        [[0, 1, 2], [0, 2, 1], [1, 0, 2], [1, 2, 0], [2, 0, 1], [2, 1, 0]];
    for order in orders.iter() {
        let mut registry: TimerRegistry<usize> = TimerRegistry::new();
        for &k in order.iter() {
            registry
                .create_timer_at(
                    &request(TimerAction::Lock, times[k].1, None),
                    at(0, 0),
                    times[k].0.to_string(),
                    k,
                )
                .unwrap();
        }
        assert_eq!(ids(&registry.list_timers()), vec!["t1", "t2", "t3"], "{:?}", order);
        assert_eq!(registry.len(), 3);
    }
}

#[test]
fn list_orders_by_nanosecond_within_a_second() {
    let mut registry: TimerRegistry<()> = TimerRegistry::new();
    for (id, text) in [
        ("c", "2030-01-01T00:00:00.000000002Z"),
        ("a", "2030-01-01T00:00:00Z"),
        ("d", "2030-01-01T00:00:01Z"),
        ("b", "2030-01-01T00:00:00.000000001Z"),
    ] {
        registry
            .create_timer_at(&request(TimerAction::Lock, text, None), at(0, 0), id.to_string(), ())
            .unwrap();
    }
    assert_eq!(ids(&registry.list_timers()), vec!["a", "b", "c", "d"]);
}

#[test]
fn list_keeps_creation_order_among_equal_times() {
    let mut registry: TimerRegistry<()> = TimerRegistry::new();
    for (id, text) in [
        ("z", "2030-01-01T00:00:05Z"),
        ("m", "2030-01-01T00:00:05Z"),
        ("first", "2030-01-01T00:00:01Z"),
        ("a", "2030-01-01T01:00:05+01:00"),
        ("last", "2030-01-01T00:00:09Z"),
    ] {
        registry
            .create_timer_at(&request(TimerAction::Lock, text, None), at(0, 0), id.to_string(), ())
            .unwrap();
    }
    assert_eq!(ids(&registry.list_timers()), vec!["first", "z", "m", "a", "last"]);
    // Listing reads only: a second listing gives the same.
    assert_eq!(ids(&registry.list_timers()), vec!["first", "z", "m", "a", "last"]);
}

#[test]
fn cancel_twice_returns_the_handle_then_nothing() {
    let mut registry: TimerRegistry<u32> = TimerRegistry::new();
    let lock = request(TimerAction::Lock, "2030-01-01T00:00:00Z", None);
    registry.create_timer_at(&lock, at(0, 0), "a".to_string(), 11).unwrap();
    registry.create_timer_at(&lock, at(0, 0), "b".to_string(), 22).unwrap();
    registry.create_timer_at(&lock, at(0, 0), "c".to_string(), 33).unwrap();
    assert_eq!(registry.cancel_timer("b"), Some(22));
    assert_eq!(ids(&registry.list_timers()), vec!["a", "c"]);
    assert_eq!(registry.cancel_timer("b"), None);
    assert_eq!(ids(&registry.list_timers()), vec!["a", "c"]);
    assert_eq!(registry.cancel_timer("c"), Some(33));
    assert_eq!(registry.cancel_timer("a"), Some(11));
    assert!(registry.is_empty());
}

#[test]
fn cancel_of_an_unknown_id_is_a_no_op() {
    let mut registry: TimerRegistry<u32> = TimerRegistry::new();
    assert_eq!(registry.cancel_timer("nobody"), None);
    let lock = request(TimerAction::Lock, "2030-01-01T00:00:00Z", None);
    registry.create_timer_at(&lock, at(0, 0), "abc".to_string(), 1).unwrap();
    assert_eq!(registry.cancel_timer("ab"), None);
    assert_eq!(registry.cancel_timer("ABC"), None);
    assert_eq!(registry.cancel_timer(""), None);
    assert_eq!(registry.len(), 1);
}

#[test]
fn a_deadline_fires_the_timer_once() {
    let mut registry: TimerRegistry<u32> = TimerRegistry::new();
    let created = registry
        .create_timer_at(
            &request(TimerAction::Shutdown, "2030-01-01T00:00:00Z", None),
            at(0, 0),
            "a".to_string(),
            1,
        )
        .unwrap();
    assert_eq!(registry.resolve_wait("a", WaitOutcome::Elapsed), Some(created));
    assert!(registry.is_empty());
    assert_eq!(registry.resolve_wait("a", WaitOutcome::Elapsed), None);
    assert_eq!(registry.resolve_wait("a", WaitOutcome::Abandoned), None);
}

#[test]
fn cancel_before_the_deadline_stops_the_action() {
    let mut registry: TimerRegistry<u32> = TimerRegistry::new();
    let lock = request(TimerAction::Lock, "2030-01-01T00:00:00Z", None);
    for (id, outcome) in [
        ("a", WaitOutcome::Cancelled),
        ("b", WaitOutcome::Elapsed),
        ("c", WaitOutcome::Abandoned),
    ] {
        registry.create_timer_at(&lock, at(0, 0), id.to_string(), 1).unwrap();
        assert_eq!(registry.cancel_timer(id), Some(1));
        assert_eq!(registry.resolve_wait(id, outcome), None);
        assert!(registry.is_empty());
    }
}

#[test]
fn cancel_after_the_deadline_finds_nothing() {
    let mut registry: TimerRegistry<u32> = TimerRegistry::new();
    let lock = request(TimerAction::Lock, "2030-01-01T00:00:00Z", None);
    registry.create_timer_at(&lock, at(0, 0), "a".to_string(), 1).unwrap();
    assert!(registry.resolve_wait("a", WaitOutcome::Elapsed).is_some());
    assert_eq!(registry.cancel_timer("a"), None);
}

#[test]
fn an_abandoned_waiter_fires_only_at_its_deadline() {
    let mut registry: TimerRegistry<u32> = TimerRegistry::new();
    let lock = request(TimerAction::Lock, "2030-01-01T00:00:00Z", None);
    let created = registry.create_timer_at(&lock, at(0, 0), "a".to_string(), 1).unwrap();
    assert!(WaitOutcome::Abandoned.must_sleep_on());
    assert!(!WaitOutcome::Elapsed.must_sleep_on());
    assert!(!WaitOutcome::Cancelled.must_sleep_on());
    assert_eq!(registry.resolve_wait("a", WaitOutcome::Abandoned), None);
    assert!(registry.contains("a"));
    assert_eq!(registry.list_timers(), vec![created.clone()]);
    // It sleeps on, and its deadline passes.
    assert_eq!(registry.resolve_wait("a", WaitOutcome::Elapsed), Some(created));
    assert!(registry.is_empty());
}

#[test]
fn a_signalled_waiter_leaves_the_registry_alone() {
    let mut registry: TimerRegistry<u32> = TimerRegistry::new();
    let lock = request(TimerAction::Lock, "2030-01-01T00:00:00Z", None);
    registry.create_timer_at(&lock, at(0, 0), "a".to_string(), 1).unwrap();
    assert_eq!(registry.resolve_wait("a", WaitOutcome::Cancelled), None);
    assert!(registry.contains("a"));
    assert_eq!(registry.len(), 1);
}

#[test]
fn a_waiter_claims_only_its_own_timer() {
    let mut registry: TimerRegistry<u32> = TimerRegistry::new();
    let lock = request(TimerAction::Lock, "2030-01-01T00:00:00Z", None);
    registry.create_timer_at(&lock, at(0, 0), "a".to_string(), 1).unwrap();
    registry.create_timer_at(&lock, at(0, 0), "b".to_string(), 2).unwrap();
    let fired = registry.resolve_wait("b", WaitOutcome::Elapsed).unwrap();
    assert_eq!(fired.id, "b");
    assert_eq!(ids(&registry.list_timers()), vec!["a"]);
    assert_eq!(registry.cancel_timer("a"), Some(1));
}

#[test]
fn race_has_one_winner() {
    let lock = request(TimerAction::Lock, "2030-01-01T00:00:00Z", None);
    for cancel_first in [true, false] {
        let mut registry: TimerRegistry<u32> = TimerRegistry::new();
        registry.create_timer_at(&lock, at(0, 0), "a".to_string(), 1).unwrap();
        let (cancelled, fired) = if cancel_first {
            let cancelled = registry.cancel_timer("a").is_some();
            (cancelled, registry.resolve_wait("a", WaitOutcome::Elapsed).is_some())
        } else {
            let fired = registry.resolve_wait("a", WaitOutcome::Elapsed).is_some();
            (registry.cancel_timer("a").is_some(), fired)
        };
        assert_eq!(cancelled, cancel_first);
        assert_eq!(fired, !cancel_first);
        assert!(registry.is_empty());
    }
}

#[test]
fn create_timer_uses_the_clock_and_a_fresh_id() {
    let mut registry: TimerRegistry<u32> = TimerRegistry::new();
    let target = Utc::now() + TimeDelta::try_hours(1).unwrap();
    let before = Timestamp::now();
    let created = registry
        .create_timer(&request(TimerAction::Popup, &target.to_rfc3339(), Some(" Break time ")), 5)
        .unwrap();
    let after = Timestamp::now();
    assert_eq!(created.action, TimerAction::Popup);
    assert_eq!(created.message.as_deref(), Some("Break time"));
    assert_eq!(
        (created.target_time.secs(), created.target_time.nanos()),
        (target.timestamp(), target.timestamp_subsec_nanos())
    );
    assert!(!created.created_at.is_before(&before));
    assert!(!after.is_before(&created.created_at));
    assert!(created.created_at.is_before(&created.target_time));
    assert_eq!(created.id.len(), 36);
    let shape: Vec<bool> = created.id.chars().map(|c| c == '-').collect();
    let hyphens: Vec<usize> = (0..36).filter(|&i| shape[i]).collect();
    assert_eq!(hyphens, vec![8, 13, 18, 23]);
    assert!(created.id.chars().all(|c| c == '-' || c.is_ascii_hexdigit()));
    assert_eq!(registry.list_timers(), vec![created.clone()]);
    assert_eq!(registry.cancel_timer(&created.id), Some(5));
}

#[test]
fn create_timer_rejects_now_and_the_past() {
    let mut registry: TimerRegistry<u32> = TimerRegistry::new();
    let past = Utc::now() - TimeDelta::try_seconds(1).unwrap();
    let r = registry.create_timer(&request(TimerAction::Lock, &past.to_rfc3339(), None), 1);
    assert_eq!(r, Err(TimerError::TimeNotInFuture));
    let r = registry.create_timer(&request(TimerAction::Lock, "1999-12-31T23:59:59Z", None), 1);
    assert_eq!(r, Err(TimerError::TimeNotInFuture));
    let r = registry.create_timer(&request(TimerAction::Lock, "next week", None), 1);
    assert_eq!(r, Err(TimerError::InvalidTimeFormat));
    let r = registry.create_timer(&request(TimerAction::Popup, "9999-01-01T00:00:00Z", None), 1);
    assert_eq!(r, Err(TimerError::MissingMessage));
    assert!(registry.is_empty());
}

#[test]
fn created_ids_are_pairwise_distinct() {
    let mut registry: TimerRegistry<usize> = TimerRegistry::new();
    let lock = request(TimerAction::Lock, "9999-01-01T00:00:00Z", None);
    let mut seen: Vec<String> = Vec::new();
    for k in 0..200 {
        let created = registry.create_timer(&lock, k).unwrap();
        assert!(!seen.contains(&created.id));
        // Of every four timers one is cancelled and one fires at once.
        if k % 4 == 0 {
            assert_eq!(registry.cancel_timer(&created.id), Some(k));
        } else if k % 4 == 1 {
            assert!(registry.resolve_wait(&created.id, WaitOutcome::Elapsed).is_some());
        }
        seen.push(created.id);
    }
    assert_eq!(registry.len(), 100);
    for (k, id) in seen.iter().enumerate() {
        assert!(registry.knows(id));
        let pending = k % 4 >= 2;
        assert_eq!(registry.cancel_timer(id), if pending { Some(k) } else { None });
    }
    assert!(registry.is_empty());
}
