use nautilus_common::event::{MessageCategory, TimeEvent};
use nautilus_common::ids::UUID4;
use nautilus_common::timer::TestTimer;

fn stamps(events: &[TimeEvent]) -> Vec<u64> {
    events.iter().map(|e| e.ts_event).collect()
}

#[test]
fn test_pop_event() {
    let name = String::from("test_timer");
    let mut timer = TestTimer::new(name, 0, 1, None);

    assert!(timer.next().is_some());
    assert!(timer.next().is_some());
    timer.is_expired = true;
    assert!(timer.next().is_none());
}

#[test]
fn test_advance() {
    let name = String::from("test_timer");
    let mut timer = TestTimer::new(name, 1, 0, None);
    let events: Vec<TimeEvent> = timer.advance(5).into_iter().collect();

    assert_eq!(events.len(), 5);
}

#[test]
fn test_advance_stop() {
    let name = String::from("test_timer");
    let mut timer = TestTimer::new(name, 1, 0, Some(5));
    let events: Vec<TimeEvent> = timer.advance(10).into_iter().collect();

    assert_eq!(events.len(), 5);
}

#[test]
fn advance_without_stop_yields_each_instant_up_to_horizon() {
    let mut timer = TestTimer::new(String::from("test_timer"), 1, 0, None);
    let events = timer.advance(5);
    assert_eq!(stamps(&events), vec![1, 2, 3, 4, 5]);
    for e in &events {
        assert_eq!(e.ts_init, e.ts_event);
        assert_eq!(e.name, "test_timer");
        assert_eq!(e.category, MessageCategory::EVENT);
    }
    assert!(!timer.is_expired);
    assert_eq!(timer.next_time_ns, 6);
}

#[test]
fn advance_past_stop_expires_timer() {
    let mut timer = TestTimer::new(String::from("test_timer"), 1, 0, Some(5));
    let events = timer.advance(10);
    assert_eq!(stamps(&events), vec![1, 2, 3, 4, 5]);
    assert!(timer.is_expired);
}

#[test]
fn split_advance_has_no_gaps_or_repeats() {
    let mut timer = TestTimer::new(String::from("test_timer"), 1, 0, Some(5));
    assert_eq!(stamps(&timer.advance(2)), vec![1, 2]);
    assert_eq!(stamps(&timer.advance(10)), vec![3, 4, 5]);
    assert!(timer.is_expired);
}

#[test]
fn successive_steps_are_one_interval_apart() {
    let mut timer = TestTimer::new(String::from("t"), 7, 100, None);
    let mut previous: Option<u64> = None;
    for _ in 0..6 {
        let (event, at) = timer.next().unwrap();
        assert_eq!(event.ts_event, at);
        if let Some(p) = previous {
            assert_eq!(at, p + 7);
        } else {
            assert_eq!(at, 107);
        }
        previous = Some(at);
    }
}

#[test]
fn expired_timer_stays_silent() {
    let mut timer = TestTimer::new(String::from("t"), 2, 0, Some(2));
    assert_eq!(timer.next().unwrap().1, 2);
    assert!(timer.is_expired);
    for _ in 0..3 {
        assert!(timer.next().is_none());
        assert!(timer.advance(1000).is_empty());
        assert!(timer.next_within(1000).is_none());
    }
    assert!(timer.is_expired);
}

#[test]
fn stop_at_k_intervals_gives_k_events() {
    // start 10, interval 3, stop 10 + 4 * 3
    let mut timer = TestTimer::new(String::from("t"), 3, 10, Some(22));
    let mut seen = Vec::new();
    for _ in 0..4 {
        seen.push(timer.next().unwrap().1);
    }
    assert_eq!(seen, vec![13, 16, 19, 22]);
    assert!(timer.is_expired);
    assert!(timer.next().is_none());
}

#[test]
fn stop_before_first_event_gives_one_event() {
    let mut timer = TestTimer::new(String::from("t"), 10, 0, Some(4));
    let events = timer.advance(100);
    assert_eq!(stamps(&events), vec![10]);
    assert!(timer.is_expired);
}

#[test]
fn cancelled_timer_advances_to_nothing() {
    let mut timer = TestTimer::new(String::from("t"), 1, 0, None);
    timer.cancel();
    assert!(timer.is_expired);
    assert!(timer.advance(u64::MAX).is_empty());
    timer.cancel();
    assert!(timer.is_expired);
    assert!(timer.next().is_none());
}

#[test]
fn horizon_before_next_time_changes_nothing() {
    let mut timer = TestTimer::new(String::from("t"), 5, 100, None);
    assert!(timer.advance(104).is_empty());
    assert_eq!(timer.next_time_ns, 105);
    assert!(!timer.is_expired);
    assert!(timer.next_within(104).is_none());
    assert_eq!(timer.next_time_ns, 105);
    let e = timer.next_within(105).unwrap();
    assert_eq!(e.ts_event, 105);
    assert_eq!(timer.next_time_ns, 110);
}

#[test]
fn pop_event_reports_next_time_without_stepping() {
    let timer = TestTimer::new(String::from("alarm"), 4, 20, None);
    let id = UUID4 { value: 42 };
    let e = timer.pop_event(id, 99);
    assert_eq!(e.name, "alarm");
    assert_eq!(e.ts_event, 24);
    assert_eq!(e.ts_init, 99);
    assert_eq!(e.event_id, id);
    assert_eq!(e.category, MessageCategory::EVENT);
    assert_eq!(timer.next_time_ns, 24);
    assert!(!timer.is_expired);
}

#[test]
fn events_compare_by_name_and_instant() {
    let a = TimeEvent::new(String::from("a"), UUID4 { value: 1 }, 5, 6);
    let b = TimeEvent::new(String::from("a"), UUID4 { value: 2 }, 5, 9);
    let c = TimeEvent::new(String::from("a"), UUID4 { value: 1 }, 6, 6);
    let d = TimeEvent::new(String::from("b"), UUID4 { value: 1 }, 5, 6);
    assert!(a == b);
    assert!(a != c);
    assert!(a != d);
    assert_eq!(a.category, MessageCategory::EVENT);
}

#[test]
fn try_new_rejects_degenerate_configuration() {
    assert!(TestTimer::try_new(String::from("t"), 0, 1, None).is_none());
    assert!(TestTimer::try_new(String::from("t"), -3, 1, None).is_none());
    assert!(TestTimer::try_new(String::from("t"), 2, u64::MAX - 1, None).is_none());
    let timer = TestTimer::try_new(String::from("t"), 2, u64::MAX - 2, None).unwrap();
    assert_eq!(timer.next_time_ns, u64::MAX);
}

#[test]
fn fresh_ids_are_version_four() {
    let a = UUID4::new();
    let b = UUID4::new();
    assert_eq!(a.version(), 4);
    assert_eq!(b.version(), 4);
    assert_eq!((a.value >> 62) & 3, 2);
    assert_ne!(a, b);
    let mut timer = TestTimer::new(String::from("t"), 1, 0, None);
    let first = timer.next().unwrap().0;
    let second = timer.next().unwrap().0;
    assert_eq!(first.event_id.version(), 4);
    assert_ne!(first.event_id, second.event_id);
}

#[test]
fn stop_bounded_timer_advances_to_largest_horizon() {
    let mut timer = TestTimer::new(String::from("t"), 1, 0, Some(5));
    let events = timer.advance(u64::MAX);
    assert_eq!(stamps(&events), vec![1, 2, 3, 4, 5]);
    assert!(timer.is_expired);
    assert_eq!(timer.next_time_ns, 6);
    assert!(timer.advance(u64::MAX).is_empty());
}

#[test]
fn cancelled_timer_after_steps_advances_to_nothing_at_largest_horizon() {
    let mut timer = TestTimer::new(String::from("t"), 3, 0, None);
    assert_eq!(stamps(&timer.advance(7)), vec![3, 6]);
    timer.cancel();
    assert!(timer.advance(u64::MAX).is_empty());
    assert_eq!(timer.next_time_ns, 9);
    assert!(timer.is_expired);
}

#[test]
fn expired_zero_interval_timer_advances_to_nothing() {
    let mut timer = TestTimer::new(String::from("t"), 0, 1, None);
    timer.cancel();
    assert!(timer.advance(100).is_empty());
    assert_eq!(timer.next_time_ns, 1);
}

#[test]
fn last_step_may_reach_largest_timestamp() {
    let mut timer = TestTimer::new(String::from("t"), 2, u64::MAX - 4, None);
    let events = timer.advance(u64::MAX - 1);
    assert_eq!(stamps(&events), vec![u64::MAX - 2]);
    assert_eq!(timer.next_time_ns, u64::MAX);
}
