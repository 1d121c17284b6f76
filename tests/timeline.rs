use bevy_seedling::timeline::{
    progress, DiscreteTimeline, Linear, Timeline, TimelineError, TimelineEvent, EVENT_CAPACITY,
    PROGRESS_ONE,
};
use bevy_seedling::envelopes::TriggerState;

const SECOND: u64 = 1_000_000_000;

fn curve(from: i64, to: i64, start: u64, end: u64) -> TimelineEvent<i64, Linear> {
    TimelineEvent::Curve { curve: Linear, from, to, start, end }
}

#[test]
fn test_continuous_diff() {
    let a = Timeline::new(0);
    let mut b = a.clone();

    b.push_curve(2000, SECOND, 2 * SECOND).unwrap();

    let events = b.diff(&a);
    assert_eq!(events.len(), 1);
    assert!(matches!(events[0], TimelineEvent::Curve { from: 0, to: 2000, .. }));
}

#[test]
fn test_linear_curve() {
    let mut value = Timeline::new(0);

    value.push_curve(1000, 0, SECOND).unwrap();
    value.push_curve(2000, SECOND, 2 * SECOND).unwrap();
    value
        .push(TimelineEvent::Deferred { value: 3000, time: 2 * SECOND + SECOND / 2 })
        .unwrap();

    assert_eq!(value.value_at(0), 0);
    assert_eq!(value.value_at(SECOND / 2), 500);
    assert_eq!(value.value_at(SECOND), 1000);

    assert_eq!(value.value_at(SECOND), 1000);
    assert_eq!(value.value_at(SECOND + SECOND / 2), 1500);
    assert_eq!(value.value_at(2 * SECOND), 2000);

    assert_eq!(value.value_at(2 * SECOND + SECOND / 4), 2000);

    assert_eq!(value.value_at(2 * SECOND + SECOND / 2), 3000);
}

#[test]
fn value_before_events_is_baseline() {
    let mut t = Timeline::new(7);
    t.push(curve(0, 100, 10, 20)).unwrap();
    t.push(TimelineEvent::Deferred { value: 50, time: 30 }).unwrap();
    assert_eq!(t.value_at(5), 7);
}

#[test]
fn value_at_curve_end_is_end_value() {
    let mut t = Timeline::new(7);
    t.push(curve(0, 100, 10, 20)).unwrap();
    assert_eq!(t.value_at(20), 100);
}

#[test]
fn value_after_events_is_latest_end() {
    let mut t = Timeline::new(7);
    t.push(TimelineEvent::Deferred { value: 50, time: 30 }).unwrap();
    t.push(curve(0, 100, 10, 20)).unwrap();
    assert_eq!(t.value_at(25), 100);
    assert_eq!(t.value_at(1000), 50);
}

#[test]
fn immediate_clears_everything() {
    let mut t = Timeline::new(7);
    t.push(curve(0, 100, 10, 20)).unwrap();
    t.push(TimelineEvent::Deferred { value: 50, time: 15 }).unwrap_err();
    assert_eq!(t.push(TimelineEvent::Immediate(3)), Ok(()));
    assert_eq!(t.get(), 3);
    assert_eq!(t.value_at(15), 3);
    assert!(!t.is_active(15));
    // after clearing, the range is free again
    assert_eq!(t.push(TimelineEvent::Deferred { value: 50, time: 15 }), Ok(()));
}

#[test]
fn overlapping_push_is_rejected_and_leaves_timeline_alone() {
    let mut t = Timeline::new(7);
    t.push(curve(0, 100, 10, 20)).unwrap();
    let before = t.clone();
    assert_eq!(
        t.push(TimelineEvent::Deferred { value: 1, time: 15 }),
        Err(TimelineError::OverlappingRanges)
    );
    assert_eq!(t.push(curve(5, 6, 0, 11)), Err(TimelineError::OverlappingRanges));
    assert_eq!(t.push(curve(5, 6, 12, 13)), Err(TimelineError::OverlappingRanges));
    assert_eq!(t.push(curve(5, 6, 0, 100)), Err(TimelineError::OverlappingRanges));
    assert_eq!(t.diff(&before).len(), 0);
    assert_eq!(t.value_at(15), before.value_at(15));
    // touching ranges are fine
    assert_eq!(t.push(curve(100, 0, 20, 30)), Ok(()));
    assert_eq!(t.push(TimelineEvent::Deferred { value: 1, time: 10 }), Ok(()));
}

#[test]
fn full_timeline_evicts_oldest_and_diff_keeps_tail() {
    let base = Timeline::new(0);
    let mut t = base.clone();
    for i in 0..(EVENT_CAPACITY as u64 + 3) {
        t.push(TimelineEvent::Deferred { value: i as i64, time: i * 10 }).unwrap();
    }
    let events = t.diff(&base);
    assert_eq!(events.len(), EVENT_CAPACITY);
    assert!(matches!(events[0], TimelineEvent::Deferred { value: 3, time: 30 }));
    // evicted events no longer decide values
    assert_eq!(t.value_at(5), 0);
    let seen = t.clone();
    t.push(TimelineEvent::Deferred { value: 99, time: 1000 }).unwrap();
    let fresh = t.diff(&seen);
    assert_eq!(fresh.len(), 1);
    assert!(matches!(fresh[0], TimelineEvent::Deferred { value: 99, time: 1000 }));
}

#[test]
fn tick_moves_baseline() {
    let mut t = Timeline::new(0);
    t.push_curve(1000, 0, 100).unwrap();
    t.tick(50);
    assert_eq!(t.get(), 500);
    t.tick(200);
    assert_eq!(t.get(), 1000);
}

#[test]
fn set_and_apply() {
    let mut t = Timeline::new(0);
    t.set(42);
    assert_eq!(t.get(), 42);
    let mut follower = Timeline::new(0);
    follower.apply(curve(0, 10, 0, 10));
    follower.apply(curve(0, 10, 5, 8));
    assert_eq!(follower.value_at(8), 8);
}

#[test]
fn activity_queries() {
    let mut t = Timeline::new(0);
    t.push(curve(0, 10, 10, 20)).unwrap();
    t.push(TimelineEvent::Deferred { value: 1, time: 40 }).unwrap();
    assert!(t.is_active(15));
    assert!(!t.is_active(40));
    assert!(t.active_within(0, 11));
    assert!(t.active_within(35, 41));
    assert!(!t.active_within(21, 40));
    t.clear();
    assert!(!t.active_within(0, 100));
}

#[test]
fn event_accessors() {
    let e = curve(0, 1000, 100, 200);
    assert_eq!(e.start_time(), Some(100));
    assert_eq!(e.end_time(), Some(200));
    assert!(e.contains(100) && e.contains(200) && !e.contains(201));
    assert!(e.overlaps(150) && !e.overlaps(100));
    assert_eq!(e.get(125), 250);
    assert_eq!(e.get(50), 0);
    assert_eq!(e.start_value(), 0);
    assert_eq!(e.end_value(), 1000);
    let down = curve(1000, 0, 0, 3);
    assert_eq!(down.get(1), 667);
    assert_eq!(progress(1, 0, 3), 333_333);
    assert_eq!(progress(9, 0, 3), PROGRESS_ONE);
}

#[test]
fn discrete_timeline_steps() {
    let mut t: DiscreteTimeline<TriggerState> = DiscreteTimeline::new(TriggerState::Off);
    t.push(TimelineEvent::Deferred { value: TriggerState::On, time: 10 }).unwrap();
    assert_eq!(t.value_at(9), TriggerState::Off);
    assert_eq!(t.value_at(10), TriggerState::On);
    assert_eq!(t.value_at(11), TriggerState::On);
}

#[test]
fn second_event_at_same_instant_is_refused() {
    let mut t = Timeline::new(0);
    t.push(TimelineEvent::Deferred { value: 1, time: 50 }).unwrap();
    let before = t.clone();
    assert_eq!(
        t.push(TimelineEvent::Deferred { value: 2, time: 50 }),
        Err(TimelineError::OverlappingRanges)
    );
    assert_eq!(t.push(curve(0, 9, 50, 50)), Err(TimelineError::OverlappingRanges));
    assert_eq!(t.diff(&before).len(), 0);
    assert_eq!(t.value_at(50), 1);
    // curves touching the instant are still fine
    assert_eq!(t.push(curve(1, 5, 50, 60)), Ok(()));
    assert_eq!(t.push(curve(0, 1, 40, 50)), Ok(()));
}

#[test]
fn inverted_curve_is_refused() {
    let mut t = Timeline::new(0);
    assert_eq!(t.push(curve(0, 9, 20, 10)), Err(TimelineError::InvertedRange));
    assert_eq!(t.push_curve(9, 20, 10), Err(TimelineError::InvertedRange));
    assert_eq!(t.value_at(15), 0);
    assert!(!t.active_within(0, 100));
}
