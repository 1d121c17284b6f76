use bevy_seedling::events::{
    clamp_db, fade_at, Change, fade_event_count, fade_to, AudioEvents, EventIds, RenderProgress,
    TimelineEvent, Volume, VolumeTween, LINEAR_UNITY,
};

const SECOND: u64 = 1_000_000_000;

#[test]
fn fade_to_silence_over_one_second() {
    let tween = fade_at(Volume::Decibels(0), 0, Volume::Decibels(-6000), 0, 0, SECOND);
    assert!(tween.total_events >= 60);
    assert_eq!(tween.total_events, 75);
    let steps = tween.render(0, SECOND);
    assert_eq!(steps.len(), 75);
    assert_eq!(*steps.last().unwrap(), (SECOND, Volume::Decibels(-6000)));
    // evenly spaced, monotonically falling
    assert!(steps.windows(2).all(|w| w[0].0 < w[1].0));
    // progress 1/75 of the way, rounded toward the start
    assert_eq!(steps[0].1, Volume::Decibels(-79));
}

#[test]
fn fade_below_floor_ends_on_clamped_target() {
    // from 0 dB down to silence, given as linear zero (about -inf dB)
    let tween = fade_at(Volume::Decibels(0), 0, Volume::Linear(0), -100_000, 0, SECOND);
    assert_eq!(tween.total_events, 75);
    let steps = tween.render(0, SECOND);
    assert_eq!(*steps.last().unwrap(), (SECOND, Volume::Decibels(-6000)));
}

#[test]
fn fade_step_count_rules() {
    // 1.25 steps per dB
    assert_eq!(fade_event_count(0, -2000, SECOND), 25);
    // at least one
    assert_eq!(fade_event_count(-100, -100, SECOND), 1);
    // floored at -60 dB on both sides
    assert_eq!(fade_event_count(-9000, -12000, SECOND), 1);
    // no more than one per millisecond
    assert_eq!(fade_event_count(0, -6000, 10_000_000), 10);
    assert_eq!(fade_event_count(0, -6000, 10_000_001), 11);
    assert_eq!(fade_event_count(0, -6000, 0), 0);
    assert_eq!(clamp_db(-7000), -6000);
    assert_eq!(clamp_db(-10), -10);
}

#[test]
fn volume_lerp_by_representation() {
    let half = 500_000;
    assert_eq!(Volume::Linear(0).audio_lerp(Volume::Linear(LINEAR_UNITY), 0, half), Volume::Linear(500_000));
    assert_eq!(Volume::Decibels(0).audio_lerp(Volume::Decibels(-1200), 0, half), Volume::Decibels(-600));
    assert_eq!(Volume::Decibels(0).audio_lerp(Volume::Linear(0), -99_999, half), Volume::Decibels(-3000));
    assert_eq!(Volume::Linear(0).audio_lerp(Volume::Decibels(0), -99_999, half), Volume::Decibels(-3000));
}

#[test]
fn partial_render_window() {
    let tween = VolumeTween {
        start: 100,
        end: 200,
        from: Volume::Linear(0),
        to: Volume::Linear(1000),
        linear_db: 0,
        total_events: 4,
    };
    assert_eq!(
        tween.render(130, 175),
        vec![(150, Volume::Linear(500)), (175, Volume::Linear(750))]
    );
    assert!(tween.render(200, 300).is_empty());
    assert!(tween.render(0, 100).is_empty());
}

#[test]
fn fade_to_uses_now() {
    let tween = fade_to(Volume::Linear(LINEAR_UNITY), 0, Volume::Linear(0), -100_000, 500, SECOND);
    assert_eq!(tween.start, 500);
    assert_eq!(tween.end, 500 + SECOND);
    assert_eq!(tween.total_events, 75);
    let saturated = fade_to(Volume::Decibels(0), 0, Volume::Decibels(0), 0, u64::MAX - 1, 10);
    assert_eq!(saturated.end, u64::MAX);
}

#[test]
fn schedule_merge_and_clear() {
    let mut ids = EventIds::new();
    let a = fade_at(Volume::Decibels(0), 0, Volume::Decibels(-1000), 0, 0, 100);
    let b = fade_at(Volume::Decibels(0), 0, Volume::Decibels(-2000), 0, 200, 300);
    let mut source = AudioEvents::new(0);
    source.schedule(TimelineEvent::new(Change::Fade(a), ids.fresh()));
    source.schedule(TimelineEvent::new(Change::Fade(b), ids.fresh()));
    assert_eq!(source.now(), 0);

    let mut follower = AudioEvents::new(0);
    follower.merge_timelines(&source);
    follower.merge_timelines(&source);
    assert_eq!(follower.timeline().len(), 2);
    assert_ne!(follower.timeline()[0].id(), follower.timeline()[1].id());

    assert_eq!(follower.get_value_at(150, Volume::Decibels(0)), Volume::Decibels(-1000));
    assert_eq!(follower.get_value_at(400, Volume::Decibels(0)), Volume::Decibels(-2000));
    assert_eq!(follower.get_value_at(0, Volume::Decibels(5)), Volume::Decibels(5));

    // only events that ended and were fully rendered are dropped
    follower.clear_elapsed_events(150);
    assert_eq!(follower.timeline().len(), 2);
    let mut done = TimelineEvent::new(Change::Fade(a), 7);
    done.render_progress.complete = true;
    let mut events = AudioEvents::new(0);
    events.schedule(done);
    events.schedule(TimelineEvent::new(Change::Fade(b), 8));
    events.clear_elapsed_events(150);
    assert_eq!(events.timeline().len(), 1);
    assert_eq!(events.timeline()[0].id(), 8);
    events.set_now(42);
    assert_eq!(events.now(), 42);
}

#[test]
fn event_progress() {
    let a = fade_at(Volume::Decibels(0), 0, Volume::Decibels(-1000), 0, 100, 200);
    let e = TimelineEvent::new(Change::Fade(a), 1);
    assert_eq!(e.render_progress, RenderProgress::new(100, 100));
    assert!(!e.completely_elapsed(200));
    assert!(e.completely_elapsed(201));
    assert_eq!(e.render_range(50, 150), Some((100, 150)));
    assert_eq!(e.render_range(120, 500), Some((120, 200)));
    let mut done = e;
    done.render_progress.complete = true;
    assert_eq!(done.render_range(0, 500), None);
}

#[test]
fn merge_and_clear_drains_elapsed_from_source() {
    let a = fade_at(Volume::Decibels(0), 0, Volume::Decibels(-1000), 0, 0, 100);
    let b = fade_at(Volume::Decibels(0), 0, Volume::Decibels(-2000), 0, 200, 300);
    let mut source = AudioEvents::new(0);
    source.schedule(TimelineEvent::new(Change::Fade(a), 1));
    source.schedule(TimelineEvent::new(Change::Fade(b), 2));
    let mut follower = AudioEvents::new(0);
    follower.merge_timelines_and_clear(&mut source, 150);
    assert_eq!(follower.timeline().len(), 2);
    assert_eq!(source.timeline().len(), 1);
    assert_eq!(source.timeline()[0].id(), 2);
}

#[test]
fn single_changes_apply_at_their_instant() {
    let mut events = AudioEvents::new(0);
    events.schedule_at(100, Volume::Decibels(-300), 1);
    let fade = fade_at(Volume::Decibels(-300), 0, Volume::Decibels(-1300), 0, 200, 300);
    events.schedule_tween(fade, 2);
    assert_eq!(events.get_value_at(99, Volume::Decibels(0)), Volume::Decibels(0));
    assert_eq!(events.get_value_at(100, Volume::Decibels(0)), Volume::Decibels(-300));
    // a fade of 100 ticks is allowed a single step, at its end
    assert_eq!(fade.total_events, 1);
    assert_eq!(events.get_value_at(250, Volume::Decibels(0)), Volume::Decibels(-300));
    assert_eq!(events.get_value_at(300, Volume::Decibels(0)), Volume::Decibels(-1300));
    let single = Change::Single { instant: 100, value: Volume::Linear(5) };
    assert_eq!(single.render(0, 99), vec![]);
    assert_eq!(single.render(100, 100), vec![(100, Volume::Linear(5))]);
    assert_eq!(single.start(), 100);
    assert_eq!(single.end(), 100);
}
