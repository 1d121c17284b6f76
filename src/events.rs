//! Scheduled parameter changes: volume fades rendered as discrete steps.
use vstd::prelude::*;
use crate::timeline::{lemma_lerp_bounds, lerp_i64, lerp_toward, PROGRESS_ONE};

verus! {

/// Unity gain as a linear amplitude, in millionths.
pub const LINEAR_UNITY: u64 = 1_000_000;

/// The quietest level a fade distinguishes: -60 dB, in hundredths of a dB.
pub const DB_FLOOR: i64 = -6000;

/// Clock ticks (nanoseconds) per millisecond.
pub const TICKS_PER_MS: u64 = 1_000_000;

/// A volume, either as linear amplitude (millionths, unity gain at
/// [`LINEAR_UNITY`]) or in hundredths of a decibel.
#[derive(Debug, Clone, Copy, PartialEq, Eq, Structural)]
pub enum Volume {
    Linear(u64),
    Decibels(i64),
}

/// `db` (hundredths of a dB), raised to the -60 dB floor.
pub open spec fn spec_clamp_db(db: int) -> int {
    if db < DB_FLOOR {
        DB_FLOOR as int
    } else {
        db
    }
}

/// `db` (hundredths of a dB), raised to the -60 dB floor.
pub fn clamp_db(db: i64) -> (r: i64)
    ensures
        r == spec_clamp_db(db as int),
{
    if db < DB_FLOOR {
        DB_FLOOR
    } else {
        db
    }
}

impl Volume {
    /// The volume `progress` millionths of the way from `self` to `other`.
    /// Two volumes of one representation interpolate in it; otherwise the
    /// interpolation runs in decibels, with the linear side converted to
    /// `linear_db` (its level in hundredths of a dB) and floored at -60 dB.
    pub open spec fn spec_audio_lerp(self, other: Volume, linear_db: i64, progress: nat) -> Volume {
        match (self, other) {
            (Volume::Linear(a), Volume::Linear(b)) => Volume::Linear(
                lerp_toward(a as int, b as int, progress) as u64,
            ),
            (Volume::Decibels(a), Volume::Decibels(b)) => Volume::Decibels(
                lerp_toward(a as int, b as int, progress) as i64,
            ),
            (Volume::Decibels(a), Volume::Linear(_)) => Volume::Decibels(
                lerp_toward(a as int, spec_clamp_db(linear_db as int), progress) as i64,
            ),
            (Volume::Linear(_), Volume::Decibels(b)) => Volume::Decibels(
                lerp_toward(spec_clamp_db(linear_db as int), b as int, progress) as i64,
            ),
        }
    }

    /// The volume `progress` millionths of the way from `self` to `other`.
    pub fn audio_lerp(&self, other: Volume, linear_db: i64, progress: u32) -> (r: Volume)
        requires
            progress <= PROGRESS_ONE,
        ensures
            r == self.spec_audio_lerp(other, linear_db, progress as nat),
    {
        match (*self, other) {
            (Volume::Linear(a), Volume::Linear(b)) => Volume::Linear(lerp_u64(a, b, progress)),
            (Volume::Decibels(a), Volume::Decibels(b)) => Volume::Decibels(lerp_i64(a, b, progress)),
            (Volume::Decibels(a), Volume::Linear(_)) => Volume::Decibels(
                lerp_i64(a, clamp_db(linear_db), progress),
            ),
            (Volume::Linear(_), Volume::Decibels(b)) => Volume::Decibels(
                lerp_i64(clamp_db(linear_db), b, progress),
            ),
        }
    }
}

fn lerp_u64(a: u64, b: u64, progress: u32) -> (r: u64)
    requires
        progress <= PROGRESS_ONE,
    ensures
        r == lerp_toward(a as int, b as int, progress as nat),
{
    proof {
        lemma_lerp_bounds(a as int, b as int, progress as nat);
    }
    let x = a as i128;
    let y = b as i128;
    let p = progress as i128;
    if y >= x {
        (x + (y - x) * p / 1_000_000) as u64
    } else {
        (x - (x - y) * p / 1_000_000) as u64
    }
}

/// How many steps a fade takes: about 1.25 per dB of (floored) distance,
/// at least one, and no more than one per millisecond of its duration.
pub open spec fn spec_fade_event_count(start_db: int, target_db: int, duration: nat) -> nat {
    let span = spec_clamp_db(start_db) - spec_clamp_db(target_db);
    let abs_span = if span < 0 {
        -span
    } else {
        span
    };
    let by_distance = if abs_span / 80 < 1 {
        1
    } else {
        abs_span / 80
    };
    let by_rate = (duration + TICKS_PER_MS - 1) / (TICKS_PER_MS as int);
    (if by_rate < by_distance {
        by_rate
    } else {
        by_distance
    }) as nat
}

/// How many steps a fade between two levels (hundredths of a dB) over
/// `duration` ticks takes.
pub fn fade_event_count(start_db: i64, target_db: i64, duration: u64) -> (r: u64)
    ensures
        r as nat == spec_fade_event_count(start_db as int, target_db as int, duration as nat),
{
    let a = clamp_db(start_db) as i128;
    let b = clamp_db(target_db) as i128;
    let span = if a >= b {
        a - b
    } else {
        b - a
    };
    let by_distance: i128 = if span / 80 < 1 {
        1
    } else {
        span / 80
    };
    let by_rate: i128 = (duration as i128 + 999_999) / 1_000_000;
    let count = if by_rate < by_distance {
        by_rate
    } else {
        by_distance
    };
    count as u64
}

/// A fade of a volume over `[start, end]`, rendered as `total_events`
/// evenly spaced steps; step `i` (from 1) lands `i / total_events` of the way
/// through, so the last step lands on `end` with the target value.
#[derive(Debug, Clone, Copy, PartialEq, Eq, Structural)]
pub struct VolumeTween {
    pub start: u64,
    pub end: u64,
    pub from: Volume,
    pub to: Volume,
    /// The level of the linear endpoint in hundredths of a dB, used when
    /// the endpoints differ in representation.
    pub linear_db: i64,
    pub total_events: u64,
}

impl VolumeTween {
    pub open spec fn wf(self) -> bool {
        self.start <= self.end
    }

    /// When step `i` lands.
    pub open spec fn step_instant(self, i: int) -> int {
        self.start + i * (self.end - self.start) / (self.total_events as int)
    }

    /// How far through the fade step `i` is, in millionths.
    pub open spec fn step_progress(self, i: int) -> nat {
        (i * (PROGRESS_ONE as int) / (self.total_events as int)) as nat
    }

    /// The volume step `i` sets.
    pub open spec fn step_value(self, i: int) -> Volume {
        self.from.spec_audio_lerp(self.to, self.linear_db, self.step_progress(i))
    }

    /// The part of `[start, end]` this fade renders into, if any: the fade's
    /// range cut to the query, when the cut is non-empty.
    pub open spec fn window(self, start: u64, end: u64) -> Option<(int, int)> {
        let s = if self.start > start {
            self.start
        } else {
            start
        };
        let e = if self.end < end {
            self.end
        } else {
            end
        };
        if self.start < self.end && s < self.end && s < e {
            Some((s as int, e as int))
        } else {
            None
        }
    }

    /// Steps `1..=k` that land in `[s, e]`, as (instant, volume) pairs.
    pub open spec fn steps_within(self, s: int, e: int, k: int) -> Seq<(u64, Volume)>
        decreases k,
    {
        if k <= 0 {
            seq![]
        } else {
            let prev = self.steps_within(s, e, k - 1);
            let t = self.step_instant(k);
            if s <= t <= e {
                prev.push((t as u64, self.step_value(k)))
            } else {
                prev
            }
        }
    }

    /// The steps rendered for the query range `[start, end]`.
    pub open spec fn spec_render(self, start: u64, end: u64) -> Seq<(u64, Volume)> {
        match self.window(start, end) {
            Some((s, e)) => self.steps_within(s, e, self.total_events as int),
            None => seq![],
        }
    }

    /// The steps of this fade that land within `[start, end]`, in order.
    pub fn render(&self, start: u64, end: u64) -> (r: Vec<(u64, Volume)>)
        ensures
            r@ == self.spec_render(start, end),
    {
        let mut out: Vec<(u64, Volume)> = Vec::new();
        let s = if self.start > start {
            self.start
        } else {
            start
        };
        let e = if self.end < end {
            self.end
        } else {
            end
        };
        if !(self.start < self.end && s < self.end && s < e) {
            return out;
        }
        let span = self.end - self.start;
        let total = self.total_events;
        let mut k: u64 = 0;
        while k < total
            invariant
                k <= total,
                total == self.total_events,
                span == self.end - self.start,
                self.window(start, end) == Some((s as int, e as int)),
                out@ == self.steps_within(s as int, e as int, k as int),
            decreases total - k,
        {
            let i = k + 1;
            proof {
                assert(i as int * span as int / (total as int) <= span as int) by (nonlinear_arith)
                    requires 1 <= i <= total;
                assert(i as int * 1_000_000 / (total as int) <= 1_000_000) by (nonlinear_arith)
                    requires 1 <= i <= total;
                assert(0 <= i as int * span as int) by (nonlinear_arith)
                    requires 1 <= i;
                assert(i as int * span as int <= u64::MAX as int * u64::MAX as int) by (nonlinear_arith)
                    requires i <= u64::MAX, span <= u64::MAX;
            }
            let offset = ((i as u128) * (span as u128) / (total as u128)) as u64;
            let t = self.start + offset;
            if s <= t && t <= e {
                let p = ((i as u128) * 1_000_000 / (total as u128)) as u32;
                let v = self.from.audio_lerp(self.to, self.linear_db, p);
                out.push((t, v));
            }
            k = i;
        }
        out
    }
}

/// The level of `v` in hundredths of a dB, with `linear_db` standing for a
/// linear volume's level.
pub open spec fn level_db(v: Volume, linear_db: i64) -> i64 {
    match v {
        Volume::Decibels(x) => x,
        Volume::Linear(_) => linear_db,
    }
}

/// The fade from `current` to `target` over `[start, end]`.
pub open spec fn spec_fade_at(
    current: Volume,
    current_linear_db: i64,
    target: Volume,
    target_linear_db: i64,
    start: u64,
    end: u64,
) -> VolumeTween {
    VolumeTween {
        start,
        end,
        from: current,
        to: target,
        linear_db: if current is Linear {
            current_linear_db
        } else {
            target_linear_db
        },
        total_events: spec_fade_event_count(
            level_db(current, current_linear_db) as int,
            level_db(target, target_linear_db) as int,
            if end >= start {
                (end - start) as nat
            } else {
                0
            },
        ) as u64,
    }
}

/// Fade from `current` to `target` over `[start, end]`. A linear volume's
/// level in decibels (hundredths) is given beside it; it is not read for a
/// volume already in decibels.
pub fn fade_at(
    current: Volume,
    current_linear_db: i64,
    target: Volume,
    target_linear_db: i64,
    start: u64,
    end: u64,
) -> (r: VolumeTween)
    ensures
        r == spec_fade_at(current, current_linear_db, target, target_linear_db, start, end),
{
    let from_db = match current {
        Volume::Decibels(x) => x,
        Volume::Linear(_) => current_linear_db,
    };
    let to_db = match target {
        Volume::Decibels(x) => x,
        Volume::Linear(_) => target_linear_db,
    };
    let linear_db = match current {
        Volume::Linear(_) => current_linear_db,
        Volume::Decibels(_) => target_linear_db,
    };
    let total_events = fade_event_count(from_db, to_db, end.saturating_sub(start));
    VolumeTween { start, end, from: current, to: target, linear_db, total_events }
}

/// Fade from `current` to `target` over `duration` ticks from `now`; the
/// end saturates at the clock's limit.
pub fn fade_to(
    current: Volume,
    current_linear_db: i64,
    target: Volume,
    target_linear_db: i64,
    now: u64,
    duration: u64,
) -> (r: VolumeTween)
    ensures
        r == spec_fade_at(
            current,
            current_linear_db,
            target,
            target_linear_db,
            now,
            if now + duration > u64::MAX {
                u64::MAX
            } else {
                (now + duration) as u64
            },
        ),
{
    fade_at(current, current_linear_db, target, target_linear_db, now, now.saturating_add(duration))
}

/// The value a fade ends on: its target, except that a linear target
/// reached from decibels ends on the target's (floored) level in decibels.
pub open spec fn final_value(tween: VolumeTween) -> Volume {
    match (tween.from, tween.to) {
        (Volume::Decibels(_), Volume::Linear(_)) => Volume::Decibels(
            spec_clamp_db(tween.linear_db as int) as i64,
        ),
        _ => tween.to,
    }
}

/// The last step a fade renders over its own range lands on its end and
/// sets its final value exactly.
pub proof fn lemma_fade_final_step(tween: VolumeTween)
    requires
        tween.start < tween.end,
        tween.total_events >= 1,
    ensures
        ({
            let r = tween.spec_render(tween.start, tween.end);
            &&& r.len() >= 1
            &&& r.last() == (tween.end, final_value(tween))
        }),
{
    let n = tween.total_events as int;
    let span = (tween.end - tween.start) as int;
    assert(n * span / n == span) by (nonlinear_arith)
        requires n >= 1;
    assert(n * 1_000_000 / n == 1_000_000) by (nonlinear_arith)
        requires n >= 1;
    assert(tween.step_instant(n) == tween.end);
    assert(tween.step_progress(n) == PROGRESS_ONE);
    assert forall|a: int, b: int| lerp_toward(a, b, PROGRESS_ONE as nat) == b by {
        if b >= a {
            assert((b - a) * 1_000_000 / 1_000_000 == b - a) by (nonlinear_arith);
        } else {
            assert((a - b) * 1_000_000 / 1_000_000 == a - b) by (nonlinear_arith);
        }
    }
    assert(tween.step_value(n) == final_value(tween));
}

/// A scheduled volume change: one value set at an instant, or a fade.
#[derive(Debug, Clone, Copy, PartialEq, Eq, Structural)]
pub enum Change {
    Single { instant: u64, value: Volume },
    Fade(VolumeTween),
}

impl Change {
    /// When the change starts.
    pub open spec fn spec_start(self) -> u64 {
        match self {
            Change::Single { instant, .. } => instant,
            Change::Fade(t) => t.start,
        }
    }

    /// When the change ends.
    pub open spec fn spec_end(self) -> u64 {
        match self {
            Change::Single { instant, .. } => instant,
            Change::Fade(t) => t.end,
        }
    }

    /// The (instant, volume) steps of this change within `[start, end]`.
    pub open spec fn spec_render(self, start: u64, end: u64) -> Seq<(u64, Volume)> {
        match self {
            Change::Single { instant, value } => if start <= instant <= end {
                seq![(instant, value)]
            } else {
                seq![]
            },
            Change::Fade(t) => t.spec_render(start, end),
        }
    }

    /// When the change starts.
    pub fn start(&self) -> (r: u64)
        ensures
            r == self.spec_start(),
    {
        match self {
            Change::Single { instant, .. } => *instant,
            Change::Fade(t) => t.start,
        }
    }

    /// When the change ends.
    pub fn end(&self) -> (r: u64)
        ensures
            r == self.spec_end(),
    {
        match self {
            Change::Single { instant, .. } => *instant,
            Change::Fade(t) => t.end,
        }
    }

    /// The steps of this change within `[start, end]`, in order.
    pub fn render(&self, start: u64, end: u64) -> (r: Vec<(u64, Volume)>)
        ensures
            r@ == self.spec_render(start, end),
    {
        match self {
            Change::Single { instant, value } => {
                let mut out = Vec::new();
                if start <= *instant && *instant <= end {
                    out.push((*instant, *value));
                }
                proof {
                    assert(out@ =~= self.spec_render(start, end));
                }
                out
            },
            Change::Fade(t) => t.render(start, end),
        }
    }
}

/// How far a scheduled event has been rendered.
#[derive(Debug, Clone, Copy, PartialEq, Eq, Structural)]
pub struct RenderProgress {
    /// The rendered range starts here.
    pub start: u64,
    /// The rendered range ends here.
    pub end: u64,
    /// Whether the event has been rendered entirely.
    pub complete: bool,
}

impl RenderProgress {
    /// Nothing of `[start, end)` rendered as complete yet.
    pub fn new(start: u64, end: u64) -> (r: RenderProgress)
        ensures
            r == (RenderProgress { start, end, complete: false }),
    {
        RenderProgress { start, end, complete: false }
    }
}

/// A scheduled change with its identity and render progress.
#[derive(Debug, Clone, Copy, PartialEq, Eq, Structural)]
pub struct TimelineEvent {
    pub change: Change,
    pub render_progress: RenderProgress,
    pub id: u64,
}

/// A source of event identities, each handed out once.
#[derive(Debug, Clone, Copy, PartialEq, Eq, Structural)]
pub struct EventIds {
    next: u64,
}

impl EventIds {
    pub closed spec fn spec_next(self) -> u64 {
        self.next
    }

    /// A source that starts from zero.
    pub fn new() -> (r: EventIds)
        ensures
            r.spec_next() == 0,
    {
        EventIds { next: 0 }
    }

    /// The next identity; no identity is handed out twice.
    pub fn fresh(&mut self) -> (id: u64)
        requires
            old(self).spec_next() < u64::MAX,
        ensures
            id == old(self).spec_next(),
            final(self).spec_next() == old(self).spec_next() + 1,
    {
        let id = self.next;
        self.next = self.next + 1;
        id
    }
}

impl TimelineEvent {
    pub open spec fn spec_id(self) -> u64 {
        self.id
    }

    /// Schedule `change` under identity `id`; nothing is rendered yet.
    pub fn new(change: Change, id: u64) -> (r: TimelineEvent)
        ensures
            r.change == change,
            r.render_progress == (RenderProgress {
                start: change.spec_start(),
                end: change.spec_start(),
                complete: false,
            }),
            r.spec_id() == id,
    {
        let start = change.start();
        TimelineEvent { change, render_progress: RenderProgress::new(start, start), id }
    }

    /// Whether the event ended before `now`.
    pub fn completely_elapsed(&self, now: u64) -> (r: bool)
        ensures
            r == (self.change.spec_end() < now),
    {
        self.change.end() < now
    }

    /// This event's identity.
    pub fn id(&self) -> (r: u64)
        ensures
            r == self.spec_id(),
    {
        self.id
    }

    /// The part of `[start, end)` still to be rendered, or `None` once the
    /// event is complete.
    pub fn render_range(&self, start: u64, end: u64) -> (r: Option<(u64, u64)>)
        ensures
            self.render_progress.complete ==> r is None,
            !self.render_progress.complete ==> r == Some((
                if self.render_progress.end > start {
                    self.render_progress.end
                } else {
                    start
                },
                if self.change.spec_end() < end {
                    self.change.spec_end()
                } else {
                    end
                },
            )),
    {
        if self.render_progress.complete {
            return None;
        }
        let new_start = if self.render_progress.end > start {
            self.render_progress.end
        } else {
            start
        };
        let change_end = self.change.end();
        let new_end = if change_end < end {
            change_end
        } else {
            end
        };
        Some((new_start, new_end))
    }
}

/// Whether an event in `events` has identity `id`.
pub open spec fn has_id(events: Seq<TimelineEvent>, id: u64) -> bool {
    exists|i: int| 0 <= i < events.len() && (#[trigger] events[i]).spec_id() == id
}

/// `target` after merging in the first `k` events of `source`: each is
/// appended unless an event with its identity is already there.
pub open spec fn merged(target: Seq<TimelineEvent>, source: Seq<TimelineEvent>, k: int) -> Seq<TimelineEvent>
    decreases k,
{
    if k <= 0 {
        target
    } else {
        let acc = merged(target, source, k - 1);
        if has_id(acc, source[k - 1].spec_id()) {
            acc
        } else {
            acc.push(source[k - 1])
        }
    }
}

/// The first `k` events, without those that ended before `now` and are
/// completely rendered.
pub open spec fn kept(events: Seq<TimelineEvent>, now: u64, k: int) -> Seq<TimelineEvent>
    decreases k,
{
    if k <= 0 {
        seq![]
    } else if events[k - 1].change.spec_end() < now && events[k - 1].render_progress.complete {
        kept(events, now, k - 1)
    } else {
        kept(events, now, k - 1).push(events[k - 1])
    }
}

/// The first `k` events, without those that ended before `now`.
pub open spec fn unelapsed(events: Seq<TimelineEvent>, now: u64, k: int) -> Seq<TimelineEvent>
    decreases k,
{
    if k <= 0 {
        seq![]
    } else if events[k - 1].change.spec_end() < now {
        unelapsed(events, now, k - 1)
    } else {
        unelapsed(events, now, k - 1).push(events[k - 1])
    }
}

/// `value` after applying, event by event, every step rendered in
/// `[start, end]` by the first `k` events.
pub open spec fn applied(events: Seq<TimelineEvent>, start: u64, end: u64, value: Volume, k: int) -> Volume
    decreases k,
{
    if k <= 0 {
        value
    } else {
        let before = applied(events, start, end, value, k - 1);
        let steps = events[k - 1].change.spec_render(start, end);
        if steps.len() > 0 {
            steps.last().1
        } else {
            before
        }
    }
}

fn contains_id(events: &Vec<TimelineEvent>, id: u64) -> (r: bool)
    ensures
        r == has_id(events@, id),
{
    let mut i: usize = 0;
    while i < events.len()
        invariant
            i <= events@.len(),
            forall|j: int| 0 <= j < i ==> (#[trigger] events@[j]).spec_id() != id,
        decreases events@.len() - i,
    {
        if events[i].id == id {
            assert(events@[i as int].spec_id() == id);
            return true;
        }
        i += 1;
    }
    false
}

/// The scheduled volume changes of one node, with the audio clock's time
/// as of the last control tick.
#[derive(Debug, Clone)]
pub struct AudioEvents {
    timeline: Vec<TimelineEvent>,
    now: u64,
}

impl AudioEvents {
    pub closed spec fn spec_timeline(&self) -> Seq<TimelineEvent> {
        self.timeline@
    }

    pub closed spec fn spec_now(&self) -> u64 {
        self.now
    }

    /// An empty schedule as of `now`.
    pub fn new(now: u64) -> (r: AudioEvents)
        ensures
            r.spec_timeline().len() == 0,
            r.spec_now() == now,
    {
        AudioEvents { timeline: Vec::new(), now }
    }

    /// The audio clock's time as of the last control tick.
    pub fn now(&self) -> (r: u64)
        ensures
            r == self.spec_now(),
    {
        self.now
    }

    /// Record the audio clock's time for this control tick.
    pub fn set_now(&mut self, now: u64)
        ensures
            final(self).spec_now() == now,
            final(self).spec_timeline() == old(self).spec_timeline(),
    {
        self.now = now;
    }

    /// The scheduled events, oldest first.
    pub fn timeline(&self) -> (r: &Vec<TimelineEvent>)
        ensures
            r@ == self.spec_timeline(),
    {
        &self.timeline
    }

    /// Schedule `value` to be set at `time`, under identity `id`.
    pub fn schedule_at(&mut self, time: u64, value: Volume, id: u64)
        ensures
            final(self).spec_timeline() == old(self).spec_timeline().push(
                TimelineEvent {
                    change: Change::Single { instant: time, value },
                    render_progress: RenderProgress { start: time, end: time, complete: false },
                    id,
                },
            ),
            final(self).spec_now() == old(self).spec_now(),
    {
        self.timeline.push(TimelineEvent::new(Change::Single { instant: time, value }, id));
    }

    /// Schedule a fade under identity `id`.
    pub fn schedule_tween(&mut self, tween: VolumeTween, id: u64)
        ensures
            final(self).spec_timeline() == old(self).spec_timeline().push(
                TimelineEvent {
                    change: Change::Fade(tween),
                    render_progress: RenderProgress { start: tween.start, end: tween.start, complete: false },
                    id,
                },
            ),
            final(self).spec_now() == old(self).spec_now(),
    {
        self.timeline.push(TimelineEvent::new(Change::Fade(tween), id));
    }

    /// Schedule `event` after the others.
    pub fn schedule(&mut self, event: TimelineEvent)
        ensures
            final(self).spec_timeline() == old(self).spec_timeline().push(event),
            final(self).spec_now() == old(self).spec_now(),
    {
        self.timeline.push(event);
    }

    /// Copy in every event of `other` whose identity is not scheduled here.
    pub fn merge_timelines(&mut self, other: &AudioEvents)
        ensures
            final(self).spec_timeline() == merged(
                old(self).spec_timeline(),
                other.spec_timeline(),
                other.spec_timeline().len() as int,
            ),
            final(self).spec_now() == old(self).spec_now(),
    {
        let mut i: usize = 0;
        while i < other.timeline.len()
            invariant
                i <= other.timeline@.len(),
                self.timeline@ == merged(old(self).timeline@, other.timeline@, i as int),
                self.now == old(self).now,
            decreases other.timeline@.len() - i,
        {
            let e = other.timeline[i];
            if !contains_id(&self.timeline, e.id) {
                self.timeline.push(e);
            }
            i += 1;
        }
    }

    /// Like [`AudioEvents::merge_timelines`], and also drop from `other`
    /// the events that ended before `now`.
    pub fn merge_timelines_and_clear(&mut self, other: &mut AudioEvents, now: u64)
        ensures
            final(self).spec_timeline() == merged(
                old(self).spec_timeline(),
                old(other).spec_timeline(),
                old(other).spec_timeline().len() as int,
            ),
            final(self).spec_now() == old(self).spec_now(),
            final(other).spec_timeline() == unelapsed(
                old(other).spec_timeline(),
                now,
                old(other).spec_timeline().len() as int,
            ),
            final(other).spec_now() == old(other).spec_now(),
    {
        self.merge_timelines(other);
        let mut out: Vec<TimelineEvent> = Vec::new();
        let mut i: usize = 0;
        while i < other.timeline.len()
            invariant
                i <= other.timeline@.len(),
                other.timeline@ == old(other).timeline@,
                other.now == old(other).now,
                out@ == unelapsed(other.timeline@, now, i as int),
            decreases other.timeline@.len() - i,
        {
            let e = other.timeline[i];
            if !e.completely_elapsed(now) {
                out.push(e);
            }
            i += 1;
        }
        other.timeline = out;
    }

    /// Drop the events that ended before `now` and are completely rendered.
    pub fn clear_elapsed_events(&mut self, now: u64)
        ensures
            final(self).spec_timeline() == kept(
                old(self).spec_timeline(),
                now,
                old(self).spec_timeline().len() as int,
            ),
            final(self).spec_now() == old(self).spec_now(),
    {
        let mut out: Vec<TimelineEvent> = Vec::new();
        let mut i: usize = 0;
        while i < self.timeline.len()
            invariant
                i <= self.timeline@.len(),
                self.timeline@ == old(self).timeline@,
                self.now == old(self).now,
                out@ == kept(self.timeline@, now, i as int),
            decreases self.timeline@.len() - i,
        {
            let e = self.timeline[i];
            if !(e.completely_elapsed(now) && e.render_progress.complete) {
                out.push(e);
            }
            i += 1;
        }
        self.timeline = out;
    }

    /// `value` after applying, event by event, every step rendered within
    /// `[start, end]`.
    pub fn value_at(&self, start: u64, end: u64, value: &mut Volume)
        ensures
            *final(value) == applied(
                self.spec_timeline(),
                start,
                end,
                *old(value),
                self.spec_timeline().len() as int,
            ),
    {
        let mut i: usize = 0;
        while i < self.timeline.len()
            invariant
                i <= self.timeline@.len(),
                *value == applied(self.timeline@, start, end, *old(value), i as int),
            decreases self.timeline@.len() - i,
        {
            let steps = self.timeline[i].change.render(start, end);
            if steps.len() > 0 {
                *value = steps[steps.len() - 1].1;
            }
            i += 1;
        }
    }

    /// `value` with every step scheduled up to `instant` applied.
    pub fn get_value_at(&self, instant: u64, value: Volume) -> (r: Volume)
        ensures
            r == applied(self.spec_timeline(), 0, instant, value, self.spec_timeline().len() as int),
    {
        let mut v = value;
        self.value_at(0, instant, &mut v);
        v
    }
}

} // verus!
