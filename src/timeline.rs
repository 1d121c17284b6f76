//! Audio-rate parameter timelines.
//!
//! A timeline holds a baseline value plus a bounded list of scheduled
//! events. Time is measured in clock ticks (nanoseconds of the audio clock).
use vstd::prelude::*;

verus! {

/// Progress through a curve is expressed in millionths of its span.
pub const PROGRESS_ONE: u32 = 1_000_000;

/// The most events a timeline keeps; pushing beyond this evicts the oldest.
pub const EVENT_CAPACITY: usize = 16;

/// An interpolation between two values, driven by progress in millionths.
pub trait TimelineCurve<T>: Sized {
    /// The value `progress` millionths of the way from `from` to `to`.
    spec fn spec_sample(&self, from: T, to: T, progress: nat) -> T;

    /// The value `progress` millionths of the way from `from` to `to`.
    fn sample(&self, from: &T, to: &T, progress: u32) -> (r: T)
        requires
            progress <= PROGRESS_ONE,
        ensures
            r == self.spec_sample(*from, *to, progress as nat),
    ;
}

/// The curve type of discrete timelines. It has no public constructor, so
/// a discrete timeline never holds a curve event.
#[derive(Debug, Copy, Clone, PartialEq, Eq, Hash)]
pub struct Never {
    unconstructible: (),
}

impl<T: Copy> TimelineCurve<T> for Never {
    open spec fn spec_sample(&self, from: T, to: T, progress: nat) -> T {
        if progress >= PROGRESS_ONE {
            to
        } else {
            from
        }
    }

    fn sample(&self, from: &T, to: &T, progress: u32) -> (r: T) {
        if progress >= PROGRESS_ONE {
            *to
        } else {
            *from
        }
    }
}

/// Straight-line interpolation between integer values, rounded toward the
/// starting value.
#[derive(Debug, Copy, Clone, PartialEq, Eq, Hash)]
pub struct Linear;

/// The value `progress` millionths of the way from `from` to `to`, rounded
/// toward `from`.
pub open spec fn lerp_toward(from: int, to: int, progress: nat) -> int {
    if to >= from {
        from + (to - from) * progress / (PROGRESS_ONE as int)
    } else {
        from - (from - to) * progress / (PROGRESS_ONE as int)
    }
}

impl TimelineCurve<i64> for Linear {
    open spec fn spec_sample(&self, from: i64, to: i64, progress: nat) -> i64 {
        lerp_toward(from as int, to as int, progress) as i64
    }

    fn sample(&self, from: &i64, to: &i64, progress: u32) -> (r: i64) {
        lerp_i64(*from, *to, progress)
    }
}

/// The value `progress` millionths of the way from `a` to `b`, rounded
/// toward `a`.
pub fn lerp_i64(a: i64, b: i64, progress: u32) -> (r: i64)
    requires
        progress <= PROGRESS_ONE,
    ensures
        r == lerp_toward(a as int, b as int, progress as nat),
{
    proof {
        lemma_lerp_bounds(a as int, b as int, progress as nat);
    }
    let x = a as i128;
    let y = b as i128;
    let p = progress as i128;
    if y >= x {
        (x + (y - x) * p / 1_000_000) as i64
    } else {
        (x - (x - y) * p / 1_000_000) as i64
    }
}

/// An interpolated value lies between its endpoints.
pub proof fn lemma_lerp_bounds(a: int, b: int, p: nat)
    requires
        p <= PROGRESS_ONE,
    ensures
        a <= b ==> a <= lerp_toward(a, b, p) <= b,
        b < a ==> b <= lerp_toward(a, b, p) <= a,
        a <= b ==> 0 <= (b - a) * p <= (b - a) * PROGRESS_ONE,
        b < a ==> 0 <= (a - b) * p <= (a - b) * PROGRESS_ONE,
{
    if a <= b {
        assert(0 <= (b - a) * p <= (b - a) * PROGRESS_ONE) by (nonlinear_arith)
            requires a <= b, p <= PROGRESS_ONE;
        assert((b - a) * p / (PROGRESS_ONE as int) <= b - a) by (nonlinear_arith)
            requires 0 <= (b - a) * p <= (b - a) * PROGRESS_ONE;
    } else {
        assert(0 <= (a - b) * p <= (a - b) * PROGRESS_ONE) by (nonlinear_arith)
            requires b < a, p <= PROGRESS_ONE;
        assert((a - b) * p / (PROGRESS_ONE as int) <= a - b) by (nonlinear_arith)
            requires 0 <= (a - b) * p <= (a - b) * PROGRESS_ONE;
    }
}

/// Progress of `time` through `[start, end]`, in millionths, clamped to the
/// span; a zero-length span counts as complete.
pub open spec fn spec_progress(time: u64, start: u64, end: u64) -> nat {
    if time >= end {
        PROGRESS_ONE as nat
    } else if time <= start {
        0
    } else {
        ((time - start) * (PROGRESS_ONE as int) / ((end - start) as int)) as nat
    }
}

/// Progress of `time` through `[start, end]`, in millionths.
pub fn progress(time: u64, start: u64, end: u64) -> (r: u32)
    ensures
        r as nat == spec_progress(time, start, end),
        r <= PROGRESS_ONE,
{
    if time >= end {
        PROGRESS_ONE
    } else if time <= start {
        0
    } else {
        let num = (time - start) as u128 * 1_000_000;
        let den = (end - start) as u128;
        proof {
            let a = (time - start) as int;
            let d = (end - start) as int;
            assert(a * 1_000_000 / d <= 1_000_000) by (nonlinear_arith)
                requires 0 < a < d;
        }
        (num / den) as u32
    }
}

/// The error of [`TimelineGeneric::push`].
#[derive(Debug, Clone, Copy, PartialEq, Eq, Structural)]
pub enum TimelineError {
    /// The event's range intersects the range of a scheduled event.
    OverlappingRanges,
    /// A curve ends before it starts.
    InvertedRange,
}

/// A single timeline event.
#[derive(Debug, Clone, Copy)]
pub enum TimelineEvent<T, C> {
    /// Set the value now, clearing every scheduled event.
    Immediate(T),
    /// Jump to `value` at `time`.
    Deferred { value: T, time: u64 },
    /// Move from `from` to `to` along `curve` during `[start, end]`.
    Curve { curve: C, from: T, to: T, start: u64, end: u64 },
}

impl<T: Copy, C: TimelineCurve<T> + Copy> TimelineEvent<T, C> {
    pub open spec fn spec_start_time(self) -> Option<u64> {
        match self {
            TimelineEvent::Deferred { time, .. } => Some(time),
            TimelineEvent::Curve { start, .. } => Some(start),
            TimelineEvent::Immediate(_) => None,
        }
    }

    pub open spec fn spec_end_time(self) -> Option<u64> {
        match self {
            TimelineEvent::Deferred { time, .. } => Some(time),
            TimelineEvent::Curve { end, .. } => Some(end),
            TimelineEvent::Immediate(_) => None,
        }
    }

    pub open spec fn spec_contains(self, time: u64) -> bool {
        match self {
            TimelineEvent::Deferred { time: t, .. } => t == time,
            TimelineEvent::Curve { start, end, .. } => start <= time <= end,
            TimelineEvent::Immediate(_) => false,
        }
    }

    pub open spec fn spec_get(self, time: u64) -> T {
        match self {
            TimelineEvent::Immediate(v) => v,
            TimelineEvent::Deferred { value, .. } => value,
            TimelineEvent::Curve { curve, from, to, start, end } => curve.spec_sample(
                from,
                to,
                spec_progress(time, start, end),
            ),
        }
    }

    pub open spec fn spec_start_value(self) -> T {
        match self {
            TimelineEvent::Immediate(v) => v,
            TimelineEvent::Deferred { value, .. } => value,
            TimelineEvent::Curve { curve, from, to, .. } => curve.spec_sample(from, to, 0),
        }
    }

    pub open spec fn spec_end_value(self) -> T {
        match self {
            TimelineEvent::Immediate(v) => v,
            TimelineEvent::Deferred { value, .. } => value,
            TimelineEvent::Curve { curve, from, to, .. } => curve.spec_sample(
                from,
                to,
                PROGRESS_ONE as nat,
            ),
        }
    }

    /// Whether both events occupy a range and the ranges share more than a
    /// boundary instant, or both are single instants and the same instant.
    pub open spec fn spec_intersects(self, other: Self) -> bool {
        match (self.spec_start_time(), self.spec_end_time(), other.spec_start_time(), other.spec_end_time()) {
            (Some(s1), Some(e1), Some(s2), Some(e2)) => (s1 < e2 && s2 < e1) || (s1 == e1 && s2
                == e2 && s1 == s2),
            _ => false,
        }
    }

    /// A curve does not end before it starts.
    pub open spec fn spec_valid_range(self) -> bool {
        match self {
            TimelineEvent::Curve { start, end, .. } => start <= end,
            _ => true,
        }
    }

    /// This event's start time, if any.
    pub fn start_time(&self) -> (r: Option<u64>)
        ensures
            r == self.spec_start_time(),
    {
        match self {
            TimelineEvent::Deferred { time, .. } => Some(*time),
            TimelineEvent::Curve { start, .. } => Some(*start),
            TimelineEvent::Immediate(_) => None,
        }
    }

    /// This event's end time, if any; a deferred event ends at its instant.
    pub fn end_time(&self) -> (r: Option<u64>)
        ensures
            r == self.spec_end_time(),
    {
        match self {
            TimelineEvent::Deferred { time, .. } => Some(*time),
            TimelineEvent::Curve { end, .. } => Some(*end),
            TimelineEvent::Immediate(_) => None,
        }
    }

    /// Whether the event covers `time`: a deferred event only its own
    /// instant, a curve its closed range.
    pub fn contains(&self, time: u64) -> (r: bool)
        ensures
            r == self.spec_contains(time),
    {
        match self {
            TimelineEvent::Deferred { time: t, .. } => *t == time,
            TimelineEvent::Curve { start, end, .. } => *start <= time && time <= *end,
            TimelineEvent::Immediate(_) => false,
        }
    }

    /// Whether `time` lies strictly inside a curve's range.
    pub fn overlaps(&self, time: u64) -> (r: bool)
        ensures
            r == (match *self {
                TimelineEvent::Curve { start, end, .. } => start < time < end,
                _ => false,
            }),
    {
        match self {
            TimelineEvent::Curve { start, end, .. } => *start < time && time < *end,
            _ => false,
        }
    }

    /// Whether both events occupy a range and the ranges share more than a
    /// boundary instant, or both are single instants and the same instant.
    pub fn intersects(&self, other: &Self) -> (r: bool)
        ensures
            r == self.spec_intersects(*other),
    {
        match (self.start_time(), self.end_time(), other.start_time(), other.end_time()) {
            (Some(s1), Some(e1), Some(s2), Some(e2)) => (s1 < e2 && s2 < e1) || (s1 == e1 && s2
                == e2 && s1 == s2),
            _ => false,
        }
    }

    /// A curve does not end before it starts.
    pub fn valid_range(&self) -> (r: bool)
        ensures
            r == self.spec_valid_range(),
    {
        match self {
            TimelineEvent::Curve { start, end, .. } => *start <= *end,
            _ => true,
        }
    }

    /// The value at `time`; a curve is sampled at the clamped progress.
    pub fn get(&self, time: u64) -> (r: T)
        ensures
            r == self.spec_get(time),
    {
        match self {
            TimelineEvent::Immediate(v) => *v,
            TimelineEvent::Deferred { value, .. } => *value,
            TimelineEvent::Curve { curve, from, to, start, end } => {
                let p = progress(time, *start, *end);
                curve.sample(from, to, p)
            },
        }
    }

    /// The starting value.
    pub fn start_value(&self) -> (r: T)
        ensures
            r == self.spec_start_value(),
    {
        match self {
            TimelineEvent::Immediate(v) => *v,
            TimelineEvent::Deferred { value, .. } => *value,
            TimelineEvent::Curve { curve, from, to, .. } => curve.sample(from, to, 0),
        }
    }

    /// The ending value; immediate and deferred events have a single value.
    pub fn end_value(&self) -> (r: T)
        ensures
            r == self.spec_end_value(),
    {
        match self {
            TimelineEvent::Immediate(v) => *v,
            TimelineEvent::Deferred { value, .. } => *value,
            TimelineEvent::Curve { curve, from, to, .. } => curve.sample(from, to, PROGRESS_ONE),
        }
    }
}

/// The index of the first event in `events` that contains `time`, if any.
pub open spec fn first_containing<T: Copy, C: TimelineCurve<T> + Copy>(
    events: Seq<TimelineEvent<T, C>>,
    time: u64,
) -> Option<int> {
    if exists|i: int| 0 <= i < events.len() && #[trigger] events[i].spec_contains(time) {
        Some(
            choose|i: int|
                0 <= i < events.len() && #[trigger] events[i].spec_contains(time) && forall|j: int|
                    0 <= j < i ==> !#[trigger] events[j].spec_contains(time),
        )
    } else {
        None
    }
}

/// Among the first `n` events, the one whose end is at or before `time` and
/// latest (the earliest such event on ties), if any.
pub open spec fn latest_elapsed<T: Copy, C: TimelineCurve<T> + Copy>(
    events: Seq<TimelineEvent<T, C>>,
    time: u64,
    n: int,
) -> Option<int>
    decreases n,
{
    if n <= 0 {
        None
    } else {
        let prev = latest_elapsed(events, time, n - 1);
        let e = events[n - 1];
        match e.spec_end_time() {
            Some(end) => if end <= time && (prev is None || end > events[prev->0].spec_end_time()->0) {
                Some(n - 1)
            } else {
                prev
            },
            None => prev,
        }
    }
}

/// What the latest elapsed event among the first `n` is: an event that has
/// ended by `time`, ending no earlier than any other such event.
pub proof fn lemma_latest_elapsed<T: Copy, C: TimelineCurve<T> + Copy>(
    events: Seq<TimelineEvent<T, C>>,
    time: u64,
    n: int,
)
    requires
        0 <= n <= events.len(),
    ensures
        match latest_elapsed(events, time, n) {
            Some(k) => {
                &&& 0 <= k < n
                &&& events[k].spec_end_time() matches Some(e) && e <= time
                &&& forall|j: int|
                    0 <= j < n && #[trigger] events[j].spec_end_time() is Some
                        && events[j].spec_end_time()->0 <= time
                        ==> events[j].spec_end_time()->0 <= events[k].spec_end_time()->0
            },
            None => forall|j: int|
                0 <= j < n ==> !(#[trigger] events[j].spec_end_time() matches Some(f) && f <= time),
        },
    decreases n,
{
    if n > 0 {
        lemma_latest_elapsed(events, time, n - 1);
    }
}

/// A timeline's events after `event` is appended, the oldest evicted when full.
pub open spec fn appended<E>(events: Seq<E>, event: E) -> Seq<E> {
    if events.len() < EVENT_CAPACITY {
        events.push(event)
    } else {
        events.drop_first().push(event)
    }
}

/// A parameter expressed as a baseline value plus scheduled events.
#[derive(Debug, Clone)]
pub struct TimelineGeneric<T, C> {
    value: T,
    events: Vec<TimelineEvent<T, C>>,
    consumed: u64,
}

/// A timeline of integer values that can move along straight-line curves.
pub type Timeline = TimelineGeneric<i64, Linear>;

/// A timeline of values that only change in discrete steps.
pub type DiscreteTimeline<T> = TimelineGeneric<T, Never>;

impl<T: Copy, C: TimelineCurve<T> + Copy> TimelineGeneric<T, C> {
    /// The stored baseline value.
    pub closed spec fn spec_value(&self) -> T {
        self.value
    }

    /// The scheduled events, oldest first.
    pub closed spec fn spec_events(&self) -> Seq<TimelineEvent<T, C>> {
        self.events@
    }

    /// How many events have ever been pushed.
    pub closed spec fn spec_consumed(&self) -> nat {
        self.consumed as nat
    }

    /// At most [`EVENT_CAPACITY`] events, no two of which intersect, and no
    /// curve that ends before it starts.
    pub open spec fn wf(&self) -> bool {
        &&& self.spec_events().len() <= EVENT_CAPACITY
        &&& forall|i: int, j: int|
            0 <= i < self.spec_events().len() && 0 <= j < self.spec_events().len() && i != j
                ==> !#[trigger] self.spec_events()[i].spec_intersects(
                #[trigger] self.spec_events()[j],
            )
        &&& forall|i: int|
            0 <= i < self.spec_events().len() ==> (#[trigger] self.spec_events()[i]).spec_valid_range()
    }

    /// The value the timeline takes at `time`.
    pub open spec fn spec_value_at(&self, time: u64) -> T {
        let events = self.spec_events();
        match first_containing(events, time) {
            Some(i) => events[i].spec_get(time),
            None => match latest_elapsed(events, time, events.len() as int) {
                Some(i) => events[i].spec_end_value(),
                None => self.spec_value(),
            },
        }
    }

    /// A timeline with the given baseline value and no events.
    pub fn new(value: T) -> (r: Self)
        ensures
            r.wf(),
            r.spec_value() == value,
            r.spec_events().len() == 0,
            r.spec_consumed() == 0,
    {
        TimelineGeneric { value, events: Vec::new(), consumed: 0 }
    }

    /// Remove every scheduled event; the baseline and the count stay.
    pub fn clear(&mut self)
        requires
            old(self).wf(),
        ensures
            final(self).wf(),
            final(self).spec_events().len() == 0,
            final(self).spec_value() == old(self).spec_value(),
            final(self).spec_consumed() == old(self).spec_consumed(),
    {
        self.events.clear();
    }

    /// Whether a curve is in progress at `time`.
    pub fn is_active(&self, time: u64) -> (r: bool)
        ensures
            r == exists|i: int|
                0 <= i < self.spec_events().len() && (#[trigger] self.spec_events()[i]) is Curve
                    && self.spec_events()[i].spec_contains(time),
    {
        let mut i: usize = 0;
        while i < self.events.len()
            invariant
                i <= self.events@.len(),
                forall|j: int|
                    0 <= j < i ==> !((#[trigger] self.events@[j]) is Curve
                        && self.events@[j].spec_contains(time)),
            decreases self.events@.len() - i,
        {
            let e = &self.events[i];
            if e.contains(time) {
                if let TimelineEvent::Curve { .. } = e {
                    return true;
                }
            }
            i += 1;
        }
        false
    }

    /// Whether an event starts or ends within `[start, end)`.
    pub fn active_within(&self, start: u64, end: u64) -> (r: bool)
        ensures
            r == exists|i: int|
                0 <= i < self.spec_events().len() && ({
                    let e = #[trigger] self.spec_events()[i];
                    (e.spec_start_time() matches Some(t) && start <= t < end)
                        || (e.spec_end_time() matches Some(t) && start <= t < end)
                }),
    {
        let mut i: usize = 0;
        while i < self.events.len()
            invariant
                i <= self.events@.len(),
                forall|j: int|
                    0 <= j < i ==> !({
                        let e = #[trigger] self.events@[j];
                        (e.spec_start_time() matches Some(t) && start <= t < end)
                            || (e.spec_end_time() matches Some(t) && start <= t < end)
                    }),
            decreases self.events@.len() - i,
        {
            let e = &self.events[i];
            if let Some(t) = e.start_time() {
                if start <= t && t < end {
                    return true;
                }
            }
            if let Some(t) = e.end_time() {
                if start <= t && t < end {
                    return true;
                }
            }
            i += 1;
        }
        false
    }

    /// Whether `event` intersects a scheduled event.
    pub open spec fn spec_conflicts(&self, event: TimelineEvent<T, C>) -> bool {
        exists|i: int|
            0 <= i < self.spec_events().len() && #[trigger] self.spec_events()[i].spec_intersects(
                event,
            )
    }

    /// Push an event. An immediate event always succeeds: it clears the
    /// timeline and becomes the baseline. Any other event is refused when it
    /// is a curve that ends before it starts, or when its range intersects a
    /// scheduled event's range; otherwise it is appended, evicting the oldest
    /// event when the timeline is full.
    pub fn push(&mut self, event: TimelineEvent<T, C>) -> (r: Result<(), TimelineError>)
        requires
            old(self).wf(),
            old(self).spec_consumed() < u64::MAX,
        ensures
            final(self).wf(),
            match event {
                TimelineEvent::Immediate(v) => {
                    &&& r is Ok
                    &&& final(self).spec_events() == seq![event]
                    &&& final(self).spec_value() == v
                    &&& final(self).spec_consumed() == old(self).spec_consumed() + 1
                },
                _ => if !event.spec_valid_range() {
                    &&& r == Err::<(), TimelineError>(TimelineError::InvertedRange)
                    &&& *final(self) == *old(self)
                } else if old(self).spec_conflicts(event) {
                    &&& r == Err::<(), TimelineError>(TimelineError::OverlappingRanges)
                    &&& *final(self) == *old(self)
                } else {
                    &&& r is Ok
                    &&& final(self).spec_events() == appended(old(self).spec_events(), event)
                    &&& final(self).spec_value() == old(self).spec_value()
                    &&& final(self).spec_consumed() == old(self).spec_consumed() + 1
                },
            },
    {
        match event {
            TimelineEvent::Immediate(v) => {
                self.events.clear();
                self.value = v;
            },
            _ => {
                if !event.valid_range() {
                    return Err(TimelineError::InvertedRange);
                }
                let mut i: usize = 0;
                while i < self.events.len()
                    invariant
                        *self == *old(self),
                        old(self).wf(),
                        event.spec_valid_range(),
                        i <= self.events@.len(),
                        forall|j: int|
                            0 <= j < i ==> !(#[trigger] self.events@[j]).spec_intersects(event),
                    decreases self.events@.len() - i,
                {
                    if self.events[i].intersects(&event) {
                        assert(old(self).spec_events()[i as int].spec_intersects(event));
                        return Err(TimelineError::OverlappingRanges);
                    }
                    i += 1;
                }
                if self.events.len() >= EVENT_CAPACITY {
                    self.events.remove(0);
                }
            },
        }
        let ghost before = self.events@;
        self.events.push(event);
        self.consumed = self.consumed + 1;
        proof {
            if !(event is Immediate) {
                assert forall|i: int, j: int|
                    0 <= i < self.events@.len() && 0 <= j < self.events@.len() && i != j
                        implies !#[trigger] self.events@[i].spec_intersects(
                        #[trigger] self.events@[j],
                    ) by {
                    if i == self.events@.len() - 1 {
                        assert(self.events@[j] == before[j]);
                    } else if j == self.events@.len() - 1 {
                        assert(self.events@[i] == before[i]);
                    }
                }
            }
        }
        Ok(())
    }

    /// Set the value immediately, clearing every scheduled event.
    pub fn set(&mut self, value: T)
        requires
            old(self).wf(),
            old(self).spec_consumed() < u64::MAX,
        ensures
            final(self).wf(),
            final(self).spec_events() == seq![TimelineEvent::<T, C>::Immediate(value)],
            final(self).spec_value() == value,
            final(self).spec_consumed() == old(self).spec_consumed() + 1,
    {
        let _ = self.push(TimelineEvent::Immediate(value));
    }

    /// The value at `time`: the first event whose range contains `time`
    /// decides it; failing that, the end value of the latest event that has
    /// already ended; failing that, the baseline.
    pub fn value_at(&self, time: u64) -> (r: T)
        ensures
            r == self.spec_value_at(time),
    {
        let mut i: usize = 0;
        while i < self.events.len()
            invariant
                i <= self.events@.len(),
                forall|j: int| 0 <= j < i ==> !(#[trigger] self.events@[j]).spec_contains(time),
            decreases self.events@.len() - i,
        {
            if self.events[i].contains(time) {
                proof {
                    // no earlier event contains `time`, and this one does
                    assert(self.events@[i as int].spec_contains(time));
                    assert(first_containing(self.events@, time) == Some(i as int));
                }
                return self.events[i].get(time);
            }
            i += 1;
        }
        let mut best: Option<usize> = None;
        let mut j: usize = 0;
        while j < self.events.len()
            invariant
                j <= self.events@.len(),
                first_containing(self.events@, time) is None,
                match best {
                    Some(b) => latest_elapsed(self.events@, time, j as int) == Some(b as int) && b < j,
                    None => latest_elapsed(self.events@, time, j as int) is None,
                },
            decreases self.events@.len() - j,
        {
            if let Some(end) = self.events[j].end_time() {
                if end <= time {
                    match best {
                        None => {
                            best = Some(j);
                        },
                        Some(b) => {
                            let prev_end = self.events[b].end_time();
                            proof {
                                lemma_latest_elapsed(self.events@, time, j as int);
                            }
                            if let Some(pe) = prev_end {
                                if end > pe {
                                    best = Some(j);
                                }
                            }
                        },
                    }
                }
            }
            j += 1;
        }
        match best {
            Some(b) => self.events[b].end_value(),
            None => self.value,
        }
    }

    /// The baseline value, without regard to time.
    pub fn get(&self) -> (r: T)
        ensures
            r == self.spec_value(),
    {
        self.value
    }

    /// Make the value at `now` the new baseline.
    pub fn tick(&mut self, now: u64)
        requires
            old(self).wf(),
        ensures
            final(self).wf(),
            final(self).spec_value() == old(self).spec_value_at(now),
            final(self).spec_events() == old(self).spec_events(),
            final(self).spec_consumed() == old(self).spec_consumed(),
    {
        self.value = self.value_at(now);
    }

    /// How many events were pushed to `self` since `baseline` was taken,
    /// limited to the events that are still held.
    pub open spec fn spec_unseen(&self, baseline: &Self) -> nat {
        let newly = if self.spec_consumed() >= baseline.spec_consumed() {
            (self.spec_consumed() - baseline.spec_consumed()) as nat
        } else {
            0
        };
        if newly <= self.spec_events().len() {
            newly
        } else {
            self.spec_events().len()
        }
    }

    /// The events pushed since `baseline` was taken, oldest first. Events
    /// evicted before they were ever seen are not reported.
    pub fn diff(&self, baseline: &Self) -> (r: Vec<TimelineEvent<T, C>>)
        ensures
            r@ == self.spec_events().subrange(
                self.spec_events().len() - self.spec_unseen(baseline),
                self.spec_events().len() as int,
            ),
    {
        let newly = self.consumed.saturating_sub(baseline.consumed);
        let len = self.events.len();
        let count: usize = if newly <= len as u64 {
            newly as usize
        } else {
            len
        };
        let start = len - count;
        let mut out: Vec<TimelineEvent<T, C>> = Vec::new();
        let mut i = start;
        while i < len
            invariant
                start <= i <= len,
                len == self.events@.len(),
                out@ == self.events@.subrange(start as int, i as int),
            decreases len - i,
        {
            out.push(self.events[i]);
            i += 1;
        }
        out
    }

    /// Apply an event received from [`TimelineGeneric::diff`]; an event
    /// that [`TimelineGeneric::push`] refuses is dropped.
    pub fn apply(&mut self, patch: TimelineEvent<T, C>)
        requires
            old(self).wf(),
            old(self).spec_consumed() < u64::MAX,
        ensures
            final(self).wf(),
            patch is Immediate ==> final(self).spec_events() == seq![patch]
                && final(self).spec_value() == patch->Immediate_0,
            !(patch is Immediate) && (!patch.spec_valid_range() || old(self).spec_conflicts(patch))
                ==> *final(self) == *old(self),
            !(patch is Immediate) && patch.spec_valid_range() && !old(self).spec_conflicts(patch)
                ==> final(self).spec_events()
                == appended(old(self).spec_events(), patch) && final(self).spec_value() == old(
                self,
            ).spec_value(),
    {
        let _ = self.push(patch);
    }
}

impl Timeline {
    /// Schedule a straight-line move to `end_value` over `[start, end]`,
    /// starting from the value the timeline has at `start`.
    pub fn push_curve(&mut self, end_value: i64, start: u64, end: u64) -> (r: Result<(), TimelineError>)
        requires
            old(self).wf(),
            old(self).spec_consumed() < u64::MAX,
        ensures
            ({
                let event = TimelineEvent::<i64, Linear>::Curve {
                    curve: Linear,
                    from: old(self).spec_value_at(start),
                    to: end_value,
                    start,
                    end,
                };
                &&& final(self).wf()
                &&& end < start ==> r == Err::<(), TimelineError>(TimelineError::InvertedRange)
                    && *final(self) == *old(self)
                &&& start <= end && old(self).spec_conflicts(event) ==> r == Err::<(), TimelineError>(
                    TimelineError::OverlappingRanges,
                ) && *final(self) == *old(self)
                &&& start <= end && !old(self).spec_conflicts(event) ==> r is Ok && final(self).spec_events()
                    == appended(old(self).spec_events(), event) && final(self).spec_value()
                    == old(self).spec_value() && final(self).spec_consumed()
                    == old(self).spec_consumed() + 1
            }),
    {
        let from = self.value_at(start);
        self.push(TimelineEvent::Curve { curve: Linear, from, to: end_value, start, end })
    }
}

} // verus!

verus! {

/// Before every scheduled event has begun, a valid timeline takes its
/// baseline value.
pub proof fn lemma_value_before_events<T: Copy, C: TimelineCurve<T> + Copy>(
    timeline: &TimelineGeneric<T, C>,
    time: u64,
)
    requires
        timeline.wf(),
        forall|i: int|
            0 <= i < timeline.spec_events().len() && !(#[trigger] timeline.spec_events()[i]
                is Immediate) ==> time < timeline.spec_events()[i].spec_start_time()->0,
    ensures
        timeline.spec_value_at(time) == timeline.spec_value(),
{
    let events = timeline.spec_events();
    assert forall|i: int| 0 <= i < events.len() implies !#[trigger] events[i].spec_contains(
        time,
    ) by {
        assert(events[i].spec_valid_range());
    }
    lemma_latest_elapsed(events, time, events.len() as int);
    if let Some(k) = latest_elapsed(events, time, events.len() as int) {
        assert(events[k].spec_valid_range());
        assert(!(events[k] is Immediate));
    }
}

/// After an immediate event, which leaves itself as the only event and its
/// value as the baseline, the timeline has that value at every time.
pub proof fn lemma_immediate_holds_everywhere<T: Copy, C: TimelineCurve<T> + Copy>(
    timeline: &TimelineGeneric<T, C>,
    time: u64,
)
    requires
        timeline.spec_events() == seq![TimelineEvent::<T, C>::Immediate(timeline.spec_value())],
    ensures
        timeline.spec_value_at(time) == timeline.spec_value(),
{
    let events = timeline.spec_events();
    assert(!events[0].spec_contains(time));
    assert(first_containing(events, time) is None);
    lemma_latest_elapsed(events, time, 1);
}

/// A refused push leaves the value of the timeline unchanged at every time.
pub proof fn lemma_refused_push_keeps_values<T: Copy, C: TimelineCurve<T> + Copy>(
    before: &TimelineGeneric<T, C>,
    after: &TimelineGeneric<T, C>,
    event: TimelineEvent<T, C>,
    time: u64,
)
    requires
        !(event is Immediate),
        !event.spec_valid_range() || before.spec_conflicts(event),
        *after == *before,
    ensures
        after.spec_value_at(time) == before.spec_value_at(time),
        after.spec_events() == before.spec_events(),
        after.spec_consumed() == before.spec_consumed(),
{
}

/// At the end instant of a curve, a timeline takes the curve's end value,
/// provided no earlier-scheduled event also covers that instant.
pub proof fn lemma_value_at_curve_end<T: Copy, C: TimelineCurve<T> + Copy>(
    timeline: &TimelineGeneric<T, C>,
    k: int,
)
    requires
        0 <= k < timeline.spec_events().len(),
        timeline.spec_events()[k] is Curve,
        timeline.spec_events()[k]->Curve_start <= timeline.spec_events()[k]->Curve_end,
        forall|j: int|
            0 <= j < k ==> !#[trigger] timeline.spec_events()[j].spec_contains(
                timeline.spec_events()[k]->Curve_end,
            ),
    ensures
        ({
            let e = timeline.spec_events()[k];
            timeline.spec_value_at(e->Curve_end) == e.spec_end_value()
        }),
{
    let events = timeline.spec_events();
    let time = events[k]->Curve_end;
    // no earlier event contains the end instant, and the curve does
    assert(events[k].spec_contains(time));
    assert(first_containing(events, time) == Some(k));
}

/// Once every scheduled event has ended, a timeline takes the end value of
/// an event that ended last, not its baseline.
pub proof fn lemma_value_after_events<T: Copy, C: TimelineCurve<T> + Copy>(
    timeline: &TimelineGeneric<T, C>,
    time: u64,
)
    requires
        exists|i: int|
            0 <= i < timeline.spec_events().len() && !(#[trigger] timeline.spec_events()[i]
                is Immediate),
        forall|i: int|
            0 <= i < timeline.spec_events().len() && !(#[trigger] timeline.spec_events()[i]
                is Immediate) ==> timeline.spec_events()[i].spec_end_time()->0 < time,
    ensures
        exists|k: int|
            0 <= k < timeline.spec_events().len() && !(#[trigger] timeline.spec_events()[k]
                is Immediate) && timeline.spec_value_at(time)
                == timeline.spec_events()[k].spec_end_value() && forall|j: int|
                0 <= j < timeline.spec_events().len() && !(#[trigger] timeline.spec_events()[j]
                    is Immediate) ==> timeline.spec_events()[j].spec_end_time()->0
                    <= timeline.spec_events()[k].spec_end_time()->0,
{
    let events = timeline.spec_events();
    assert forall|i: int| 0 <= i < events.len() implies !#[trigger] events[i].spec_contains(
        time,
    ) by {
        if !(events[i] is Immediate) {
            assert(events[i].spec_end_time()->0 < time);
        }
    }
    assert(first_containing(events, time) is None);
    lemma_latest_elapsed(events, time, events.len() as int);
    let w = choose|i: int| 0 <= i < events.len() && !(#[trigger] events[i] is Immediate);
    assert(events[w].spec_end_time() is Some && events[w].spec_end_time()->0 <= time);
    let k = latest_elapsed(events, time, events.len() as int)->0;
    assert forall|j: int|
        0 <= j < events.len() && !(#[trigger] events[j] is Immediate) implies events[j].spec_end_time()->0
        <= events[k].spec_end_time()->0 by {
        assert(events[j].spec_end_time() is Some);
    }
    assert(!(events[k] is Immediate));
}

} // verus!
