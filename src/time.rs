//! The audio clock as seen from the control side.
use vstd::prelude::*;

verus! {

/// The audio context's time (in clock ticks) as of the last control tick,
/// and how far it advanced during that tick.
#[derive(Debug, Clone, Copy, PartialEq, Eq, Structural)]
pub struct Audio {
    instant: u64,
    delta: u64,
}

impl Audio {
    pub closed spec fn spec_instant(&self) -> u64 {
        self.instant
    }

    pub closed spec fn spec_delta(&self) -> u64 {
        self.delta
    }

    /// A clock at time zero.
    pub fn new() -> (r: Audio)
        ensures
            r.spec_instant() == 0,
            r.spec_delta() == 0,
    {
        Audio { instant: 0, delta: 0 }
    }

    /// The audio context's time as of the last control tick.
    pub fn instant(&self) -> (r: u64)
        ensures
            r == self.spec_instant(),
    {
        self.instant
    }

    /// Take the audio context's reported time. The clock advances by the
    /// difference, or not at all if the report is older.
    pub fn update(&mut self, now: u64) -> (delta: u64)
        ensures
            delta == (if now >= old(self).spec_instant() {
                now - old(self).spec_instant()
            } else {
                0
            }),
            final(self).spec_delta() == delta,
            final(self).spec_instant() == now,
    {
        let delta = now.saturating_sub(self.instant);
        self.instant = now;
        self.delta = delta;
        delta
    }

    /// The instant `duration` ticks from now (saturating).
    pub fn delay(&self, duration: u64) -> (r: u64)
        ensures
            r == (if self.spec_instant() + duration > u64::MAX {
                u64::MAX as int
            } else {
                self.spec_instant() + duration
            }),
    {
        self.instant.saturating_add(duration)
    }

    /// The range of audio time that elapsed during the last control tick.
    pub fn render_range(&self) -> (r: (u64, u64))
        ensures
            r.1 == self.spec_instant(),
            r.0 == (if self.spec_delta() > self.spec_instant() {
                0
            } else {
                self.spec_instant() - self.spec_delta()
            }),
    {
        (self.instant.saturating_sub(self.delta), self.instant)
    }
}

} // verus!
