//! AHDSR (attack, hold, decay, sustain, release) envelope state machine.
use vstd::prelude::*;

verus! {

/// How an envelope responds to a trigger-on edge when it is not at rest.
#[derive(Copy, Clone, PartialEq, Eq, Hash, Debug, Structural)]
pub enum RetriggerMode {
    /// Restart the cycle from attack, starting from the current level.
    Normal,
    /// Restart the cycle from the resting level.
    Restart,
    /// Ignore trigger-on edges unless the envelope is at rest.
    Ignore,
}

/// How an envelope reacts to trigger-off edges.
#[derive(Copy, Clone, PartialEq, Eq, Hash, Debug, Structural)]
pub enum TriggerMode {
    /// Hold at sustain until a trigger-off edge arrives, then release.
    Normal,
    /// Ignore trigger-off edges and run through the whole cycle.
    Once,
}

/// Whether the envelope is triggered.
#[derive(Copy, Clone, PartialEq, Eq, Hash, Debug, Structural)]
pub enum TriggerState {
    /// The envelope is triggered.
    On,
    /// The envelope is returning to rest.
    Off,
}

/// The phase an active envelope is in.
#[derive(Copy, Clone, PartialEq, Eq, Debug, Structural)]
pub enum AhdsrState {
    Attack,
    /// The number of samples the peak has been held for.
    Hold(u64),
    Decay,
    Sustain,
    Release,
}

impl TriggerMode {
    /// The phase entered on a trigger-off edge.
    pub open spec fn spec_off_transition(self, state: AhdsrState) -> AhdsrState {
        match self {
            TriggerMode::Normal => AhdsrState::Release,
            TriggerMode::Once => state,
        }
    }

    /// The phase entered on a trigger-off edge from `state`.
    pub fn state_transition(&self, state: AhdsrState) -> (r: AhdsrState)
        ensures
            r == self.spec_off_transition(state),
    {
        match self {
            TriggerMode::Normal => AhdsrState::Release,
            TriggerMode::Once => state,
        }
    }

    /// The phase entered once decay reaches the sustain level.
    pub open spec fn spec_sustain_state(self) -> AhdsrState {
        match self {
            TriggerMode::Normal => AhdsrState::Sustain,
            TriggerMode::Once => AhdsrState::Release,
        }
    }

    /// The phase entered once decay reaches the sustain level.
    pub fn sustain_state(&self) -> (r: AhdsrState)
        ensures
            r == self.spec_sustain_state(),
    {
        match self {
            TriggerMode::Normal => AhdsrState::Sustain,
            TriggerMode::Once => AhdsrState::Release,
        }
    }
}

impl RetriggerMode {
    /// The level and phase after a trigger-on edge, given the current level
    /// and phase.
    pub open spec fn spec_on_transition(self, level: u64, state: Option<AhdsrState>) -> (u64, AhdsrState) {
        match self {
            RetriggerMode::Ignore => (level, match state {
                Some(s) => s,
                None => AhdsrState::Attack,
            }),
            RetriggerMode::Normal => (level, AhdsrState::Attack),
            RetriggerMode::Restart => (0, AhdsrState::Attack),
        }
    }

    /// The level and phase after a trigger-on edge.
    pub fn state_transition(&self, level: u64, state: Option<AhdsrState>) -> (r: (u64, AhdsrState))
        ensures
            r == self.spec_on_transition(level, state),
    {
        match self {
            RetriggerMode::Ignore => (level, match state {
                Some(s) => s,
                None => AhdsrState::Attack,
            }),
            RetriggerMode::Normal => (level, AhdsrState::Attack),
            RetriggerMode::Restart => (0, AhdsrState::Attack),
        }
    }
}

/// Full level: envelope levels run from 0 (low) to this (high).
pub const LEVEL_ONE: u64 = 1_000_000;

/// The attack phase aims slightly above full level so that its
/// asymptotic approach reaches full level.
pub const ATTACK_TARGET: u64 = 1_001_000;

/// A rate coefficient of this value completes a phase in one sample.
pub const COEFF_ONE: u64 = 1_000_000;

/// Envelope settings. Each rate is the fraction (in millionths) of the
/// remaining distance covered per sample; [`COEFF_ONE`] completes the phase
/// at once, as a zero-length phase does.
#[derive(Debug, Clone, Copy, PartialEq, Eq, Structural)]
pub struct AhdsrConfig {
    pub attack_rate: u64,
    /// How many samples the peak is held for.
    pub hold_samples: u64,
    pub decay_rate: u64,
    /// The level decayed to, at most [`LEVEL_ONE`].
    pub sustain: u64,
    pub release_rate: u64,
    pub trigger_mode: TriggerMode,
    pub retrigger_mode: RetriggerMode,
}

impl AhdsrConfig {
    pub open spec fn wf(self) -> bool {
        &&& self.attack_rate <= COEFF_ONE
        &&& self.decay_rate <= COEFF_ONE
        &&& self.release_rate <= COEFF_ONE
        &&& self.sustain <= LEVEL_ONE
    }
}

/// One step of an exponential approach: `rate` millionths of `distance`,
/// but at least one unit so that the approach always arrives.
pub open spec fn approach_step(rate: u64, distance: u64) -> u64 {
    let d = (rate as int * distance as int / (COEFF_ONE as int)) as u64;
    if d == 0 {
        1
    } else {
        d
    }
}

pub(crate) fn approach(rate: u64, distance: u64) -> (r: u64)
    requires
        rate <= COEFF_ONE,
        distance <= ATTACK_TARGET,
    ensures
        r == approach_step(rate, distance),
        1 <= r,
        r <= distance || r == 1,
{
    proof {
        assert(rate as int * distance as int <= COEFF_ONE as int * distance as int) by (nonlinear_arith)
            requires rate <= COEFF_ONE;
        assert(rate as int * distance as int / (COEFF_ONE as int) <= distance) by (nonlinear_arith)
            requires rate as int * distance as int <= COEFF_ONE as int * distance as int;
    }
    let d = rate * distance / COEFF_ONE;
    if d == 0 {
        1
    } else {
        d
    }
}

/// An AHDSR envelope: its settings, its phase (`None` at rest) and its level.
#[derive(Debug, Clone, Copy, PartialEq, Eq, Structural)]
pub struct AhdsrEnvelope {
    pub config: AhdsrConfig,
    pub state: Option<AhdsrState>,
    pub level: u64,
}

impl AhdsrEnvelope {
    pub open spec fn wf(self) -> bool {
        self.config.wf() && self.level <= LEVEL_ONE
    }

    /// The envelope after one sample.
    pub open spec fn spec_step(self) -> AhdsrEnvelope {
        let c = self.config;
        match self.state {
            Some(AhdsrState::Attack) => {
                let next = self.level + approach_step(c.attack_rate, (ATTACK_TARGET - self.level) as u64);
                if next >= LEVEL_ONE {
                    AhdsrEnvelope { level: LEVEL_ONE, state: Some(AhdsrState::Hold(0)), ..self }
                } else {
                    AhdsrEnvelope { level: next as u64, ..self }
                }
            },
            Some(AhdsrState::Hold(n)) => if n >= c.hold_samples {
                AhdsrEnvelope { state: Some(AhdsrState::Decay), ..self }
            } else {
                AhdsrEnvelope { state: Some(AhdsrState::Hold((n + 1) as u64)), ..self }
            },
            Some(AhdsrState::Decay) => {
                let dist = self.level - c.sustain;
                if dist <= 0 || dist <= approach_step(c.decay_rate, dist as u64) {
                    AhdsrEnvelope {
                        level: c.sustain,
                        state: Some(c.trigger_mode.spec_sustain_state()),
                        ..self
                    }
                } else {
                    AhdsrEnvelope {
                        level: (self.level - approach_step(c.decay_rate, dist as u64)) as u64,
                        ..self
                    }
                }
            },
            Some(AhdsrState::Release) => if self.level <= approach_step(c.release_rate, self.level) {
                AhdsrEnvelope { level: 0, state: None, ..self }
            } else {
                AhdsrEnvelope {
                    level: (self.level - approach_step(c.release_rate, self.level)) as u64,
                    ..self
                }
            },
            Some(AhdsrState::Sustain) | None => self,
        }
    }

    /// The envelope after a trigger edge.
    pub open spec fn spec_transition(self, trigger: TriggerState) -> AhdsrEnvelope {
        match trigger {
            TriggerState::On => {
                let (level, state) = self.config.retrigger_mode.spec_on_transition(
                    self.level,
                    self.state,
                );
                AhdsrEnvelope { level, state: Some(state), ..self }
            },
            TriggerState::Off => match self.state {
                Some(s) => AhdsrEnvelope {
                    state: Some(self.config.trigger_mode.spec_off_transition(s)),
                    ..self
                },
                None => self,
            },
        }
    }

    /// A resting envelope at level 0.
    pub fn new(config: AhdsrConfig) -> (r: AhdsrEnvelope)
        requires
            config.wf(),
        ensures
            r.wf(),
            r == (AhdsrEnvelope { config, state: None, level: 0 }),
    {
        AhdsrEnvelope { config, state: None, level: 0 }
    }

    /// Change the settings of a running envelope; its phase and level stay,
    /// and the next samples follow the new settings.
    pub fn set_config(&mut self, config: AhdsrConfig)
        requires
            old(self).wf(),
            config.wf(),
        ensures
            final(self).wf(),
            *final(self) == (AhdsrEnvelope { config, ..*old(self) }),
    {
        self.config = config;
    }

    /// Advance one sample and return the new level.
    pub fn tick(&mut self) -> (level: u64)
        requires
            old(self).wf(),
        ensures
            *final(self) == old(self).spec_step(),
            final(self).wf(),
            level == final(self).level,
    {
        let c = self.config;
        match self.state {
            Some(AhdsrState::Attack) => {
                let next = self.level + approach(c.attack_rate, ATTACK_TARGET - self.level);
                if next >= LEVEL_ONE {
                    self.level = LEVEL_ONE;
                    self.state = Some(AhdsrState::Hold(0));
                } else {
                    self.level = next;
                }
            },
            Some(AhdsrState::Hold(n)) => {
                if n >= c.hold_samples {
                    self.state = Some(AhdsrState::Decay);
                } else {
                    self.state = Some(AhdsrState::Hold(n + 1));
                }
            },
            Some(AhdsrState::Decay) => {
                if self.level <= c.sustain {
                    self.level = c.sustain;
                    self.state = Some(c.trigger_mode.sustain_state());
                } else {
                    let dist = self.level - c.sustain;
                    let step = approach(c.decay_rate, dist);
                    if dist <= step {
                        self.level = c.sustain;
                        self.state = Some(c.trigger_mode.sustain_state());
                    } else {
                        self.level = self.level - step;
                    }
                }
            },
            Some(AhdsrState::Release) => {
                let step = approach(c.release_rate, self.level);
                if self.level <= step {
                    self.level = 0;
                    self.state = None;
                } else {
                    self.level = self.level - step;
                }
            },
            Some(AhdsrState::Sustain) | None => {},
        }
        self.level
    }

    /// React to a trigger edge: on starts (or restarts) the cycle as the
    /// retrigger mode says; off moves as the trigger mode says.
    pub fn transition(&mut self, trigger: TriggerState)
        requires
            old(self).wf(),
        ensures
            *final(self) == old(self).spec_transition(trigger),
            final(self).wf(),
    {
        match trigger {
            TriggerState::On => {
                let (level, state) = self.config.retrigger_mode.state_transition(
                    self.level,
                    self.state,
                );
                self.level = level;
                self.state = Some(state);
            },
            TriggerState::Off => {
                if let Some(s) = self.state {
                    self.state = Some(self.config.trigger_mode.state_transition(s));
                }
            },
        }
    }

    /// The envelope after `n` samples, and the level after each of them.
    pub open spec fn spec_run(self, n: nat) -> (AhdsrEnvelope, Seq<u64>)
        decreases n,
    {
        if n == 0 {
            (self, seq![])
        } else {
            let (e, levels) = self.spec_run((n - 1) as nat);
            let next = e.spec_step();
            (next, levels.push(next.level))
        }
    }

    /// The envelope after rendering samples `cur..frames` of a block, with
    /// each trigger edge applied at its sample offset (clamped into the part
    /// of the block not yet rendered), and the level after each sample.
    pub open spec fn spec_render(
        self,
        cur: nat,
        frames: nat,
        events: Seq<(usize, TriggerState)>,
    ) -> (AhdsrEnvelope, Seq<u64>)
        decreases events.len(),
    {
        if events.len() == 0 {
            self.spec_run((frames - cur) as nat)
        } else {
            let off = if events[0].0 < cur {
                cur
            } else if events[0].0 > frames {
                frames
            } else {
                events[0].0 as nat
            };
            let (e, levels) = self.spec_run((off - cur) as nat);
            let (e2, rest) = e.spec_transition(events[0].1).spec_render(off, frames, events.drop_first());
            (e2, levels + rest)
        }
    }

    /// Render `n` samples, appending the level after each to `out`.
    pub fn run(&mut self, n: usize, out: &mut Vec<u64>)
        requires
            old(self).wf(),
        ensures
            final(self).wf(),
            *final(self) == old(self).spec_run(n as nat).0,
            final(out)@ == old(out)@ + old(self).spec_run(n as nat).1,
    {
        let ghost start = *self;
        let mut k: usize = 0;
        while k < n
            invariant
                k <= n,
                self.wf(),
                *self == start.spec_run(k as nat).0,
                out@ == old(out)@ + start.spec_run(k as nat).1,
            decreases n - k,
        {
            let level = self.tick();
            let ghost before = out@;
            out.push(level);
            k += 1;
            proof {
                let (e, ls) = start.spec_run((k - 1) as nat);
                assert(start.spec_run(k as nat).1 == ls.push(e.spec_step().level));
                assert(out@ =~= old(out)@ + start.spec_run(k as nat).1);
            }
        }
    }

    /// Render a block of `frames` samples, applying each trigger edge at its
    /// sample offset so that a change takes effect on the exact sample. The
    /// result holds the level after each sample.
    pub fn process(&mut self, frames: usize, events: &Vec<(usize, TriggerState)>) -> (levels: Vec<u64>)
        requires
            old(self).wf(),
        ensures
            final(self).wf(),
            (*final(self), levels@) == old(self).spec_render(0, frames as nat, events@),
    {
        let mut out: Vec<u64> = Vec::new();
        let mut cur: usize = 0;
        let mut i: usize = 0;
        proof {
            assert(events@.subrange(0, events@.len() as int) =~= events@);
            let rest = self.spec_render(0, frames as nat, events@).1;
            assert(out@ + rest =~= rest);
        }
        while i < events.len()
            invariant
                i <= events@.len(),
                cur <= frames,
                self.wf(),
                old(self).spec_render(0, frames as nat, events@) == ({
                    let (e, rest) = self.spec_render(
                        cur as nat,
                        frames as nat,
                        events@.subrange(i as int, events@.len() as int),
                    );
                    (e, out@ + rest)
                }),
            decreases events@.len() - i,
        {
            let (offset, trigger) = events[i];
            let off = if offset < cur {
                cur
            } else if offset > frames {
                frames
            } else {
                offset
            };
            let ghost e0 = *self;
            let ghost out0 = out@;
            let ghost tail = events@.subrange(i as int, events@.len() as int);
            self.run(off - cur, &mut out);
            self.transition(trigger);
            proof {
                assert(tail[0] == events@[i as int]);
                assert(tail.drop_first() =~= events@.subrange(i + 1, events@.len() as int));
                let (e, levels) = e0.spec_run((off - cur) as nat);
                let (e2, rest) = e.spec_transition(trigger).spec_render(
                    off as nat,
                    frames as nat,
                    tail.drop_first(),
                );
                assert(e0.spec_render(cur as nat, frames as nat, tail) == (e2, levels + rest));
                assert(out0 + (levels + rest) =~= (out0 + levels) + rest);
            }
            cur = off;
            i += 1;
        }
        let ghost e0 = *self;
        let ghost out0 = out@;
        self.run(frames - cur, &mut out);
        proof {
            assert(events@.subrange(i as int, events@.len() as int).len() == 0);
        }
        out
    }
}

} // verus!

verus! {

/// An envelope in its sustain phase stays there, at its level, for as long
/// as no trigger edge arrives.
pub proof fn lemma_sustain_holds(env: AhdsrEnvelope, n: nat)
    requires
        env.state == Some(AhdsrState::Sustain),
    ensures
        env.spec_run(n).0 == env,
        env.spec_run(n).1 == Seq::new(n, |i: int| env.level),
    decreases n,
{
    if n > 0 {
        lemma_sustain_holds(env, (n - 1) as nat);
        assert(env.spec_run(n).1 =~= Seq::new(n, |i: int| env.level));
    }
}

/// An envelope with instant attack, no hold, instant decay and full
/// sustain, triggered from rest, is at full level from the first sample on
/// and, from the third sample on, sustains there (it holds after the first
/// sample and decays, without moving, during the second).
pub proof fn lemma_instant_envelope(env: AhdsrEnvelope, n: nat)
    requires
        env.wf(),
        env.state is None,
        env.config.attack_rate == COEFF_ONE,
        env.config.hold_samples == 0,
        env.config.decay_rate == COEFF_ONE,
        env.config.sustain == LEVEL_ONE,
        env.config.trigger_mode == TriggerMode::Normal,
    ensures
        ({
            let (e, levels) = env.spec_transition(TriggerState::On).spec_run(n);
            &&& levels == Seq::new(n, |i: int| LEVEL_ONE)
            &&& e.config == env.config
            &&& n == 1 ==> e.state == Some(AhdsrState::Hold(0)) && e.level == LEVEL_ONE
            &&& n == 2 ==> e.state == Some(AhdsrState::Decay) && e.level == LEVEL_ONE
            &&& n >= 3 ==> e.state == Some(AhdsrState::Sustain) && e.level == LEVEL_ONE
        }),
    decreases n,
{
    let on = env.spec_transition(TriggerState::On);
    assert(on.state == Some(AhdsrState::Attack));
    if n == 0 {
        assert(on.spec_run(0).1 =~= Seq::new(0, |i: int| LEVEL_ONE));
    } else {
        lemma_instant_envelope(env, (n - 1) as nat);
        let prev = on.spec_run((n - 1) as nat);
        let next = prev.0.spec_step();
        assert(on.spec_run(n) == (next, prev.1.push(next.level)));
        if n == 1 {
            assert(prev.0 == on);
            let d = (ATTACK_TARGET - on.level) as u64;
            assert(COEFF_ONE as int * d as int / (COEFF_ONE as int) == d as int) by (nonlinear_arith);
            assert(approach_step(COEFF_ONE, d) == d);
            assert(next.level == LEVEL_ONE);
        } else if n == 2 {
            assert(prev.0.state == Some(AhdsrState::Hold(0)));
            assert(prev.0.level == LEVEL_ONE);
        } else if n == 3 {
            assert(prev.0.state == Some(AhdsrState::Decay));
            assert(prev.0.level == LEVEL_ONE);
            assert(prev.0.config == env.config);
        } else {
            assert(prev.0.state == Some(AhdsrState::Sustain));
        }
        assert(next.level == LEVEL_ONE);
        assert(prev.1 == Seq::new((n - 1) as nat, |i: int| LEVEL_ONE));
        assert(on.spec_run(n).1 =~= Seq::new(n, |i: int| LEVEL_ONE));
    }
}

} // verus!
