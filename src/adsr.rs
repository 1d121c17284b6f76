//! A trigger-driven ADSR (attack, decay, sustain, release) envelope with
//! exponential approach, in fixed point.
use vstd::prelude::*;
use crate::envelopes::{approach, approach_step, ATTACK_TARGET, COEFF_ONE, LEVEL_ONE};

verus! {

/// The release phase aims this far below zero so that its asymptotic
/// approach reaches zero.
pub const RELEASE_UNDERSHOOT: u64 = 1_000;

/// The stage of an [`AdsrProcessor`].
#[derive(Debug, Clone, Copy, PartialEq, Eq, Structural)]
pub enum AdsrStage {
    Idle,
    Attack,
    Decay,
    Release,
}

/// An ADSR envelope driven by a trigger input: a rising edge starts the attack, a
/// falling edge the release. Rates are millionths of the remaining distance
/// per sample ([`COEFF_ONE`] is instant); levels run up to [`LEVEL_ONE`].
#[derive(Debug, Clone, Copy)]
pub struct AdsrProcessor {
    /// The trigger input now and one sample earlier.
    pub trigger: (bool, bool),
    pub stage: AdsrStage,
    pub level: u64,
    pub attack_rate: u64,
    pub decay_rate: u64,
    /// The level the decay approaches, at most [`LEVEL_ONE`].
    pub sustain: u64,
    pub release_rate: u64,
}

impl AdsrProcessor {
    pub open spec fn wf(self) -> bool {
        &&& self.attack_rate <= COEFF_ONE
        &&& self.decay_rate <= COEFF_ONE
        &&& self.release_rate <= COEFF_ONE
        &&& self.sustain <= LEVEL_ONE
        &&& self.level <= LEVEL_ONE
    }

    /// The stage after seeing trigger input `on`: a rising edge attacks, a falling edge
    /// releases, otherwise the stage stays.
    pub open spec fn spec_edge(self, on: bool) -> AdsrStage {
        if on && !self.trigger.0 {
            AdsrStage::Attack
        } else if !on && self.trigger.0 {
            AdsrStage::Release
        } else {
            self.stage
        }
    }

    /// The processor after one sample with trigger input `on`, and the sample's output.
    pub open spec fn spec_process(self, on: bool) -> (AdsrProcessor, u64) {
        let s = AdsrProcessor { trigger: (on, self.trigger.0), stage: self.spec_edge(on), ..self };
        match s.stage {
            AdsrStage::Idle => (s, 0),
            AdsrStage::Attack => {
                let next = s.level + approach_step(s.attack_rate, (ATTACK_TARGET - s.level) as u64);
                if next >= LEVEL_ONE {
                    (AdsrProcessor { level: LEVEL_ONE, stage: AdsrStage::Decay, ..s }, LEVEL_ONE)
                } else {
                    (AdsrProcessor { level: next as u64, ..s }, next as u64)
                }
            },
            AdsrStage::Decay => {
                let level = if s.level > s.sustain {
                    let step = approach_step(s.decay_rate, (s.level - s.sustain) as u64);
                    if s.level - s.sustain <= step {
                        s.sustain
                    } else {
                        (s.level - step) as u64
                    }
                } else {
                    let step = approach_step(s.decay_rate, (s.sustain - s.level) as u64);
                    if s.sustain - s.level <= step {
                        s.sustain
                    } else {
                        (s.level + step) as u64
                    }
                };
                (AdsrProcessor { level, ..s }, level)
            },
            AdsrStage::Release => {
                let step = approach_step(s.release_rate, (s.level + RELEASE_UNDERSHOOT) as u64);
                if s.level <= step {
                    (AdsrProcessor { level: 0, stage: AdsrStage::Idle, ..s }, 0)
                } else {
                    (AdsrProcessor { level: (s.level - step) as u64, ..s }, (s.level - step) as u64)
                }
            },
        }
    }

    /// An idle envelope at level 0 with its on closed.
    pub fn new(attack_rate: u64, decay_rate: u64, sustain: u64, release_rate: u64) -> (r: AdsrProcessor)
        requires
            attack_rate <= COEFF_ONE,
            decay_rate <= COEFF_ONE,
            release_rate <= COEFF_ONE,
            sustain <= LEVEL_ONE,
        ensures
            r.wf(),
            r == (AdsrProcessor {
                trigger: (false, false),
                stage: AdsrStage::Idle,
                level: 0,
                attack_rate,
                decay_rate,
                sustain,
                release_rate,
            }),
    {
        AdsrProcessor {
            trigger: (false, false),
            stage: AdsrStage::Idle,
            level: 0,
            attack_rate,
            decay_rate,
            sustain,
            release_rate,
        }
    }

    /// Replace the three rates, leaving the state alone.
    pub fn update_constants(&mut self, attack_rate: u64, decay_rate: u64, release_rate: u64)
        requires
            old(self).wf(),
            attack_rate <= COEFF_ONE,
            decay_rate <= COEFF_ONE,
            release_rate <= COEFF_ONE,
        ensures
            final(self).wf(),
            *final(self) == (AdsrProcessor { attack_rate, decay_rate, release_rate, ..*old(self) }),
    {
        self.attack_rate = attack_rate;
        self.decay_rate = decay_rate;
        self.release_rate = release_rate;
    }

    /// Advance one sample with the trigger input at `on` and return its output.
    pub fn process(&mut self, on: bool) -> (r: u64)
        requires
            old(self).wf(),
        ensures
            final(self).wf(),
            (*final(self), r) == old(self).spec_process(on),
    {
        let rising = on && !self.trigger.0;
        let falling = !on && self.trigger.0;
        self.trigger = (on, self.trigger.0);
        if rising {
            self.stage = AdsrStage::Attack;
        } else if falling {
            self.stage = AdsrStage::Release;
        }
        match self.stage {
            AdsrStage::Idle => 0,
            AdsrStage::Attack => {
                let next = self.level + approach(self.attack_rate, ATTACK_TARGET - self.level);
                if next >= LEVEL_ONE {
                    self.level = LEVEL_ONE;
                    self.stage = AdsrStage::Decay;
                } else {
                    self.level = next;
                }
                self.level
            },
            AdsrStage::Decay => {
                if self.level > self.sustain {
                    let dist = self.level - self.sustain;
                    let step = approach(self.decay_rate, dist);
                    self.level = if dist <= step {
                        self.sustain
                    } else {
                        self.level - step
                    };
                } else {
                    let dist = self.sustain - self.level;
                    let step = approach(self.decay_rate, dist);
                    self.level = if dist <= step {
                        self.sustain
                    } else {
                        self.level + step
                    };
                }
                self.level
            },
            AdsrStage::Release => {
                let step = approach(self.release_rate, self.level + RELEASE_UNDERSHOOT);
                if self.level <= step {
                    self.level = 0;
                    self.stage = AdsrStage::Idle;
                } else {
                    self.level = self.level - step;
                }
                self.level
            },
        }
    }
}

} // verus!
