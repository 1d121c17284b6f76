//! Sample players, their playback settings and random pitch.
use vstd::prelude::*;
use rand::rngs::SmallRng;
use crate::events::{Volume, LINEAR_UNITY};
use crate::pool::{SamplePriority, SampleRequest};

verus! {

#[verifier::external_type_specification]
#[verifier::external_body]
pub struct ExSmallRng(SmallRng);

/// Relies on rand's `Rng::gen_range` (rand 0.8): a value drawn from
/// `[low, high)`; it panics on an empty range.
#[verifier::external_body]
fn draw_in_range(rng: &mut SmallRng, low: u64, high: u64) -> (r: u64)
    requires
        low < high,
    ensures
        low <= r < high,
{
    rand::Rng::gen_range(rng, low..high)
}

/// Whether a sample plays once or loops.
#[derive(Debug, Clone, Copy, PartialEq, Eq, Structural)]
pub enum RepeatMode {
    PlayOnce,
    RepeatEndlessly,
}

/// A request to play a sample, identified by its asset number.
#[derive(Debug, Clone, Copy, PartialEq, Eq, Structural)]
pub struct SamplePlayer {
    /// The sample to play.
    pub sample: u64,
    /// Set once, at the start of playback.
    pub repeat_mode: RepeatMode,
    /// Set once, at the start of playback.
    pub volume: Volume,
}

impl SamplePlayer {
    /// Play `sample` once at unity gain.
    pub fn new(sample: u64) -> (r: SamplePlayer)
        ensures
            r == (SamplePlayer {
                sample,
                repeat_mode: RepeatMode::PlayOnce,
                volume: Volume::Linear(LINEAR_UNITY),
            }),
    {
        SamplePlayer { sample, repeat_mode: RepeatMode::PlayOnce, volume: Volume::Linear(LINEAR_UNITY) }
    }

    /// The same player, looping.
    pub fn looping(self) -> (r: SamplePlayer)
        ensures
            r == (SamplePlayer { repeat_mode: RepeatMode::RepeatEndlessly, ..self }),
    {
        SamplePlayer { repeat_mode: RepeatMode::RepeatEndlessly, ..self }
    }

    /// The same player at `volume`.
    pub fn with_volume(self, volume: Volume) -> (r: SamplePlayer)
        ensures
            r == (SamplePlayer { volume, ..self }),
    {
        SamplePlayer { volume, ..self }
    }

    /// The queue entry of this player at `priority`.
    pub fn request(&self, priority: SamplePriority) -> (r: SampleRequest)
        ensures
            r == (SampleRequest { priority, looping: self.repeat_mode != RepeatMode::PlayOnce }),
    {
        SampleRequest {
            priority,
            looping: match self.repeat_mode {
                RepeatMode::PlayOnce => false,
                RepeatMode::RepeatEndlessly => true,
            },
        }
    }
}

/// Marks a player that waits for its asset and a voice.
#[derive(Debug, Clone, Copy, PartialEq, Eq, Structural)]
pub struct QueuedSample;

/// What happens when a sample completes playback (looping samples complete
/// only when stopped).
#[derive(Debug, Clone, Copy, PartialEq, Eq, Structural)]
pub enum OnComplete {
    /// Keep the entity and its components.
    Preserve,
    /// Remove the player and its related components.
    Remove,
    /// Despawn the player's entity.
    Despawn,
}

/// The playback state requested of a voice.
#[derive(Debug, Clone, Copy, PartialEq, Eq, Structural)]
pub enum PlaybackState {
    /// Play, from the given frame if any.
    Play { playhead: Option<u64> },
    Pause,
    /// Stop and return the playhead to the start.
    Stop,
}

/// Sample parameters that can change during playback.
#[derive(Debug, Clone, Copy, PartialEq, Eq, Structural)]
pub struct PlaybackSettings {
    pub playback: PlaybackState,
    /// Playback speed in millionths (1 000 000 is normal speed).
    pub speed: u64,
    pub on_complete: OnComplete,
}

/// Normal playback speed, in millionths.
pub const SPEED_ONE: u64 = 1_000_000;

impl Default for PlaybackSettings {
    /// Play from the start at normal speed, despawning on completion.
    fn default() -> (r: PlaybackSettings)
        ensures
            r == (PlaybackSettings {
                playback: PlaybackState::Play { playhead: Some(0) },
                speed: SPEED_ONE,
                on_complete: OnComplete::Despawn,
            }),
    {
        PlaybackSettings {
            playback: PlaybackState::Play { playhead: Some(0) },
            speed: SPEED_ONE,
            on_complete: OnComplete::Despawn,
        }
    }
}

impl PlaybackSettings {
    /// Play from the start.
    pub fn play(&mut self)
        ensures
            *final(self) == (PlaybackSettings {
                playback: PlaybackState::Play { playhead: Some(0) },
                ..*old(self)
            }),
    {
        self.playback = PlaybackState::Play { playhead: Some(0) };
    }

    /// Pause playback.
    pub fn pause(&mut self)
        ensures
            *final(self) == (PlaybackSettings { playback: PlaybackState::Pause, ..*old(self) }),
    {
        self.playback = PlaybackState::Pause;
    }

    /// Stop playback, resetting the playhead to the start.
    pub fn stop(&mut self)
        ensures
            *final(self) == (PlaybackSettings { playback: PlaybackState::Stop, ..*old(self) }),
    {
        self.playback = PlaybackState::Stop;
    }
}

/// A range of playback speeds (millionths) to pick one from at random.
#[derive(Debug, Clone, Copy, PartialEq, Eq, Structural)]
pub struct RandomPitch {
    pub min: u64,
    pub max: u64,
}

impl RandomPitch {
    /// Speeds within `deviation` millionths of normal speed, not below zero.
    pub fn new(deviation: u64) -> (r: RandomPitch)
        ensures
            r.min == (if deviation >= SPEED_ONE {
                0
            } else {
                SPEED_ONE - deviation
            }),
            r.max == (if deviation > u64::MAX - SPEED_ONE {
                u64::MAX as int
            } else {
                SPEED_ONE + deviation
            }),
    {
        RandomPitch { min: SPEED_ONE.saturating_sub(deviation), max: SPEED_ONE.saturating_add(deviation) }
    }
}

/// The random source of pitch variation.
pub struct PitchRngSource {
    rng: SmallRng,
}

impl PitchRngSource {
    /// Draw pitches from `rng`.
    pub fn new(rng: SmallRng) -> (r: PitchRngSource) {
        PitchRngSource { rng }
    }

    /// A speed drawn from `pitch`: within `[min, max)`, or `min` when that
    /// range is empty.
    pub fn gen_pitch(&mut self, pitch: &RandomPitch) -> (r: u64)
        ensures
            pitch.min < pitch.max ==> pitch.min <= r < pitch.max,
            pitch.min >= pitch.max ==> r == pitch.min,
    {
        if pitch.min < pitch.max {
            draw_in_range(&mut self.rng, pitch.min, pitch.max)
        } else {
            pitch.min
        }
    }

    /// Give `settings` a speed drawn from `pitch`.
    pub fn apply(&mut self, pitch: &RandomPitch, settings: &mut PlaybackSettings)
        ensures
            final(settings).playback == old(settings).playback,
            final(settings).on_complete == old(settings).on_complete,
            pitch.min < pitch.max ==> pitch.min <= final(settings).speed < pitch.max,
            pitch.min >= pitch.max ==> final(settings).speed == pitch.min,
    {
        settings.speed = self.gen_pitch(pitch);
    }
}

} // verus!
