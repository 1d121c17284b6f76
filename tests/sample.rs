use bevy_seedling::events::{Volume, LINEAR_UNITY};
use bevy_seedling::pool::{SamplePriority, SampleRequest};
use bevy_seedling::sample::{
    OnComplete, PitchRngSource, PlaybackSettings, PlaybackState, RandomPitch, RepeatMode,
    SamplePlayer, SPEED_ONE,
};
use rand::rngs::SmallRng;
use rand::SeedableRng;

#[test]
fn player_builders() {
    let player = SamplePlayer::new(7);
    assert_eq!(player.repeat_mode, RepeatMode::PlayOnce);
    assert_eq!(player.volume, Volume::Linear(LINEAR_UNITY));
    let looped = player.looping().with_volume(Volume::Decibels(-600));
    assert_eq!(looped.sample, 7);
    assert_eq!(looped.repeat_mode, RepeatMode::RepeatEndlessly);
    assert_eq!(looped.volume, Volume::Decibels(-600));
    assert_eq!(
        looped.request(SamplePriority(10)),
        SampleRequest { priority: SamplePriority(10), looping: true }
    );
    assert!(!player.request(SamplePriority(0)).looping);
}

#[test]
fn playback_settings() {
    let mut settings = PlaybackSettings::default();
    assert_eq!(settings.playback, PlaybackState::Play { playhead: Some(0) });
    assert_eq!(settings.speed, SPEED_ONE);
    assert_eq!(settings.on_complete, OnComplete::Despawn);
    settings.pause();
    assert_eq!(settings.playback, PlaybackState::Pause);
    settings.stop();
    assert_eq!(settings.playback, PlaybackState::Stop);
    settings.play();
    assert_eq!(settings.playback, PlaybackState::Play { playhead: Some(0) });
}

#[test]
fn random_pitch_stays_in_range() {
    let pitch = RandomPitch::new(50_000);
    assert_eq!(pitch, RandomPitch { min: 950_000, max: 1_050_000 });
    assert_eq!(RandomPitch::new(2_000_000).min, 0);
    let mut source = PitchRngSource::new(SmallRng::seed_from_u64(3));
    let mut settings = PlaybackSettings::default();
    let mut speeds = Vec::new();
    for _ in 0..100 {
        source.apply(&pitch, &mut settings);
        assert!(settings.speed >= 950_000 && settings.speed < 1_050_000);
        speeds.push(settings.speed);
    }
    // the draws actually vary across the range
    assert!(speeds.iter().any(|&s| s != speeds[0]));
    assert!(speeds.iter().any(|&s| s > 1_000_000) && speeds.iter().any(|&s| s < 1_000_000));
    // an empty range gives its lower end rather than failing
    let fixed = RandomPitch::new(0);
    assert_eq!(source.gen_pitch(&fixed), SPEED_ONE);
}
