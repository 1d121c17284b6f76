use bevy_seedling::adsr::{AdsrProcessor, AdsrStage};
use bevy_seedling::envelopes::{
    AhdsrConfig, AhdsrEnvelope, AhdsrState, RetriggerMode, TriggerMode, TriggerState, COEFF_ONE,
    LEVEL_ONE,
};

fn instant_config(trigger_mode: TriggerMode) -> AhdsrConfig {
    AhdsrConfig {
        attack_rate: COEFF_ONE,
        hold_samples: 0,
        decay_rate: COEFF_ONE,
        sustain: LEVEL_ONE,
        release_rate: COEFF_ONE,
        trigger_mode,
        retrigger_mode: RetriggerMode::Normal,
    }
}

#[test]
fn instant_envelope_reaches_full_level_in_one_block() {
    let mut env = AhdsrEnvelope::new(instant_config(TriggerMode::Normal));
    let levels = env.process(64, &vec![(0, TriggerState::On)]);
    assert_eq!(levels.len(), 64);
    assert!(levels.iter().all(|&l| l == LEVEL_ONE));
    assert_eq!(env.state, Some(AhdsrState::Sustain));

    // it stays there for block after block until triggered off
    let levels = env.process(128, &vec![]);
    assert!(levels.iter().all(|&l| l == LEVEL_ONE));
    assert_eq!(env.state, Some(AhdsrState::Sustain));

    let levels = env.process(8, &vec![(4, TriggerState::Off)]);
    assert_eq!(&levels[..4], &[LEVEL_ONE; 4]);
    assert_eq!(levels[4], 0);
    assert_eq!(env.state, None);
}

#[test]
fn trigger_edge_applies_on_exact_sample() {
    let mut env = AhdsrEnvelope::new(instant_config(TriggerMode::Normal));
    let levels = env.process(10, &vec![(6, TriggerState::On)]);
    assert_eq!(&levels[..6], &[0; 6]);
    assert_eq!(&levels[6..], &[LEVEL_ONE; 4]);
}

#[test]
fn slow_phases_approach_exponentially() {
    let config = AhdsrConfig {
        attack_rate: 500_000,
        hold_samples: 2,
        decay_rate: 500_000,
        sustain: 500_000,
        release_rate: 500_000,
        trigger_mode: TriggerMode::Normal,
        retrigger_mode: RetriggerMode::Normal,
    };
    let mut env = AhdsrEnvelope::new(config);
    env.transition(TriggerState::On);
    assert_eq!(env.tick(), 500_500);
    assert_eq!(env.tick(), 750_750);
    let mut n = 0;
    while env.state == Some(AhdsrState::Attack) {
        env.tick();
        n += 1;
    }
    assert!(n < 20);
    assert_eq!(env.level, LEVEL_ONE);
    assert_eq!(env.state, Some(AhdsrState::Hold(0)));
    env.tick();
    env.tick();
    assert_eq!(env.state, Some(AhdsrState::Hold(2)));
    env.tick();
    assert_eq!(env.state, Some(AhdsrState::Decay));
    assert_eq!(env.tick(), 750_000);
    while env.state == Some(AhdsrState::Decay) {
        env.tick();
    }
    assert_eq!(env.state, Some(AhdsrState::Sustain));
    assert_eq!(env.level, 500_000);
    env.transition(TriggerState::Off);
    assert_eq!(env.state, Some(AhdsrState::Release));
    assert_eq!(env.tick(), 250_000);
    while env.state.is_some() {
        env.tick();
    }
    assert_eq!(env.level, 0);
}

#[test]
fn once_mode_ignores_off_and_releases_after_decay() {
    let mut env = AhdsrEnvelope::new(instant_config(TriggerMode::Once));
    env.transition(TriggerState::On);
    env.transition(TriggerState::Off);
    assert_eq!(env.state, Some(AhdsrState::Attack));
    env.tick();
    env.tick();
    env.tick();
    assert_eq!(env.state, Some(AhdsrState::Release));
    env.tick();
    assert_eq!(env.state, None);
    assert_eq!(env.level, 0);
}

#[test]
fn trigger_mode_transitions() {
    assert_eq!(TriggerMode::Normal.state_transition(AhdsrState::Decay), AhdsrState::Release);
    assert_eq!(TriggerMode::Once.state_transition(AhdsrState::Decay), AhdsrState::Decay);
    assert_eq!(TriggerMode::Normal.sustain_state(), AhdsrState::Sustain);
    assert_eq!(TriggerMode::Once.sustain_state(), AhdsrState::Release);
}

#[test]
fn retrigger_modes() {
    assert_eq!(
        RetriggerMode::Normal.state_transition(300, Some(AhdsrState::Decay)),
        (300, AhdsrState::Attack)
    );
    assert_eq!(
        RetriggerMode::Restart.state_transition(300, Some(AhdsrState::Decay)),
        (0, AhdsrState::Attack)
    );
    assert_eq!(
        RetriggerMode::Ignore.state_transition(300, Some(AhdsrState::Decay)),
        (300, AhdsrState::Decay)
    );
    assert_eq!(RetriggerMode::Ignore.state_transition(300, None), (300, AhdsrState::Attack));
}

#[test]
fn trigger_driven_adsr() {
    let mut adsr = AdsrProcessor::new(COEFF_ONE, 500_000, 600_000, COEFF_ONE);
    assert_eq!(adsr.process(false), 0);
    assert_eq!(adsr.process(true), LEVEL_ONE);
    assert_eq!(adsr.stage, AdsrStage::Decay);
    assert_eq!(adsr.process(true), 800_000);
    assert_eq!(adsr.process(true), 700_000);
    assert_eq!(adsr.process(false), 0);
    assert_eq!(adsr.stage, AdsrStage::Idle);
    adsr.update_constants(500_000, 500_000, 500_000);
    assert_eq!(adsr.process(true), 500_500);
    assert_eq!(adsr.stage, AdsrStage::Attack);
}

#[test]
fn settings_change_while_running() {
    let mut env = AhdsrEnvelope::new(instant_config(TriggerMode::Normal));
    env.process(4, &vec![(0, TriggerState::On)]);
    assert_eq!(env.state, Some(AhdsrState::Sustain));
    let mut slower = instant_config(TriggerMode::Normal);
    slower.release_rate = 500_000;
    env.set_config(slower);
    assert_eq!(env.state, Some(AhdsrState::Sustain));
    assert_eq!(env.level, LEVEL_ONE);
    env.transition(TriggerState::Off);
    assert_eq!(env.tick(), 500_000);
}
