use bevy_seedling::pool::{
    assign_loaded, assign_work, follower_pairs, QueuedRequest, grow_pool, grown_size, rank_by_keys, rank_requests, rank_samplers,
    reconcile_effects, Assignment, EffectPlan, EffectSlot, SamplePriority, SampleQueueLifetime,
    SampleRequest, SamplerScore, SkipTimer, WaitingSample,
};

fn test_order(candidates: &[SamplerScore], expected: &[usize]) {
    let ordering = rank_samplers(&candidates.to_vec());
    assert_eq!(ordering.as_slice(), expected);
}

#[test]
fn test_sorting() {
    let candidates = [
        SamplerScore::default(),
        SamplerScore { priority: SamplePriority(1), ..Default::default() },
    ];

    test_order(&candidates, &[0, 1]);

    let candidates = [
        SamplerScore { is_looping: true, ..Default::default() },
        SamplerScore::default(),
    ];

    test_order(&candidates, &[1, 0]);

    let candidates = [
        SamplerScore { priority: SamplePriority(1), ..Default::default() },
        SamplerScore {
            priority: SamplePriority(0),
            is_looping: true,
            has_assignment: true,
            raw_score: 0,
        },
    ];

    test_order(&candidates, &[1, 0]);
}

#[test]
fn ranking_is_stable_and_ordered() {
    let keys = vec![(3, 0, 0, 0), (1, 1, 0, 0), (1, 0, 0, 5), (3, 0, 0, 0), (-2, 9, 9, 9)];
    assert_eq!(rank_by_keys(&keys), vec![4, 2, 1, 0, 3]);
    assert_eq!(rank_by_keys(&vec![]), Vec::<usize>::new());
}

#[test]
fn requests_rank_by_priority_then_looping() {
    let requests = vec![
        SampleRequest { priority: SamplePriority(0), looping: false },
        SampleRequest { priority: SamplePriority(5), looping: false },
        SampleRequest { priority: SamplePriority(5), looping: true },
        SampleRequest { priority: SamplePriority(-1), looping: true },
    ];
    assert_eq!(rank_requests(&requests), vec![2, 1, 0, 3]);
}

fn busy(priority: i32, looping: bool, raw_score: u64) -> SamplerScore {
    SamplerScore { priority: SamplePriority(priority), is_looping: looping, has_assignment: true, raw_score }
}

fn one_shot(priority: i32) -> SampleRequest {
    SampleRequest { priority: SamplePriority(priority), looping: false }
}

#[test]
fn pool_of_two_assigns_two_then_queues_lower_priority() {
    // two simultaneous one-shots at equal priority on an idle pool of two
    let voices = vec![SamplerScore::default(), SamplerScore::default()];
    let requests = vec![one_shot(3), one_shot(3)];
    let assigned = assign_work(&voices, &requests);
    assert_eq!(
        assigned,
        vec![Assignment { request: 0, voice: 0 }, Assignment { request: 1, voice: 1 }]
    );

    // both voices now play priority 3; a lower-priority request waits
    let voices = vec![busy(3, false, 10), busy(3, false, 20)];
    let assigned = assign_work(&voices, &vec![one_shot(1)]);
    assert!(assigned.is_empty());

    // it expires once it has waited the default lifetime of 100ms
    let lifetime = SampleQueueLifetime::default();
    assert_eq!(lifetime, SampleQueueLifetime(100_000_000));
    let mut timer = SkipTimer::new();
    assert!(!timer.tick(60_000_000, lifetime));
    assert!(!timer.tick(39_999_999, lifetime));
    assert!(timer.tick(1, lifetime));
}

#[test]
fn contention_preempts_least_valuable_first() {
    let voices = vec![busy(2, false, 50), busy(1, false, 90), busy(1, false, 10)];
    let requests = vec![one_shot(1), one_shot(2)];
    // voices ranked [2, 1, 0]; requests ranked [1, 0]
    assert_eq!(
        assign_work(&voices, &requests),
        vec![Assignment { request: 1, voice: 2 }, Assignment { request: 0, voice: 1 }]
    );
}

#[test]
fn contention_stops_at_first_blocked_pair() {
    let voices = vec![busy(5, false, 0), busy(1, false, 0)];
    let requests = vec![one_shot(0), one_shot(4), one_shot(2)];
    // voices ranked [1, 0]; requests ranked [1, 2, 0]
    assert_eq!(assign_work(&voices, &requests), vec![Assignment { request: 1, voice: 1 }]);
}

#[test]
fn looping_voice_is_skipped_for_one_shot() {
    let voices = vec![busy(0, true, 0), busy(0, false, 0)];
    let requests = vec![one_shot(0), SampleRequest { priority: SamplePriority(0), looping: true }];
    // voices ranked [1, 0]; requests ranked [1, 0]
    // pair 0: voice 1 (not looping) gets the looping request 1
    // pair 1: voice 0 loops and request 0 is a one-shot: skipped
    assert_eq!(assign_work(&voices, &requests), vec![Assignment { request: 1, voice: 1 }]);
}

#[test]
fn fast_path_uses_idle_voices_in_order() {
    let voices = vec![busy(9, true, 0), SamplerScore::default(), busy(1, false, 0), SamplerScore::default()];
    let requests = vec![one_shot(0), one_shot(0)];
    assert_eq!(
        assign_work(&voices, &requests),
        vec![Assignment { request: 0, voice: 1 }, Assignment { request: 1, voice: 3 }]
    );
}

#[test]
fn pool_growth() {
    // enough idle voices: no growth
    assert_eq!(grown_size(4, 32, 3, 3), 4);
    // at the bound: no growth
    assert_eq!(grown_size(32, 32, 0, 10), 32);
    // shortfall dominates
    assert_eq!(grown_size(4, 32, 0, 10), 14);
    // min(size, 16) dominates
    assert_eq!(grown_size(8, 64, 0, 2), 16);
    assert_eq!(grown_size(40, 100, 0, 3), 56);
    // capped by the bound
    assert_eq!(grown_size(20, 30, 0, 3), 30);
    assert_eq!(grown_size(0, 4, 0, 1), 1);
}

#[test]
fn effect_reconciliation() {
    let shape = Some(vec![10, 20, 30]);
    assert_eq!(reconcile_effects(&None, &Some(vec![1])), EffectPlan::Effectless { stray: true });
    assert_eq!(reconcile_effects(&None, &None), EffectPlan::Effectless { stray: false });
    assert_eq!(reconcile_effects(&shape, &None), EffectPlan::CloneTemplate);
    assert_eq!(reconcile_effects(&shape, &Some(vec![10, 20, 30])), EffectPlan::Matching);
    assert_eq!(
        reconcile_effects(&shape, &Some(vec![30, 10])),
        EffectPlan::Remap {
            slots: vec![EffectSlot::Reuse(1), EffectSlot::Clone, EffectSlot::Reuse(0)],
            foreign: false,
        }
    );
    assert_eq!(
        reconcile_effects(&shape, &Some(vec![20, 99])),
        EffectPlan::Remap {
            slots: vec![EffectSlot::Clone, EffectSlot::Reuse(0), EffectSlot::Clone],
            foreign: true,
        }
    );
}

#[test]
fn followers_pair_positionally() {
    assert_eq!(follower_pairs(&vec![1, 2, 3], &vec![7, 8]), vec![(7, 1), (8, 2)]);
    assert!(follower_pairs(&vec![], &vec![7]).is_empty());
}

#[test]
fn pool_growth_counts_loaded_requests_for_its_label() {
    let voices = vec![busy(0, false, 0), SamplerScore::default(), busy(0, false, 0)];
    let queued = vec![
        WaitingSample { label: 1, loaded: true },
        WaitingSample { label: 1, loaded: false },
        WaitingSample { label: 2, loaded: true },
        WaitingSample { label: 1, loaded: true },
        WaitingSample { label: 1, loaded: true },
    ];
    // three loaded requests for label 1, one idle voice: short by two,
    // min(3, 16) = 3 wins
    assert_eq!(grow_pool(1, &voices, 100, &queued), 6);
    // label 2 has one loaded request and one idle voice: no growth
    assert_eq!(grow_pool(2, &voices, 100, &queued), 3);
    assert_eq!(grow_pool(1, &voices, 4, &queued), 4);
}

#[test]
fn unloaded_requests_stay_queued() {
    let voices = vec![SamplerScore::default(), SamplerScore::default()];
    let queued = vec![
        QueuedRequest { request: one_shot(0), loaded: false },
        QueuedRequest { request: one_shot(0), loaded: true },
        QueuedRequest { request: one_shot(0), loaded: false },
        QueuedRequest { request: one_shot(0), loaded: true },
    ];
    assert_eq!(
        assign_loaded(&voices, &queued),
        vec![Assignment { request: 1, voice: 0 }, Assignment { request: 3, voice: 1 }]
    );
    // contended: only loaded requests compete
    let busy_voices = vec![busy(1, false, 0)];
    let queued = vec![
        QueuedRequest { request: one_shot(9), loaded: false },
        QueuedRequest { request: one_shot(2), loaded: true },
        QueuedRequest { request: one_shot(3), loaded: true },
    ];
    assert_eq!(assign_loaded(&busy_voices, &queued), vec![Assignment { request: 2, voice: 0 }]);
    assert!(assign_loaded(&voices, &vec![QueuedRequest { request: one_shot(0), loaded: false }]).is_empty());
}
