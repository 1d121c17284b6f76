use bevy_seedling::graph::{
    flush_commands, respond_to_update, GraphCommand, PendingRemovals, SeedlingSystems,
    UpdateOutcome, UpdateResponse,
};
use bevy_seedling::profiling::ProfilingError;

#[test]
fn phases_run_in_order() {
    let order = [
        SeedlingSystems::Acquire,
        SeedlingSystems::Connect,
        SeedlingSystems::Queue,
        SeedlingSystems::Flush,
    ];
    for (i, a) in order.iter().enumerate() {
        for (j, b) in order.iter().enumerate() {
            assert_eq!(a.runs_before(b), i < j);
        }
    }
}

#[test]
fn removals_flush_before_events() {
    let mut removals = PendingRemovals::new();
    removals.push(3);
    removals.push(1);
    let drained = removals.drain();
    assert_eq!(drained, vec![3, 1]);
    assert!(removals.drain().is_empty());
    let commands = flush_commands(drained, vec![(1, "gain"), (2, "pan")]);
    assert_eq!(
        commands,
        vec![
            GraphCommand::RemoveNode(3),
            GraphCommand::RemoveNode(1),
            GraphCommand::QueueEvent { node: 1, event: "gain" },
            GraphCommand::QueueEvent { node: 2, event: "pan" },
            GraphCommand::Update,
        ]
    );
}

#[test]
fn stopped_stream_restarts() {
    assert_eq!(respond_to_update(UpdateOutcome::Success), UpdateResponse::Continue);
    assert_eq!(
        respond_to_update(UpdateOutcome::StreamStoppedUnexpectedly),
        UpdateResponse::RefreshAndRestart
    );
    assert_eq!(respond_to_update(UpdateOutcome::Other), UpdateResponse::Report);
    assert_eq!(ProfilingError, ProfilingError);
}
