//! The control tick's phases and how the control side drives the audio
//! graph: node removals, event flushing and the response to update errors.
use vstd::prelude::*;

verus! {

/// The phases of a control tick, in the order they run.
#[derive(Debug, Clone, Copy, PartialEq, Eq, Hash, Structural)]
pub enum SeedlingSystems {
    /// Entities without audio nodes acquire them.
    Acquire,
    /// Pending connections are made.
    Connect,
    /// Parameter changes are turned into events.
    Queue,
    /// Removals and events are sent to the audio graph, which is updated.
    Flush,
}

impl SeedlingSystems {
    pub open spec fn spec_rank(self) -> nat {
        match self {
            SeedlingSystems::Acquire => 0,
            SeedlingSystems::Connect => 1,
            SeedlingSystems::Queue => 2,
            SeedlingSystems::Flush => 3,
        }
    }

    /// The position of this phase within a control tick.
    pub fn rank(&self) -> (r: u8)
        ensures
            r as nat == self.spec_rank(),
    {
        match self {
            SeedlingSystems::Acquire => 0,
            SeedlingSystems::Connect => 1,
            SeedlingSystems::Queue => 2,
            SeedlingSystems::Flush => 3,
        }
    }

    /// Whether this phase completes before `other` starts.
    pub fn runs_before(&self, other: &SeedlingSystems) -> (r: bool)
        ensures
            r == (self.spec_rank() < other.spec_rank()),
    {
        self.rank() < other.rank()
    }
}

/// A command for the audio graph, identified by node number.
#[derive(Debug, Clone, PartialEq, Eq)]
pub enum GraphCommand<E> {
    /// Remove a node.
    RemoveNode(u64),
    /// Deliver an event to a node.
    QueueEvent { node: u64, event: E },
    /// Let the graph apply what was sent.
    Update,
}

/// Node removals deferred until the graph is flushed.
#[derive(Debug, Clone)]
pub struct PendingRemovals {
    nodes: Vec<u64>,
}

impl PendingRemovals {
    pub closed spec fn spec_nodes(&self) -> Seq<u64> {
        self.nodes@
    }

    /// No removals pending.
    pub fn new() -> (r: PendingRemovals)
        ensures
            r.spec_nodes().len() == 0,
    {
        PendingRemovals { nodes: Vec::new() }
    }

    /// Defer the removal of `node`.
    pub fn push(&mut self, node: u64)
        ensures
            final(self).spec_nodes() == old(self).spec_nodes().push(node),
    {
        self.nodes.push(node);
    }

    /// Take every pending removal, oldest first.
    pub fn drain(&mut self) -> (r: Vec<u64>)
        ensures
            r@ == old(self).spec_nodes(),
            final(self).spec_nodes().len() == 0,
    {
        let mut out = Vec::new();
        std::mem::swap(&mut out, &mut self.nodes);
        out
    }
}

/// The commands of one flush: every removal first, then every queued
/// event in order, then one update.
pub open spec fn spec_flush<E>(removals: Seq<u64>, events: Seq<(u64, E)>) -> Seq<GraphCommand<E>> {
    removals.map_values(|n: u64| GraphCommand::<E>::RemoveNode(n)) + events.map_values(
        |p: (u64, E)| GraphCommand::QueueEvent { node: p.0, event: p.1 },
    ) + seq![GraphCommand::Update]
}

/// Order one flush: removals go out before the events queued in the same
/// tick, so that no event reaches a node that is being removed after it.
pub fn flush_commands<E>(removals: Vec<u64>, events: Vec<(u64, E)>) -> (r: Vec<GraphCommand<E>>)
    ensures
        r@ == spec_flush(removals@, events@),
{
    let mut out: Vec<GraphCommand<E>> = Vec::new();
    let mut i: usize = 0;
    while i < removals.len()
        invariant
            i <= removals@.len(),
            out@ == removals@.subrange(0, i as int).map_values(|n: u64| GraphCommand::<E>::RemoveNode(n)),
        decreases removals@.len() - i,
    {
        out.push(GraphCommand::RemoveNode(removals[i]));
        i += 1;
        assert(out@ =~= removals@.subrange(0, i as int).map_values(
            |n: u64| GraphCommand::<E>::RemoveNode(n),
        ));
    }
    assert(removals@.subrange(0, removals@.len() as int) =~= removals@);
    let ghost head = out@;
    let ghost all = events@;
    let mut rest = events;
    let total = rest.len();
    let mut taken: usize = 0;
    while rest.len() > 0
        invariant
            total == all.len(),
            taken <= all.len(),
            rest@ == all.subrange(taken as int, all.len() as int),
            out@ == head + all.subrange(0, taken as int).map_values(
                |p: (u64, E)| GraphCommand::QueueEvent { node: p.0, event: p.1 },
            ),
        decreases rest@.len(),
    {
        let (node, event) = rest.remove(0);
        out.push(GraphCommand::QueueEvent { node, event });
        taken += 1;
        assert(out@ =~= head + all.subrange(0, taken as int).map_values(
            |p: (u64, E)| GraphCommand::QueueEvent { node: p.0, event: p.1 },
        ));
    }
    assert(all.subrange(0, all.len() as int) =~= all);
    out.push(GraphCommand::Update);
    out
}

/// What an update of the audio graph reported.
#[derive(Debug, Clone, Copy, PartialEq, Eq, Structural)]
pub enum UpdateOutcome {
    Success,
    /// The audio stream stopped, most likely because its device went away.
    StreamStoppedUnexpectedly,
    /// Any other graph error.
    Other,
}

/// What the control side does after an update.
#[derive(Debug, Clone, Copy, PartialEq, Eq, Structural)]
pub enum UpdateResponse {
    /// Nothing to do.
    Continue,
    /// Log the error and go on.
    Report,
    /// Enumerate the devices again, then restart the stream.
    RefreshAndRestart,
}

/// The response to an update: a stopped stream is self-healing (refresh
/// the devices, then restart); other errors are reported; nothing is fatal.
pub fn respond_to_update(outcome: UpdateOutcome) -> (r: UpdateResponse)
    ensures
        r == (match outcome {
            UpdateOutcome::Success => UpdateResponse::Continue,
            UpdateOutcome::StreamStoppedUnexpectedly => UpdateResponse::RefreshAndRestart,
            UpdateOutcome::Other => UpdateResponse::Report,
        }),
{
    match outcome {
        UpdateOutcome::Success => UpdateResponse::Continue,
        UpdateOutcome::StreamStoppedUnexpectedly => UpdateResponse::RefreshAndRestart,
        UpdateOutcome::Other => UpdateResponse::Report,
    }
}

} // verus!
