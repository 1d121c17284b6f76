//! Pending connections between audio nodes and how their targets resolve.
use vstd::prelude::*;
use std::collections::HashMap;

verus! {

broadcast use vstd::std_specs::hash::group_hash_axioms;

/// What a connection points at.
#[derive(Debug, Clone, Copy, PartialEq, Eq, Structural)]
pub enum ConnectTarget {
    /// A node registered under a label.
    Label(u64),
    /// The node of an entity.
    Entity(u64),
    /// A node of the audio graph.
    Node(u64),
}

/// A connection waiting to be made.
#[derive(Debug, Clone)]
pub struct PendingConnection {
    pub target: ConnectTarget,
    /// (source output, sink input) pairs; `None` means a stereo pairing.
    pub ports: Option<Vec<(u32, u32)>>,
}

/// The connections an entity still waits to make, in request order.
#[derive(Debug, Clone)]
pub struct PendingConnections(pub Vec<PendingConnection>);

impl PendingConnections {
    /// Queue another connection.
    pub fn push(&mut self, connection: PendingConnection)
        ensures
            final(self).0@ == old(self).0@.push(connection),
    {
        self.0.push(connection);
    }
}

/// The nodes registered under labels.
#[derive(Debug)]
pub struct NodeMap {
    map: HashMap<u64, u64>,
}

impl NodeMap {
    pub closed spec fn view(&self) -> Map<u64, u64> {
        self.map@
    }

    /// No labels.
    pub fn new() -> (r: NodeMap)
        ensures
            r@ == Map::<u64, u64>::empty(),
    {
        NodeMap { map: HashMap::new() }
    }

    /// Register `node` under `label`, replacing any earlier node.
    pub fn insert(&mut self, label: u64, node: u64)
        ensures
            final(self)@ == old(self)@.insert(label, node),
    {
        self.map.insert(label, node);
    }

    /// The node registered under `label`.
    pub fn get(&self, label: u64) -> (r: Option<u64>)
        ensures
            self@.contains_key(label) ==> r == Some(self@[label]),
            !self@.contains_key(label) ==> r is None,
    {
        match self.map.get(&label) {
            Some(n) => Some(*n),
            None => None,
        }
    }
}

/// The node a target stands for, given each entity's node and the labels;
/// `None` while the target does not exist yet.
pub open spec fn spec_resolve(target: ConnectTarget, entities: Map<u64, u64>, labels: Map<u64, u64>) -> Option<u64> {
    match target {
        ConnectTarget::Node(n) => Some(n),
        ConnectTarget::Entity(e) => if entities.contains_key(e) {
            Some(entities[e])
        } else {
            None
        },
        ConnectTarget::Label(l) => if labels.contains_key(l) {
            Some(labels[l])
        } else {
            None
        },
    }
}

/// The node a target stands for, if it exists yet.
pub fn resolve_target(target: ConnectTarget, entities: &NodeMap, labels: &NodeMap) -> (r: Option<u64>)
    ensures
        r == spec_resolve(target, entities@, labels@),
{
    match target {
        ConnectTarget::Node(n) => Some(n),
        ConnectTarget::Entity(e) => entities.get(e),
        ConnectTarget::Label(l) => labels.get(l),
    }
}

/// The port pairs of a connection: the ones given, or a stereo pairing.
pub fn connection_ports(ports: &Option<Vec<(u32, u32)>>) -> (r: Vec<(u32, u32)>)
    ensures
        ports is Some ==> r@ == ports->0@,
        ports is None ==> r@ == seq![(0u32, 0u32), (1u32, 1u32)],
{
    match ports {
        Some(p) => {
            let mut out: Vec<(u32, u32)> = Vec::new();
            let mut i: usize = 0;
            while i < p.len()
                invariant
                    i <= p@.len(),
                    out@ == p@.subrange(0, i as int),
                decreases p@.len() - i,
            {
                out.push(p[i]);
                i += 1;
                assert(out@ =~= p@.subrange(0, i as int));
            }
            assert(p@.subrange(0, p@.len() as int) =~= p@);
            out
        },
        None => {
            let out = vec![(0u32, 0u32), (1u32, 1u32)];
            assert(out@ =~= seq![(0u32, 0u32), (1u32, 1u32)]);
            out
        },
    }
}

/// The first `k` pending connections without those that were made.
pub open spec fn still_pending(pending: Seq<PendingConnection>, made: Seq<bool>, k: int) -> Seq<PendingConnection>
    decreases k,
{
    if k <= 0 {
        seq![]
    } else if made[k - 1] {
        still_pending(pending, made, k - 1)
    } else {
        still_pending(pending, made, k - 1).push(pending[k - 1])
    }
}

/// Keep the connections that were not made (their target was missing or
/// the graph refused them) so that they are tried again next tick;
/// `made[i]` tells whether connection `i` was made.
pub fn retain_unmade(pending: &mut PendingConnections, made: &Vec<bool>)
    requires
        made@.len() == old(pending).0@.len(),
    ensures
        final(pending).0@ == still_pending(old(pending).0@, made@, made@.len() as int),
{
    let mut rest: Vec<PendingConnection> = Vec::new();
    std::mem::swap(&mut rest, &mut pending.0);
    let ghost all = rest@;
    let n = rest.len();
    let mut kept: Vec<PendingConnection> = Vec::new();
    let mut i: usize = 0;
    while rest.len() > 0
        invariant
            n == all.len(),
            made@.len() == n,
            i <= n,
            rest@ == all.subrange(i as int, n as int),
            kept@ == still_pending(all, made@, i as int),
        decreases rest@.len(),
    {
        let c = rest.remove(0);
        if !made[i] {
            kept.push(c);
        }
        i += 1;
    }
    pending.0 = kept;
}

} // verus!
