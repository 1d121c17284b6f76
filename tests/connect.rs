use bevy_seedling::connect::{
    connection_ports, resolve_target, retain_unmade, ConnectTarget, NodeMap, PendingConnection,
    PendingConnections,
};

#[test]
fn targets_resolve_through_entities_and_labels() {
    let mut entities = NodeMap::new();
    entities.insert(10, 100);
    let mut labels = NodeMap::new();
    labels.insert(1, 500);
    labels.insert(1, 501);
    assert_eq!(resolve_target(ConnectTarget::Node(7), &entities, &labels), Some(7));
    assert_eq!(resolve_target(ConnectTarget::Entity(10), &entities, &labels), Some(100));
    assert_eq!(resolve_target(ConnectTarget::Entity(11), &entities, &labels), None);
    assert_eq!(resolve_target(ConnectTarget::Label(1), &entities, &labels), Some(501));
    assert_eq!(resolve_target(ConnectTarget::Label(2), &entities, &labels), None);
}

#[test]
fn ports_default_to_stereo() {
    assert_eq!(connection_ports(&None), vec![(0, 0), (1, 1)]);
    assert_eq!(connection_ports(&Some(vec![(0, 1)])), vec![(0, 1)]);
}

#[test]
fn unmade_connections_wait_for_next_tick() {
    let mut pending = PendingConnections(Vec::new());
    pending.push(PendingConnection { target: ConnectTarget::Node(1), ports: None });
    pending.push(PendingConnection { target: ConnectTarget::Label(2), ports: None });
    pending.push(PendingConnection { target: ConnectTarget::Entity(3), ports: Some(vec![(0, 0)]) });
    retain_unmade(&mut pending, &vec![true, false, false]);
    assert_eq!(pending.0.len(), 2);
    assert_eq!(pending.0[0].target, ConnectTarget::Label(2));
    assert_eq!(pending.0[1].target, ConnectTarget::Entity(3));
    retain_unmade(&mut pending, &vec![true, true]);
    assert!(pending.0.is_empty());
}
