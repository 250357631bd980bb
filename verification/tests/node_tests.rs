use p2pool_core::node::{after_dial_attempt, plan_bootstrap_dials, Action, Event, Node};

#[test]
fn test_successful_dial_registers_the_address() {
    assert_eq!(
        after_dial_attempt(2, 20, true),
        Some(Action::RegisterAddress { peer: 2, addr: 20 })
    );
}

#[test]
fn test_failed_dial_registers_nothing() {
    assert_eq!(after_dial_attempt(2, 20, false), None);
}

#[test]
fn test_new_node_has_no_peers() {
    let node = Node::new();
    assert_eq!(node.connected_peers().len(), 0);
}

#[test]
fn test_startup_with_unreachable_bootstrap_peers_succeeds() {
    let addrs = vec!["/ip4/10.0.0.1/tcp/9000".to_string(), "garbage".to_string()];
    let dials = plan_bootstrap_dials(&addrs);
    assert_eq!(dials.len(), 1);
    let node = Node::new();
    assert_eq!(node.connected_peers().len(), 0);
}

#[test]
fn test_plan_bootstrap_skips_malformed_addresses() {
    let addrs = vec![
        "not an address".to_string(),
        "/ip4/127.0.0.1/tcp/8000".to_string(),
        "/dns4/pool.example/tcp/18080".to_string(),
    ];
    let dials = plan_bootstrap_dials(&addrs);
    assert_eq!(dials.len(), 2);
}

#[test]
fn test_plan_bootstrap_with_no_addresses() {
    let addrs: Vec<String> = Vec::new();
    assert_eq!(plan_bootstrap_dials(&addrs).len(), 0);
}

#[test]
fn test_connection_established_records_peer() {
    let mut node = Node::new();
    let actions = node.handle_swarm_event(Event::ConnectionEstablished { peer: 7 });
    assert!(actions.is_empty());
    assert_eq!(node.connected_peers(), vec![7]);
}

#[test]
fn test_established_replay_keeps_peer_set_size() {
    let mut node = Node::new();
    node.handle_swarm_event(Event::ConnectionEstablished { peer: 7 });
    node.handle_swarm_event(Event::ConnectionEstablished { peer: 7 });
    assert_eq!(node.connected_peers().len(), 1);
}

#[test]
fn test_connection_closed_removes_and_prunes() {
    let mut node = Node::new();
    node.handle_swarm_event(Event::ConnectionEstablished { peer: 5 });
    node.handle_swarm_event(Event::ConnectionEstablished { peer: 6 });
    let actions = node.handle_swarm_event(Event::ConnectionClosed { peer: 5 });
    assert_eq!(actions, vec![Action::PruneRouting { peer: 5 }]);
    assert_eq!(node.connected_peers(), vec![6]);
}

#[test]
fn test_discovery_skips_connected_peer() {
    let mut node = Node::new();
    node.handle_swarm_event(Event::ConnectionEstablished { peer: 1 });
    let actions = node.handle_swarm_event(Event::Discovered { pairs: vec![(1, 10)] });
    assert!(actions.is_empty());
}

#[test]
fn test_discovery_dials_once_per_occurrence() {
    let mut node = Node::new();
    node.handle_swarm_event(Event::ConnectionEstablished { peer: 1 });
    let actions = node.handle_swarm_event(Event::Discovered {
        pairs: vec![(2, 20), (1, 10), (3, 30), (2, 20)],
    });
    assert_eq!(
        actions,
        vec![
            Action::Dial { peer: 2, addr: 20 },
            Action::Dial { peer: 3, addr: 30 },
            Action::Dial { peer: 2, addr: 20 },
        ]
    );
}

#[test]
fn test_discovery_with_no_pairs_does_nothing() {
    let mut node = Node::new();
    let actions = node.handle_swarm_event(Event::Discovered { pairs: Vec::new() });
    assert!(actions.is_empty());
    assert_eq!(node.connected_peers().len(), 0);
}

#[test]
fn test_identify_registers_every_advertised_address() {
    let mut node = Node::new();
    let actions = node.handle_swarm_event(Event::IdentifyReceived {
        peer: 4,
        listen_addrs: vec![40, 41],
    });
    assert_eq!(
        actions,
        vec![
            Action::RegisterAddress { peer: 4, addr: 40 },
            Action::RegisterAddress { peer: 4, addr: 41 },
        ]
    );
}

#[test]
fn test_observability_events_change_nothing() {
    let mut node = Node::new();
    node.handle_swarm_event(Event::ConnectionEstablished { peer: 9 });
    assert!(node.handle_swarm_event(Event::NewListenAddr { addr: 1 }).is_empty());
    assert!(node.handle_swarm_event(Event::RoutingUpdated { peer: 9 }).is_empty());
    assert!(node
        .handle_swarm_event(Event::ClosestPeersFound { peers: vec![2, 3] })
        .is_empty());
    assert!(node.handle_swarm_event(Event::ClosestPeersFailed).is_empty());
    assert!(node.handle_swarm_event(Event::Other).is_empty());
    assert_eq!(node.connected_peers(), vec![9]);
}

#[test]
fn test_shutdown_disconnects_every_peer() {
    let mut node = Node::new();
    node.handle_swarm_event(Event::ConnectionEstablished { peer: 1 });
    node.handle_swarm_event(Event::ConnectionEstablished { peer: 2 });
    let actions = node.shutdown();
    assert_eq!(
        actions,
        vec![Action::Disconnect { peer: 1 }, Action::Disconnect { peer: 2 }]
    );
    assert_eq!(node.connected_peers().len(), 2);
}
