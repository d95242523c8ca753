use gossip_chat::discovery::DiscoveryEvent;
use gossip_chat::identity::NodeIdentity;
use gossip_chat::mesh::{
    Config, ConfigError, DropReason, GossipMesh, Inbound, MessageReceived, Outbound, Phase, PublishError,
    ValidationMode,
};
use gossip_chat::message::{message_id, Message, Topic};
use gossip_chat::node::{Node, NodeEvent, Notice};
use gossip_chat::peer::{Address, PeerId, PeerRecord};

fn peer(n: u8) -> PeerId {
    PeerId::from_bytes(vec![n, n, n])
}

fn address(n: u8) -> Address {
    Address::from_bytes(vec![4, 10, 0, 0, n])
}

fn topic(name: &str) -> Topic {
    Topic::new(name.to_string())
}

fn config(mode: ValidationMode) -> Config {
    Config { heartbeat_interval: 10, seen_window: 2, mode }
}

fn node(mode: ValidationMode) -> Node {
    Node::new(NodeIdentity::generate().expect("a keypair"), config(mode), 30, topic("chat")).expect("a node")
}

fn sighting(n: u8, now: u64) -> NodeEvent {
    NodeEvent::Sighting { peer: peer(n), addresses: vec![address(n)], now }
}

#[test]
fn new_node_is_subscribed_and_running() {
    let node = node(ValidationMode::Strict);
    assert_eq!(node.topic(), &topic("chat"));
    assert_eq!(node.mesh().phase(), Phase::Running);
    assert!(node.mesh().is_subscribed(&topic("chat")));
    assert_eq!(node.mesh().subscriptions(), &vec![topic("chat")]);
    assert!(node.mesh().peers().is_empty());
    assert_eq!(node.discovery().len(), 0);
    assert_eq!(node.discovery().ttl(), 30);
}

#[test]
fn new_node_refuses_bad_config() {
    let bad = Config { heartbeat_interval: 0, seen_window: 2, mode: ValidationMode::Strict };
    let made = Node::new(NodeIdentity::generate().expect("a keypair"), bad, 30, topic("chat"));
    assert!(matches!(made, Err(ConfigError::HeartbeatInterval)));
    let bad = Config { heartbeat_interval: 3, seen_window: 0, mode: ValidationMode::Strict };
    let made = Node::new(NodeIdentity::generate().expect("a keypair"), bad, 30, topic("chat"));
    assert!(matches!(made, Err(ConfigError::SeenWindow)));
}

#[test]
fn sighting_adds_peer_to_table_and_mesh() {
    let mut node = node(ValidationMode::Author);
    assert_eq!(node.step(sighting(1, 100)), vec![Notice::PeerDiscovered(peer(1))]);
    assert_eq!(node.step(sighting(2, 101)), vec![Notice::PeerDiscovered(peer(2))]);
    assert_eq!(node.step(sighting(1, 102)), Vec::<Notice>::new());
    assert_eq!(node.mesh().peers(), &vec![peer(1), peer(2)]);
    assert_eq!(node.discovery().len(), 2);
    assert_eq!(node.discovery().records()[0].last_seen(), 102);
}

#[test]
fn clock_removes_expired_peers_from_table_and_mesh() {
    let mut node = node(ValidationMode::Author);
    node.step(sighting(1, 100));
    node.step(sighting(2, 110));
    node.step(sighting(3, 100));
    assert_eq!(node.step(NodeEvent::Clock { now: 129 }), Vec::<Notice>::new());
    assert_eq!(
        node.step(NodeEvent::Clock { now: 130 }),
        vec![Notice::PeerExpired(peer(1)), Notice::PeerExpired(peer(3))]
    );
    assert_eq!(node.mesh().peers(), &vec![peer(2)]);
    assert_eq!(node.discovery().len(), 1);
    assert!(node.discovery().knows(&peer(2)));
}

#[test]
fn mesh_peers_are_the_known_peers_after_any_run() {
    let mut node = node(ValidationMode::Author);
    let events = vec![
        sighting(1, 0),
        sighting(2, 5),
        NodeEvent::Clock { now: 30 },
        sighting(1, 31),
        sighting(3, 32),
        NodeEvent::Heartbeat,
        NodeEvent::Clock { now: 35 },
        sighting(2, 36),
        NodeEvent::Input(b"x".to_vec()),
        NodeEvent::Clock { now: 61 },
        NodeEvent::Clock { now: 62 },
        sighting(4, 63),
    ];
    for event in events {
        node.step(event);
        let mut known: Vec<PeerId> = Vec::new();
        for record in node.discovery().records() {
            known.push(record.peer().clone());
        }
        let mut members = node.mesh().peers().clone();
        known.sort_by(|a, b| a.as_bytes().cmp(b.as_bytes()));
        members.sort_by(|a, b| a.as_bytes().cmp(b.as_bytes()));
        assert_eq!(members, known);
    }
    assert_eq!(node.mesh().peers(), &vec![peer(2), peer(4)]);
}

#[test]
fn input_is_published_to_the_mesh() {
    let mut node = node(ValidationMode::Author);
    node.step(sighting(1, 100));
    assert_eq!(node.step(NodeEvent::Input(b"hello".to_vec())), Vec::<Notice>::new());
    let local = node.mesh().local_peer();
    assert_eq!(
        node.take_outbox(),
        vec![Outbound::Forward {
            message: Message { topic: topic("chat"), payload: b"hello".to_vec(), publisher: local, signature: None },
            targets: vec![peer(1)],
        }]
    );
    assert_eq!(node.mesh().pending(), 0);
}

#[test]
fn input_without_peers_gives_a_notice() {
    let mut node = node(ValidationMode::Strict);
    assert_eq!(
        node.step(NodeEvent::Input(b"hello".to_vec())),
        vec![Notice::PublishFailed(PublishError::NoPeers)]
    );
    assert!(node.mesh().has_seen(message_id(&b"hello".to_vec())));
    assert!(node.take_outbox().is_empty());
}

#[test]
fn arrival_is_shown_once() {
    let mut node = node(ValidationMode::Author);
    node.step(sighting(1, 100));
    node.step(sighting(2, 100));
    let message = Message { topic: topic("chat"), payload: b"hi".to_vec(), publisher: peer(1), signature: None };
    assert_eq!(
        node.step(NodeEvent::Arrival { from: peer(1), message: message.duplicate() }),
        vec![Notice::MessageReceived(MessageReceived {
            source_peer: peer(1),
            message_id: message_id(&b"hi".to_vec()),
            payload: b"hi".to_vec(),
        })]
    );
    assert_eq!(
        node.step(NodeEvent::Arrival { from: peer(2), message: message.duplicate() }),
        Vec::<Notice>::new()
    );
    assert_eq!(node.take_outbox(), vec![Outbound::Forward { message, targets: vec![peer(2)] }]);
}

#[test]
fn listening_is_shown_and_remembered() {
    let mut node = node(ValidationMode::Strict);
    assert!(node.listening().is_empty());
    assert_eq!(
        node.step(NodeEvent::Listening { address: address(7) }),
        vec![Notice::Listening(address(7))]
    );
    assert_eq!(
        node.step(NodeEvent::Listening { address: address(8) }),
        vec![Notice::Listening(address(8))]
    );
    assert_eq!(
        node.step(NodeEvent::Listening { address: address(7) }),
        vec![Notice::Listening(address(7))]
    );
    assert_eq!(node.listening(), &vec![address(7), address(8)]);
    assert_eq!(node.mesh().pending(), 0);
}

#[test]
fn presence_of_one_node_is_a_sighting_for_another() {
    let mut a = node(ValidationMode::Strict);
    let mut b = node(ValidationMode::Strict);
    a.step(NodeEvent::Listening { address: address(7) });
    match a.presence(40) {
        NodeEvent::Sighting { peer, addresses, now } => {
            assert_eq!(peer, a.mesh().local_peer());
            assert_eq!(addresses, vec![address(7)]);
            assert_eq!(now, 40);
        }
        other => panic!("expected a sighting, got {:?}", other),
    }
    assert_eq!(b.step(a.presence(40)), vec![Notice::PeerDiscovered(a.mesh().local_peer())]);
    assert_eq!(b.step(a.presence(50)), Vec::<Notice>::new());
    assert_eq!(b.mesh().peers(), &vec![a.mesh().local_peer()]);
    assert_eq!(b.discovery().records()[0].addresses(), &vec![address(7)]);
    assert_eq!(b.discovery().records()[0].last_seen(), 50);
}

#[test]
fn heartbeat_event_ages_and_announces() {
    let mut node = node(ValidationMode::Author);
    node.step(sighting(1, 100));
    node.step(NodeEvent::Input(b"hello".to_vec()));
    node.take_outbox();
    assert_eq!(node.step(NodeEvent::Heartbeat), Vec::<Notice>::new());
    assert_eq!(
        node.take_outbox(),
        vec![Outbound::Announce { topics: vec![topic("chat")], targets: vec![peer(1)] }]
    );
    node.step(NodeEvent::Heartbeat);
    assert!(node.mesh().has_seen(message_id(&b"hello".to_vec())));
    node.step(NodeEvent::Heartbeat);
    assert!(!node.mesh().has_seen(message_id(&b"hello".to_vec())));
}

#[test]
fn announce_gives_one_notice_for_each_report() {
    let events = vec![
        DiscoveryEvent::PeerDiscovered(PeerRecord::first(peer(1), &vec![address(1)], 5)),
        DiscoveryEvent::PeerExpired(peer(2)),
        DiscoveryEvent::PeerExpired(peer(1)),
    ];
    assert_eq!(
        Node::announce(&events),
        vec![Notice::PeerDiscovered(peer(1)), Notice::PeerExpired(peer(2)), Notice::PeerExpired(peer(1))]
    );
    assert_eq!(Node::announce(&Vec::new()), Vec::<Notice>::new());
}

#[test]
fn follow_applies_reports_in_order() {
    let mut mesh = GossipMesh::new(NodeIdentity::generate().expect("a keypair"), config(ValidationMode::Author));
    mesh.add_peer(peer(9));
    let events = vec![
        DiscoveryEvent::PeerDiscovered(PeerRecord::first(peer(1), &vec![address(1)], 5)),
        DiscoveryEvent::PeerDiscovered(PeerRecord::first(peer(2), &vec![], 5)),
        DiscoveryEvent::PeerExpired(peer(1)),
        DiscoveryEvent::PeerExpired(peer(3)),
        DiscoveryEvent::PeerDiscovered(PeerRecord::first(peer(2), &vec![], 6)),
        DiscoveryEvent::PeerDiscovered(PeerRecord::first(peer(3), &vec![], 6)),
        DiscoveryEvent::PeerDiscovered(PeerRecord::first(peer(1), &vec![], 7)),
        DiscoveryEvent::PeerExpired(peer(3)),
    ];
    mesh.follow(&events);
    assert_eq!(mesh.peers(), &vec![peer(9), peer(2), peer(1)]);
}

#[test]
fn scenario_publish_hello_is_received_once() {
    let chat = topic("chat");
    let mut a = GossipMesh::new(NodeIdentity::generate().expect("a keypair"), Config::default());
    let mut b = GossipMesh::new(NodeIdentity::generate().expect("a keypair"), Config::default());
    a.subscribe(chat.clone()).expect("configured");
    b.subscribe(chat.clone()).expect("configured");
    a.start().expect("configured");
    b.start().expect("configured");
    a.add_peer(b.local_peer());
    b.add_peer(a.local_peer());
    let id = a.publish(&chat, b"hello".to_vec()).expect("published");
    let mut delivered: Vec<MessageReceived> = Vec::new();
    for item in a.take_outbox() {
        match item {
            Outbound::Forward { message, targets } => {
                assert_eq!(targets, vec![b.local_peer()]);
                let again = message.duplicate();
                if let Inbound::Delivered(received) = b.handle_inbound(&a.local_peer(), message) {
                    delivered.push(received);
                }
                assert_eq!(b.handle_inbound(&a.local_peer(), again), Inbound::Dropped(DropReason::Duplicate));
            }
            other => panic!("expected a message, got {:?}", other),
        }
    }
    assert_eq!(
        delivered,
        vec![MessageReceived { source_peer: a.local_peer(), message_id: id, payload: b"hello".to_vec() }]
    );
    assert_eq!(b.pending(), 0);
}

#[test]
fn scenario_publish_with_empty_mesh_is_no_peers() {
    let chat = topic("chat");
    let mut a = GossipMesh::new(NodeIdentity::generate().expect("a keypair"), Config::default());
    a.subscribe(chat.clone()).expect("configured");
    a.start().expect("configured");
    assert!(a.members(&chat).is_empty());
    assert_eq!(a.publish(&chat, b"hello".to_vec()), Err(PublishError::NoPeers));
    assert!(a.has_seen(message_id(&b"hello".to_vec())));
    assert_eq!(a.pending(), 0);
    assert!(a.take_outbox().is_empty());
}

#[test]
fn scenario_expired_peer_is_no_relay_target() {
    let mut node = node(ValidationMode::Author);
    assert_eq!(node.step(sighting(1, 100)), vec![Notice::PeerDiscovered(peer(1))]);
    assert_eq!(node.step(sighting(2, 120)), vec![Notice::PeerDiscovered(peer(2))]);
    assert!(node.mesh().has_peer(&peer(1)));
    assert_eq!(node.step(NodeEvent::Clock { now: 130 }), vec![Notice::PeerExpired(peer(1))]);
    assert!(!node.mesh().has_peer(&peer(1)));
    assert_eq!(node.mesh().members(&topic("chat")), vec![peer(2)]);
    assert_eq!(node.step(NodeEvent::Input(b"hello".to_vec())), Vec::<Notice>::new());
    match node.take_outbox().pop() {
        Some(Outbound::Forward { targets, .. }) => assert_eq!(targets, vec![peer(2)]),
        other => panic!("expected a message, got {:?}", other),
    }
    assert_eq!(node.step(NodeEvent::Clock { now: 150 }), vec![Notice::PeerExpired(peer(2))]);
    assert_eq!(
        node.step(NodeEvent::Input(b"anyone?".to_vec())),
        vec![Notice::PublishFailed(PublishError::NoPeers)]
    );
}

#[test]
fn departure_removes_peer_from_table_and_mesh() {
    let mut node = node(ValidationMode::Author);
    node.step(sighting(1, 100));
    node.step(sighting(2, 100));
    assert_eq!(node.step(NodeEvent::Departure { peer: peer(1) }), vec![Notice::PeerExpired(peer(1))]);
    assert_eq!(node.step(NodeEvent::Departure { peer: peer(1) }), Vec::<Notice>::new());
    assert_eq!(node.step(NodeEvent::Departure { peer: peer(7) }), Vec::<Notice>::new());
    assert_eq!(node.mesh().peers(), &vec![peer(2)]);
    assert_eq!(node.discovery().len(), 1);
    assert!(!node.discovery().knows(&peer(1)));
}

#[test]
fn checked_arrival_goes_by_the_verdict() {
    let mut node = node(ValidationMode::Strict);
    node.step(sighting(1, 100));
    let message = Message { topic: topic("chat"), payload: b"hi".to_vec(), publisher: peer(1), signature: None };
    assert_eq!(
        node.step(NodeEvent::Arrival { from: peer(1), message: message.duplicate() }),
        Vec::<Notice>::new()
    );
    assert_eq!(
        node.step(NodeEvent::Checked { from: peer(1), message: message.duplicate(), accepted: false }),
        Vec::<Notice>::new()
    );
    assert!(!node.mesh().has_seen(message.id()));
    assert_eq!(
        node.step(NodeEvent::Checked { from: peer(1), message: message.duplicate(), accepted: true }),
        vec![Notice::MessageReceived(MessageReceived {
            source_peer: peer(1),
            message_id: message.id(),
            payload: b"hi".to_vec(),
        })]
    );
    assert_eq!(
        node.step(NodeEvent::Checked { from: peer(1), message, accepted: true }),
        Vec::<Notice>::new()
    );
}

#[test]
fn report_shows_only_what_was_delivered() {
    let received = MessageReceived {
        source_peer: peer(1),
        message_id: message_id(&b"x".to_vec()),
        payload: b"x".to_vec(),
    };
    assert_eq!(
        Node::report(Inbound::Delivered(MessageReceived {
            source_peer: peer(1),
            message_id: message_id(&b"x".to_vec()),
            payload: b"x".to_vec(),
        })),
        vec![Notice::MessageReceived(received)]
    );
    assert_eq!(Node::report(Inbound::Dropped(DropReason::Duplicate)), Vec::<Notice>::new());
    assert_eq!(Node::report(Inbound::Dropped(DropReason::InvalidSignature)), Vec::<Notice>::new());
    assert_eq!(Node::report(Inbound::Dropped(DropReason::NotSubscribed)), Vec::<Notice>::new());
}
