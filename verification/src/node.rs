//! The decisions of a node's control loop. The loop outside waits for the
//! next line of input or the next event of the network, hands it in here as
//! one event, shows the notices that come back, and sends what the mesh has
//! queued.

use vstd::prelude::*;
use crate::discovery::{
    after_sighting, departure_report, event_views, expiry_reports, known_peers, live_at, of_other_than,
    sighting_report, Discovery, DiscoveryEvent, DiscoveryEventView,
};
use crate::identity::NodeIdentity;
use crate::mesh::{
    after_heartbeat, after_inbound, after_publish, after_receipt, after_start, after_subscribe, config_fault,
    inbound_outcome, initial_mesh, peers_after_events, publish_result, receipt_outcome, Config, ConfigError,
    GossipMesh, Inbound, InboundView, MeshView, MessageReceived, PublishError,
};
use crate::message::{Message, MessageView, Topic};
use crate::peer::{Address, PeerId, PeerRecordView};
use crate::roster::{views, with_item, Member, Roster};

verus! {

broadcast use vstd::seq_lib::group_seq_properties;

/// What can happen to a node.
#[derive(Debug)]
pub enum NodeEvent {
    /// A line of local input, to be published.
    Input(Vec<u8>),
    /// A peer announced itself on the local network.
    Sighting { peer: PeerId, addresses: Vec<Address>, now: u64 },
    /// The clock of discovery has come to `now`.
    Clock { now: u64 },
    /// A peer is known to have left the local network.
    Departure { peer: PeerId },
    /// The heartbeat of the mesh is due.
    Heartbeat,
    /// A message arrived from a peer.
    Arrival { from: PeerId, message: Message },
    /// A message arrived from a peer through a transport that has checked it
    /// against the validation mode itself, and found it acceptable or not.
    Checked { from: PeerId, message: Message, accepted: bool },
    /// The node now listens on an address.
    Listening { address: Address },
}

/// What an event holds.
pub enum NodeEventView {
    Input(Seq<u8>),
    Sighting { peer: Seq<u8>, addresses: Seq<Seq<u8>>, now: u64 },
    Clock { now: u64 },
    Departure { peer: Seq<u8> },
    Heartbeat,
    Arrival { from: Seq<u8>, message: MessageView },
    Checked { from: Seq<u8>, message: MessageView, accepted: bool },
    Listening { address: Seq<u8> },
}

impl View for NodeEvent {
    type V = NodeEventView;

    open spec fn view(&self) -> NodeEventView {
        match self {
            NodeEvent::Input(line) => NodeEventView::Input(line@),
            NodeEvent::Sighting { peer, addresses, now } => NodeEventView::Sighting {
                peer: peer@,
                addresses: views(addresses@),
                now: *now,
            },
            NodeEvent::Clock { now } => NodeEventView::Clock { now: *now },
            NodeEvent::Departure { peer } => NodeEventView::Departure { peer: peer@ },
            NodeEvent::Heartbeat => NodeEventView::Heartbeat,
            NodeEvent::Arrival { from, message } => NodeEventView::Arrival { from: from@, message: message@ },
            NodeEvent::Checked { from, message, accepted } => NodeEventView::Checked {
                from: from@,
                message: message@,
                accepted: *accepted,
            },
            NodeEvent::Listening { address } => NodeEventView::Listening { address: address@ },
        }
    }
}

/// Something for the loop to show.
#[derive(Debug, PartialEq, Eq)]
pub enum Notice {
    /// A line could not be published.
    PublishFailed(PublishError),
    /// A peer was discovered and has joined the mesh.
    PeerDiscovered(PeerId),
    /// A peer has expired and has left the mesh.
    PeerExpired(PeerId),
    /// A message arrived for the application.
    MessageReceived(MessageReceived),
    /// The node listens on an address.
    Listening(Address),
}

/// What a notice holds.
pub enum NoticeView {
    PublishFailed(PublishError),
    PeerDiscovered(Seq<u8>),
    PeerExpired(Seq<u8>),
    MessageReceived { source_peer: Seq<u8>, message_id: u64, payload: Seq<u8> },
    Listening(Seq<u8>),
}

impl View for Notice {
    type V = NoticeView;

    open spec fn view(&self) -> NoticeView {
        match self {
            Notice::PublishFailed(error) => NoticeView::PublishFailed(*error),
            Notice::PeerDiscovered(peer) => NoticeView::PeerDiscovered(peer@),
            Notice::PeerExpired(peer) => NoticeView::PeerExpired(peer@),
            Notice::MessageReceived(received) => NoticeView::MessageReceived {
                source_peer: received.source_peer@,
                message_id: received.message_id@,
                payload: received.payload@,
            },
            Notice::Listening(address) => NoticeView::Listening(address@),
        }
    }
}

/// The views of a list of notices.
pub open spec fn notice_views(notices: Seq<Notice>) -> Seq<NoticeView> {
    notices.map_values(|notice: Notice| notice@)
}

/// The state of a node.
pub struct NodeView {
    /// The topic that input is published on.
    pub topic: Seq<char>,
    /// The time that a peer stays known without being seen.
    pub ttl: u64,
    /// The addresses that the node listens on, each once.
    pub listening: Seq<Seq<u8>>,
    /// The table of discovery.
    pub table: Seq<PeerRecordView>,
    /// The mesh.
    pub mesh: MeshView,
}

/// The notice that a report of discovery gives.
pub open spec fn report_notice() -> spec_fn(DiscoveryEventView) -> NoticeView {
    |event: DiscoveryEventView|
        match event {
            DiscoveryEventView::PeerDiscovered(record) => NoticeView::PeerDiscovered(record.peer),
            DiscoveryEventView::PeerExpired(peer) => NoticeView::PeerExpired(peer),
        }
}

/// The reports of discovery that an event gives rise to.
pub open spec fn step_reports(s: NodeView, event: NodeEventView) -> Seq<DiscoveryEventView> {
    match event {
        NodeEventView::Sighting { peer, addresses, now } => match sighting_report(s.table, peer, addresses, now) {
            Some(report) => seq![report],
            None => Seq::empty(),
        },
        NodeEventView::Clock { now } => expiry_reports(s.table, now, s.ttl),
        NodeEventView::Departure { peer } => match departure_report(s.table, peer) {
            Some(report) => seq![report],
            None => Seq::empty(),
        },
        _ => Seq::empty(),
    }
}

/// The state of a node after an event.
pub open spec fn after_step(s: NodeView, event: NodeEventView) -> NodeView {
    match event {
        NodeEventView::Input(line) => NodeView { mesh: after_publish(s.mesh, s.topic, line), ..s },
        NodeEventView::Sighting { peer, addresses, now } => NodeView {
            table: after_sighting(s.table, peer, addresses, now),
            mesh: MeshView { peers: peers_after_events(s.mesh.peers, step_reports(s, event)), ..s.mesh },
            ..s
        },
        NodeEventView::Clock { now } => NodeView {
            table: s.table.filter(live_at(now, s.ttl)),
            mesh: MeshView { peers: peers_after_events(s.mesh.peers, step_reports(s, event)), ..s.mesh },
            ..s
        },
        NodeEventView::Departure { peer } => NodeView {
            table: s.table.filter(of_other_than(peer)),
            mesh: MeshView { peers: peers_after_events(s.mesh.peers, step_reports(s, event)), ..s.mesh },
            ..s
        },
        NodeEventView::Heartbeat => NodeView { mesh: after_heartbeat(s.mesh), ..s },
        NodeEventView::Arrival { from, message } => NodeView { mesh: after_inbound(s.mesh, from, message), ..s },
        NodeEventView::Checked { from, message, accepted } => NodeView {
            mesh: after_receipt(s.mesh, from, message, accepted),
            ..s
        },
        NodeEventView::Listening { address } => NodeView { listening: with_item(s.listening, address), ..s },
    }
}

/// The notice that the outcome of an arrival gives.
pub open spec fn outcome_notices(outcome: InboundView) -> Seq<NoticeView> {
    match outcome {
        InboundView::Delivered { source_peer, message_id, payload } => seq![
            NoticeView::MessageReceived { source_peer, message_id, payload },
        ],
        InboundView::Dropped(_) => Seq::empty(),
    }
}

/// The notices that an event gives, in order.
pub open spec fn step_notices(s: NodeView, event: NodeEventView) -> Seq<NoticeView> {
    match event {
        NodeEventView::Input(line) => match publish_result(s.mesh, s.topic, line) {
            Ok(_) => Seq::empty(),
            Err(error) => seq![NoticeView::PublishFailed(error)],
        },
        NodeEventView::Sighting { .. } => step_reports(s, event).map_values(report_notice()),
        NodeEventView::Clock { .. } => step_reports(s, event).map_values(report_notice()),
        NodeEventView::Departure { .. } => step_reports(s, event).map_values(report_notice()),
        NodeEventView::Heartbeat => Seq::empty(),
        NodeEventView::Arrival { from, message } => outcome_notices(inbound_outcome(s.mesh, from, message)),
        NodeEventView::Checked { from, message, accepted } => outcome_notices(
            receipt_outcome(s.mesh, from, message, accepted),
        ),
        NodeEventView::Listening { address } => seq![NoticeView::Listening(address)],
    }
}

/// The peers of the mesh are the peers that discovery knows: no more and no
/// fewer.
pub open spec fn members_are_known(s: NodeView) -> bool {
    forall|peer: Seq<u8>| s.mesh.peers.contains(peer) <==> #[trigger] known_peers(s.table).contains(peer)
}

/// The state of a new node.
pub open spec fn initial_node(secret: Seq<u8>, public_key: Seq<u8>, peer: Seq<u8>, config: Config, ttl: u64, topic: Seq<char>) -> NodeView {
    NodeView {
        topic,
        ttl,
        listening: Seq::empty(),
        table: Seq::empty(),
        mesh: after_start(after_subscribe(initial_mesh(secret, public_key, peer, config), topic)),
    }
}

/// Whether some record of the table is of `peer` and meets `pred`.
spec fn has_record(table: Seq<PeerRecordView>, pred: spec_fn(PeerRecordView) -> bool, peer: Seq<u8>) -> bool {
    exists|i: int| 0 <= i < table.len() && #[trigger] table[i].peer == peer && pred(table[i])
}

proof fn lemma_filtered_peers(table: Seq<PeerRecordView>, pred: spec_fn(PeerRecordView) -> bool, peer: Seq<u8>)
    ensures
        known_peers(table.filter(pred)).contains(peer) <==> has_record(table, pred, peer),
    decreases table.len(),
{
    let kept = table.filter(pred);
    if table.len() == 0 {
        reveal(Seq::filter);
        assert(kept =~= table);
    } else {
        let front = table.drop_last();
        let last = table.last();
        assert(front.push(last) =~= table);
        front.lemma_filter_push(last, pred);
        lemma_filtered_peers(front, pred, peer);
        let kept_front = front.filter(pred);
        if known_peers(kept).contains(peer) {
            let i = choose|i: int| 0 <= i < known_peers(kept).len() && known_peers(kept)[i] == peer;
            if pred(last) && i == kept_front.len() {
                assert(table[table.len() - 1].peer == peer && pred(table[table.len() - 1]));
            } else {
                assert(known_peers(kept_front)[i] == peer);
                let j = choose|j: int| 0 <= j < front.len() && #[trigger] front[j].peer == peer && pred(front[j]);
                assert(table[j].peer == peer && pred(table[j]));
            }
        }
        if has_record(table, pred, peer) {
            let j = choose|j: int| 0 <= j < table.len() && #[trigger] table[j].peer == peer && pred(table[j]);
            if j < front.len() {
                assert(front[j].peer == peer && pred(front[j]));
                let i = choose|i: int| 0 <= i < known_peers(kept_front).len() && known_peers(kept_front)[i] == peer;
                assert(known_peers(kept)[i] == peer);
            } else {
                assert(known_peers(kept)[kept_front.len() as int] == peer);
            }
        }
    }
}

proof fn lemma_last_report_of_expiry(gone: Seq<PeerRecordView>, peer: Seq<u8>)
    ensures
        crate::laws::last_report(gone.map_values(|record: PeerRecordView| DiscoveryEventView::PeerExpired(record.peer)), peer)
            == (if known_peers(gone).contains(peer) { Some(false) } else { None::<bool> }),
    decreases gone.len(),
{
    let report = |record: PeerRecordView| DiscoveryEventView::PeerExpired(record.peer);
    let reports = gone.map_values(report);
    if gone.len() > 0 {
        let front = gone.drop_last();
        assert(reports.drop_last() =~= front.map_values(report));
        lemma_last_report_of_expiry(front, peer);
        if gone.last().peer == peer {
            assert(known_peers(gone)[gone.len() - 1] == peer);
        } else {
            if known_peers(front).contains(peer) {
                let i = choose|i: int| 0 <= i < known_peers(front).len() && known_peers(front)[i] == peer;
                assert(known_peers(gone)[i] == peer);
            }
            if known_peers(gone).contains(peer) {
                let i = choose|i: int| 0 <= i < known_peers(gone).len() && known_peers(gone)[i] == peer;
                assert(known_peers(front)[i] == peer);
            }
        }
    }
}

/// When time passes, the peers that leave the mesh are the peers that leave
/// the table.
proof fn lemma_expiry_keeps_members_known(s: NodeView, now: u64)
    requires
        crate::discovery::table_wf(s.table),
        s.mesh.peers.no_duplicates(),
        members_are_known(s),
    ensures
        members_are_known(after_step(s, NodeEventView::Clock { now })),
        after_step(s, NodeEventView::Clock { now }).mesh.peers.no_duplicates(),
{
    let after = after_step(s, NodeEventView::Clock { now });
    let reports = expiry_reports(s.table, now, s.ttl);
    crate::laws::lemma_membership_follows_discovery(s.mesh.peers, reports);
    assert forall|peer: Seq<u8>| after.mesh.peers.contains(peer) <==> #[trigger] known_peers(after.table).contains(peer) by {
        lemma_last_report_of_expiry(s.table.filter(crate::discovery::expired_at(now, s.ttl)), peer);
        lemma_filtered_peers(s.table, crate::discovery::expired_at(now, s.ttl), peer);
        lemma_filtered_peers(s.table, live_at(now, s.ttl), peer);
        assert(s.mesh.peers.contains(peer) <==> known_peers(s.table).contains(peer));
        if known_peers(s.table).contains(peer) {
            let i = choose|i: int| 0 <= i < known_peers(s.table).len() && known_peers(s.table)[i] == peer;
            assert(s.table[i].peer == peer);
            if has_record(s.table, crate::discovery::expired_at(now, s.ttl), peer) {
                let j = choose|j: int| 0 <= j < s.table.len() && #[trigger] s.table[j].peer == peer
                    && crate::discovery::expired_at(now, s.ttl)(s.table[j]);
                assert(known_peers(s.table)[j] == known_peers(s.table)[i]);
            }
            if has_record(s.table, live_at(now, s.ttl), peer) {
                let j = choose|j: int| 0 <= j < s.table.len() && #[trigger] s.table[j].peer == peer
                    && live_at(now, s.ttl)(s.table[j]);
                assert(known_peers(s.table)[j] == known_peers(s.table)[i]);
            }
        } else {
            if has_record(s.table, live_at(now, s.ttl), peer) {
                let j = choose|j: int| 0 <= j < s.table.len() && #[trigger] s.table[j].peer == peer
                    && live_at(now, s.ttl)(s.table[j]);
                assert(known_peers(s.table)[j] == peer);
            }
            if has_record(s.table, crate::discovery::expired_at(now, s.ttl), peer) {
                let j = choose|j: int| 0 <= j < s.table.len() && #[trigger] s.table[j].peer == peer
                    && crate::discovery::expired_at(now, s.ttl)(s.table[j]);
                assert(known_peers(s.table)[j] == peer);
            }
        }
    }
}

/// When a peer is sighted, it joins the mesh exactly if it joins the table.
proof fn lemma_sighting_keeps_members_known(s: NodeView, peer: Seq<u8>, addresses: Seq<Seq<u8>>, now: u64)
    requires
        s.mesh.peers.no_duplicates(),
        members_are_known(s),
    ensures
        members_are_known(after_step(s, NodeEventView::Sighting { peer, addresses, now })),
        after_step(s, NodeEventView::Sighting { peer, addresses, now }).mesh.peers.no_duplicates(),
{
    let event = NodeEventView::Sighting { peer, addresses, now };
    let after = after_step(s, event);
    let reports = step_reports(s, event);
    crate::laws::lemma_membership_follows_discovery(s.mesh.peers, reports);
    assert(s.mesh.peers.contains(peer) <==> known_peers(s.table).contains(peer));
    if known_peers(s.table).contains(peer) {
        assert(reports =~= Seq::<DiscoveryEventView>::empty());
        assert(known_peers(after.table) =~= known_peers(s.table));
    } else {
        assert(reports.drop_last() =~= Seq::<DiscoveryEventView>::empty());
        assert(peers_after_events(s.mesh.peers, reports.drop_last()) == s.mesh.peers);
        crate::roster::lemma_with_item(s.mesh.peers, peer);
        assert(known_peers(after.table) =~= known_peers(s.table).push(peer));
        assert forall|other: Seq<u8>| after.mesh.peers.contains(other) <==> #[trigger] known_peers(after.table).contains(other) by {
            assert(s.mesh.peers.contains(other) <==> known_peers(s.table).contains(other));
            if known_peers(s.table).contains(other) {
                let i = choose|i: int| 0 <= i < known_peers(s.table).len() && known_peers(s.table)[i] == other;
                assert(known_peers(after.table)[i] == other);
            }
            if known_peers(after.table).contains(other) {
                let i = choose|i: int| 0 <= i < known_peers(after.table).len() && known_peers(after.table)[i] == other;
                if i < known_peers(s.table).len() {
                    assert(known_peers(s.table)[i] == other);
                }
            }
            assert(known_peers(after.table)[known_peers(s.table).len() as int] == peer);
        }
    }
}

/// When a peer is known to have left, it leaves the mesh as it leaves the
/// table.
proof fn lemma_departure_keeps_members_known(s: NodeView, peer: Seq<u8>)
    requires
        s.mesh.peers.no_duplicates(),
        members_are_known(s),
    ensures
        members_are_known(after_step(s, NodeEventView::Departure { peer })),
        after_step(s, NodeEventView::Departure { peer }).mesh.peers.no_duplicates(),
{
    let event = NodeEventView::Departure { peer };
    let after = after_step(s, event);
    let reports = step_reports(s, event);
    crate::laws::lemma_membership_follows_discovery(s.mesh.peers, reports);
    assert(s.mesh.peers.contains(peer) <==> known_peers(s.table).contains(peer));
    if known_peers(s.table).contains(peer) {
        assert(reports.drop_last() =~= Seq::<DiscoveryEventView>::empty());
        assert(peers_after_events(s.mesh.peers, reports.drop_last()) == s.mesh.peers);
        crate::roster::lemma_without_item(s.mesh.peers, peer);
    } else {
        assert(reports =~= Seq::<DiscoveryEventView>::empty());
    }
    assert forall|other: Seq<u8>| after.mesh.peers.contains(other) <==> #[trigger] known_peers(after.table).contains(other) by {
        lemma_filtered_peers(s.table, of_other_than(peer), other);
        assert(s.mesh.peers.contains(other) <==> known_peers(s.table).contains(other));
        if known_peers(s.table).contains(other) && other != peer {
            let i = choose|i: int| 0 <= i < known_peers(s.table).len() && known_peers(s.table)[i] == other;
            assert(s.table[i].peer == other && of_other_than(peer)(s.table[i]));
        }
        if has_record(s.table, of_other_than(peer), other) {
            let j = choose|j: int| 0 <= j < s.table.len() && #[trigger] s.table[j].peer == other
                && of_other_than(peer)(s.table[j]);
            assert(known_peers(s.table)[j] == other);
        }
    }
}

/// Whatever happens to a node, the peers of its mesh stay exactly the peers
/// that discovery knows: a peer is in the mesh from the sighting that puts it
/// in the table until the tick of the clock that takes it out.
pub proof fn lemma_members_stay_known(s: NodeView, event: NodeEventView)
    requires
        crate::discovery::table_wf(s.table),
        s.mesh.peers.no_duplicates(),
        members_are_known(s),
    ensures
        members_are_known(after_step(s, event)),
        after_step(s, event).mesh.peers.no_duplicates(),
{
    match event {
        NodeEventView::Sighting { peer, addresses, now } => {
            lemma_sighting_keeps_members_known(s, peer, addresses, now);
        },
        NodeEventView::Clock { now } => {
            lemma_expiry_keeps_members_known(s, now);
        },
        NodeEventView::Departure { peer } => {
            lemma_departure_keeps_members_known(s, peer);
        },
        _ => {},
    }
}

/// A node: the table of discovery, the mesh, and the topic that the node
/// publishes on.
#[derive(Debug)]
pub struct Node {
    topic: Topic,
    listening: Roster<Address>,
    discovery: Discovery,
    mesh: GossipMesh,
}

impl View for Node {
    type V = NodeView;

    closed spec fn view(&self) -> NodeView {
        NodeView {
            topic: self.topic@,
            ttl: self.discovery.spec_ttl(),
            listening: self.listening@,
            table: self.discovery@,
            mesh: self.mesh@,
        }
    }
}

impl Node {
    /// The table and the mesh are each in order.
    pub closed spec fn parts_wf(&self) -> bool {
        &&& self.listening.wf()
        &&& self.discovery.wf()
        &&& self.mesh.wf()
    }

    /// The node is in order: its parts are, and the peers of the mesh are
    /// exactly the peers that discovery knows.
    pub open spec fn wf(&self) -> bool {
        &&& self.parts_wf()
        &&& members_are_known(self@)
    }

    /// A node with this identity that publishes on `topic`: subscribed to
    /// the topic and started, with no peer known yet. A configuration at
    /// fault is refused.
    pub fn new(identity: NodeIdentity, config: Config, ttl: u64, topic: Topic) -> (node: Result<Node, ConfigError>)
        ensures
            match node {
                Ok(node) => {
                    &&& config_fault(config) is None
                    &&& node.wf()
                    &&& node@ == initial_node(identity.secret(), identity.public_key(), identity.peer(), config, ttl, topic@)
                },
                Err(fault) => config_fault(config) == Some(fault),
            },
    {
        let mut mesh = GossipMesh::new(identity, config);
        match mesh.subscribe(topic.duplicate()) {
            Err(fault) => Err(fault),
            Ok(_) => {
                let _ = mesh.start();
                let node = Node { topic, listening: Roster::new(), discovery: Discovery::new(ttl), mesh };
                assert(known_peers(node@.table) =~= Seq::<Seq<u8>>::empty());
                Ok(node)
            },
        }
    }

    /// The topic that the node publishes on.
    pub fn topic(&self) -> (topic: &Topic)
        ensures
            topic@ == self@.topic,
    {
        &self.topic
    }

    /// The addresses that the node listens on.
    pub fn listening(&self) -> (addresses: &Vec<Address>)
        ensures
            views(addresses@) == self@.listening,
    {
        self.listening.items()
    }

    /// What this node announces of itself on the local network: the sighting
    /// that a peer makes of it at `now`, with the node's identifier and the
    /// addresses it listens on.
    pub fn presence(&self, now: u64) -> (sighting: NodeEvent)
        ensures
            sighting@ == (NodeEventView::Sighting { peer: self@.mesh.peer, addresses: self@.listening, now }),
    {
        NodeEvent::Sighting {
            peer: self.mesh.local_peer(),
            addresses: self.listening.duplicate().into_items(),
            now,
        }
    }

    /// The table of discovery.
    pub fn discovery(&self) -> (discovery: &Discovery)
        ensures
            discovery@ == self@.table,
            discovery.spec_ttl() == self@.ttl,
            self.wf() ==> discovery.wf(),
    {
        &self.discovery
    }

    /// The mesh.
    pub fn mesh(&self) -> (mesh: &GossipMesh)
        ensures
            mesh@ == self@.mesh,
            self.wf() ==> mesh.wf(),
    {
        &self.mesh
    }

    /// Hands over what the mesh has queued for sending, oldest first.
    pub fn take_outbox(&mut self) -> (outbox: Vec<crate::mesh::Outbound>)
        requires
            old(self).wf(),
        ensures
            final(self).wf(),
            final(self)@ == (NodeView { mesh: MeshView { outbox: Seq::empty(), ..old(self)@.mesh }, ..old(self)@ }),
            crate::mesh::outbound_views(outbox@) == old(self)@.mesh.outbox,
    {
        self.mesh.take_outbox()
    }

    /// The notices for a run of reports of discovery, one for each.
    pub fn announce(events: &Vec<DiscoveryEvent>) -> (notices: Vec<Notice>)
        ensures
            notice_views(notices@) == event_views(events@).map_values(report_notice()),
    {
        let mut notices: Vec<Notice> = Vec::new();
        let mut i: usize = 0;
        while i < events.len()
            invariant
                i <= events.len(),
                notice_views(notices@) =~= event_views(events@).take(i as int).map_values(report_notice()),
            decreases events.len() - i,
        {
            let notice = match &events[i] {
                DiscoveryEvent::PeerDiscovered(record) => Notice::PeerDiscovered(record.peer().duplicate()),
                DiscoveryEvent::PeerExpired(peer) => Notice::PeerExpired(peer.duplicate()),
            };
            proof {
                assert(notice_views(notices@.push(notice)) =~= notice_views(notices@).push(notice@));
            }
            notices.push(notice);
            i += 1;
        }
        proof {
            assert(event_views(events@).take(events@.len() as int) =~= event_views(events@));
        }
        notices
    }

    /// The notices for the outcome of an arrival: the message, where it was
    /// delivered.
    pub fn report(outcome: Inbound) -> (notices: Vec<Notice>)
        ensures
            notice_views(notices@) == outcome_notices(outcome@),
    {
        let mut notices: Vec<Notice> = Vec::new();
        match outcome {
            Inbound::Delivered(received) => {
                notices.push(Notice::MessageReceived(received));
            },
            Inbound::Dropped(_) => {},
        }
        assert(notice_views(notices@) =~= outcome_notices(outcome@));
        notices
    }

    /// Takes in one event: publishes a line of input, follows discovery,
    /// lets the heartbeat pass, or takes in a message. Returns what there is
    /// to show, in order. What there is to send is in the outbox of the mesh.
    pub fn step(&mut self, event: NodeEvent) -> (notices: Vec<Notice>)
        requires
            old(self).wf(),
        ensures
            final(self).wf(),
            final(self)@ == after_step(old(self)@, event@),
            notice_views(notices@) == step_notices(old(self)@, event@),
    {
        let mut notices: Vec<Notice> = Vec::new();
        match event {
            NodeEvent::Input(line) => {
                match self.mesh.publish(&self.topic, line) {
                    Ok(_) => {},
                    Err(error) => {
                        notices.push(Notice::PublishFailed(error));
                    },
                }
                assert(notice_views(notices@) =~= step_notices(old(self)@, event@));
            },
            NodeEvent::Sighting { peer, addresses, now } => {
                proof {
                    lemma_sighting_keeps_members_known(self@, peer@, views(addresses@), now);
                }
                let mut events: Vec<DiscoveryEvent> = Vec::new();
                match self.discovery.observe(peer, &addresses, now) {
                    Some(report) => {
                        events.push(report);
                    },
                    None => {},
                }
                assert(event_views(events@) =~= step_reports(old(self)@, event@));
                self.mesh.follow(&events);
                notices = Node::announce(&events);
            },
            NodeEvent::Clock { now } => {
                proof {
                    lemma_expiry_keeps_members_known(self@, now);
                }
                let events = self.discovery.expire(now);
                self.mesh.follow(&events);
                notices = Node::announce(&events);
            },
            NodeEvent::Departure { peer } => {
                proof {
                    lemma_departure_keeps_members_known(self@, peer@);
                }
                let mut events: Vec<DiscoveryEvent> = Vec::new();
                match self.discovery.forget(&peer) {
                    Some(report) => {
                        events.push(report);
                    },
                    None => {},
                }
                assert(event_views(events@) =~= step_reports(old(self)@, event@));
                self.mesh.follow(&events);
                notices = Node::announce(&events);
            },
            NodeEvent::Heartbeat => {
                self.mesh.heartbeat();
                assert(notice_views(notices@) =~= step_notices(old(self)@, event@));
            },
            NodeEvent::Arrival { from, message } => {
                notices = Node::report(self.mesh.handle_inbound(&from, message));
            },
            NodeEvent::Checked { from, message, accepted } => {
                notices = Node::report(self.mesh.receive(&from, message, accepted));
            },
            NodeEvent::Listening { address } => {
                notices.push(Notice::Listening(address.duplicate()));
                self.listening.insert(address);
                assert(notice_views(notices@) =~= step_notices(old(self)@, event@));
            },
        }
        notices
    }
}

} // verus!
