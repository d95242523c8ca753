//! The gossip mesh: topic subscriptions, the peers that messages are
//! forwarded to, validation and deduplication of what arrives, and the
//! periodic heartbeat.
//!
//! The mesh never sends anything itself. Each operation is a step from one
//! state to the next that may add to the outbox; the program around the
//! library takes the outbox and puts it on the network.

use vstd::prelude::*;
use crate::discovery::{DiscoveryEvent, DiscoveryEventView, event_views};
use crate::identity::{signature_of, signed_by, verify_signature, NodeIdentity};
use crate::message::{message_id, optional_signature, spec_message_id, Message, MessageId, MessageView, Signature, Topic};
use crate::peer::PeerId;
use crate::roster::{views, with_item, without_item, Member, Roster};
use crate::seen::{aged, SeenMessageCache};

verus! {

broadcast use vstd::seq_lib::group_seq_properties;

/// What proof of authorship an arriving message must carry.
#[derive(Clone, Copy, Debug, PartialEq, Eq)]
pub enum ValidationMode {
    /// Messages are signed by their publisher. One that arrives without a
    /// signature, or with one that does not verify for the publisher it
    /// names, is dropped.
    Strict,
    /// Messages name their publisher and carry no proof of it.
    Author,
}

/// The settings of a mesh. They are chosen when the mesh is made and never
/// change.
#[derive(Clone, Copy, Debug, PartialEq, Eq)]
pub struct Config {
    /// The time between two heartbeats. It must not be zero.
    pub heartbeat_interval: u64,
    /// The number of heartbeats for which a message is remembered. It must
    /// not be zero.
    pub seen_window: u64,
    /// The validation mode.
    pub mode: ValidationMode,
}

/// Why a configuration is refused.
#[derive(Clone, Copy, Debug, PartialEq, Eq)]
pub enum ConfigError {
    /// The heartbeat interval is zero.
    HeartbeatInterval,
    /// The window of the record of seen messages is zero.
    SeenWindow,
    /// The mesh has a good configuration already, and keeps it.
    AlreadyConfigured,
}

/// What is wrong with a configuration, if anything.
pub open spec fn config_fault(config: Config) -> Option<ConfigError> {
    if config.heartbeat_interval == 0 {
        Some(ConfigError::HeartbeatInterval)
    } else if config.seen_window == 0 {
        Some(ConfigError::SeenWindow)
    } else {
        None
    }
}

impl Config {
    /// Checks the configuration.
    pub fn check(&self) -> (checked: Result<(), ConfigError>)
        ensures
            match checked {
                Ok(_) => config_fault(*self) is None,
                Err(fault) => config_fault(*self) == Some(fault),
            },
    {
        if self.heartbeat_interval == 0 {
            Err(ConfigError::HeartbeatInterval)
        } else if self.seen_window == 0 {
            Err(ConfigError::SeenWindow)
        } else {
            Ok(())
        }
    }
}

impl Default for Config {
    /// A heartbeat every ten units of time, six heartbeats of memory, signed
    /// messages.
    fn default() -> (config: Config)
        ensures
            config == (Config { heartbeat_interval: 10, seen_window: 6, mode: ValidationMode::Strict }),
    {
        Config { heartbeat_interval: 10, seen_window: 6, mode: ValidationMode::Strict }
    }
}

/// How far a mesh has come. It only ever moves forward.
#[derive(Clone, Copy, Debug, PartialEq, Eq)]
pub enum Phase {
    /// Made with a configuration that was refused.
    Uninitialized,
    /// Made with a good configuration, not started yet.
    Configured,
    /// Started.
    Running,
}

/// The place of a phase in the order of phases.
pub open spec fn phase_rank(phase: Phase) -> nat {
    match phase {
        Phase::Uninitialized => 0,
        Phase::Configured => 1,
        Phase::Running => 2,
    }
}

/// Why a message was not published.
#[derive(Clone, Copy, Debug, PartialEq, Eq)]
pub enum PublishError {
    /// The topic has no mesh member. The message is on record as seen, and
    /// nothing was queued for sending.
    NoPeers,
    /// The node's keypair could not sign the payload. Nothing changed.
    SigningFailed,
}

/// Why an arriving message was dropped.
#[derive(Clone, Copy, Debug, PartialEq, Eq)]
pub enum DropReason {
    /// The message does not carry the proof of authorship that the
    /// validation mode asks for.
    InvalidSignature,
    /// The message was seen before.
    Duplicate,
    /// The node is not subscribed to the topic of the message.
    NotSubscribed,
}

/// A message handed to the application.
#[derive(Debug, PartialEq, Eq)]
pub struct MessageReceived {
    /// The peer that the message came from.
    pub source_peer: PeerId,
    /// The identifier of the message.
    pub message_id: MessageId,
    /// The payload.
    pub payload: Vec<u8>,
}

/// What became of an arriving message.
#[derive(Debug, PartialEq, Eq)]
pub enum Inbound {
    /// It was new and acceptable: the application gets it.
    Delivered(MessageReceived),
    /// It was dropped, and the application hears nothing of it.
    Dropped(DropReason),
}

/// What an outcome holds.
pub enum InboundView {
    Delivered { source_peer: Seq<u8>, message_id: u64, payload: Seq<u8> },
    Dropped(DropReason),
}

impl View for Inbound {
    type V = InboundView;

    open spec fn view(&self) -> InboundView {
        match self {
            Inbound::Delivered(received) => InboundView::Delivered {
                source_peer: received.source_peer@,
                message_id: received.message_id@,
                payload: received.payload@,
            },
            Inbound::Dropped(reason) => InboundView::Dropped(*reason),
        }
    }
}

/// Something for the network to carry.
#[derive(Debug, PartialEq, Eq)]
pub enum Outbound {
    /// A message, to be sent to each of the targets.
    Forward { message: Message, targets: Vec<PeerId> },
    /// The topics this node is subscribed to, to be told to each of the
    /// targets.
    Announce { topics: Vec<Topic>, targets: Vec<PeerId> },
}

/// What an item of the outbox holds.
pub enum OutboundView {
    Forward { message: MessageView, targets: Seq<Seq<u8>> },
    Announce { topics: Seq<Seq<char>>, targets: Seq<Seq<u8>> },
}

impl View for Outbound {
    type V = OutboundView;

    open spec fn view(&self) -> OutboundView {
        match self {
            Outbound::Forward { message, targets } => OutboundView::Forward { message: message@, targets: views(targets@) },
            Outbound::Announce { topics, targets } => OutboundView::Announce { topics: views(topics@), targets: views(targets@) },
        }
    }
}

/// The views of the items of an outbox.
pub open spec fn outbound_views(outbox: Seq<Outbound>) -> Seq<OutboundView> {
    outbox.map_values(|item: Outbound| item@)
}

/// The state of a mesh.
pub struct MeshView {
    /// How far the mesh has come.
    pub phase: Phase,
    /// The settings.
    pub config: Config,
    /// The node's encoded keypair.
    pub secret: Seq<u8>,
    /// The node's encoded public key.
    pub public_key: Seq<u8>,
    /// The node's identifier.
    pub peer: Seq<u8>,
    /// The topics subscribed to, in the order in which they were added.
    pub subscriptions: Seq<Seq<char>>,
    /// The peers that messages are forwarded to, in the order in which they
    /// were added.
    pub peers: Seq<Seq<u8>>,
    /// The messages seen, each with the heartbeats left to its record.
    pub seen: Map<u64, u64>,
    /// What waits to be sent, oldest first.
    pub outbox: Seq<OutboundView>,
}

/// What must hold of the state of a mesh: no topic and no peer is listed
/// twice, and the mesh is uninitialized exactly if its configuration is at
/// fault, in which case it has no subscription.
pub open spec fn mesh_wf(s: MeshView) -> bool {
    &&& s.subscriptions.no_duplicates()
    &&& s.peers.no_duplicates()
    &&& s.phase is Uninitialized <==> config_fault(s.config) is Some
    &&& s.phase is Uninitialized ==> s.subscriptions.len() == 0
}

/// The state of a new mesh.
pub open spec fn initial_mesh(secret: Seq<u8>, public_key: Seq<u8>, peer: Seq<u8>, config: Config) -> MeshView {
    MeshView {
        phase: if config_fault(config) is Some { Phase::Uninitialized } else { Phase::Configured },
        config,
        secret,
        public_key,
        peer,
        subscriptions: Seq::empty(),
        peers: Seq::empty(),
        seen: Map::empty(),
        outbox: Seq::empty(),
    }
}

/// The mesh members of a topic: every peer of the mesh where the node is
/// subscribed to the topic, and none where it is not.
pub open spec fn mesh_members(s: MeshView, topic: Seq<char>) -> Seq<Seq<u8>> {
    if s.subscriptions.contains(topic) {
        s.peers
    } else {
        Seq::empty()
    }
}

/// The record of seen messages once `id` was noted: a message on record
/// keeps the time it has, a new one gets the whole window.
pub open spec fn noted(seen: Map<u64, u64>, id: u64, window: u64) -> Map<u64, u64> {
    if seen.contains_key(id) {
        seen
    } else {
        seen.insert(id, window)
    }
}

/// The outbox with `message` queued for `targets`, where there is a target.
pub open spec fn queue_forward(outbox: Seq<OutboundView>, message: MessageView, targets: Seq<Seq<u8>>) -> Seq<OutboundView> {
    if targets.len() == 0 {
        outbox
    } else {
        outbox.push(OutboundView::Forward { message, targets })
    }
}

/// The outbox with the subscriptions queued for `targets`, where there is a
/// subscription and a target.
pub open spec fn queue_announce(outbox: Seq<OutboundView>, topics: Seq<Seq<char>>, targets: Seq<Seq<u8>>) -> Seq<OutboundView> {
    if topics.len() == 0 || targets.len() == 0 {
        outbox
    } else {
        outbox.push(OutboundView::Announce { topics, targets })
    }
}

/// The state after `configure`: an uninitialized mesh takes a good
/// configuration and is configured; nothing else changes anything.
pub open spec fn after_configure(s: MeshView, config: Config) -> MeshView {
    if s.phase is Uninitialized && config_fault(config) is None {
        MeshView { phase: Phase::Configured, config, ..s }
    } else {
        s
    }
}

/// What `configure` returns.
pub open spec fn configure_result(s: MeshView, config: Config) -> Result<(), ConfigError> {
    if !(s.phase is Uninitialized) {
        Err(ConfigError::AlreadyConfigured)
    } else {
        match config_fault(config) {
            Some(fault) => Err(fault),
            None => Ok(()),
        }
    }
}

/// The state after `start`.
pub open spec fn after_start(s: MeshView) -> MeshView {
    if s.phase is Configured {
        MeshView { phase: Phase::Running, ..s }
    } else {
        s
    }
}

/// The state after `subscribe`.
pub open spec fn after_subscribe(s: MeshView, topic: Seq<char>) -> MeshView {
    if s.phase is Uninitialized {
        s
    } else {
        MeshView { subscriptions: with_item(s.subscriptions, topic), ..s }
    }
}

/// What `subscribe` returns: whether the topic is new, or what is wrong with
/// the configuration.
pub open spec fn subscribe_result(s: MeshView, topic: Seq<char>) -> Result<bool, ConfigError> {
    match config_fault(s.config) {
        Some(fault) => Err(fault),
        None => Ok(!s.subscriptions.contains(topic)),
    }
}

/// The state after `add_peer`.
pub open spec fn after_add_peer(s: MeshView, peer: Seq<u8>) -> MeshView {
    MeshView { peers: with_item(s.peers, peer), ..s }
}

/// The state after `remove_peer`.
pub open spec fn after_remove_peer(s: MeshView, peer: Seq<u8>) -> MeshView {
    MeshView { peers: without_item(s.peers, peer), ..s }
}

/// The state after this node's message with this payload and signature went
/// out on `topic`: the message is on record, and it is queued for the mesh
/// members of the topic.
pub open spec fn after_dispatch(s: MeshView, topic: Seq<char>, payload: Seq<u8>, signature: Option<(Seq<u8>, Seq<u8>)>) -> MeshView {
    MeshView {
        seen: noted(s.seen, spec_message_id(payload), s.config.seen_window),
        outbox: queue_forward(
            s.outbox,
            MessageView { topic, payload, publisher: s.peer, signature },
            mesh_members(s, topic),
        ),
        ..s
    }
}

/// What sending on `topic` returns.
pub open spec fn dispatch_result(s: MeshView, topic: Seq<char>, payload: Seq<u8>) -> Result<u64, PublishError> {
    if mesh_members(s, topic).len() == 0 {
        Err(PublishError::NoPeers)
    } else {
        Ok(spec_message_id(payload))
    }
}

/// The signature that goes with this node's message: none in author mode,
/// its own in strict mode. The outer `None` says that the node's keypair
/// cannot sign.
pub open spec fn own_signature(s: MeshView, payload: Seq<u8>) -> Option<Option<(Seq<u8>, Seq<u8>)>> {
    match s.config.mode {
        ValidationMode::Author => Some(None),
        ValidationMode::Strict => match signature_of(s.secret, payload) {
            Some(bytes) => Some(Some((s.public_key, bytes))),
            None => None,
        },
    }
}

/// The state after `publish`.
pub open spec fn after_publish(s: MeshView, topic: Seq<char>, payload: Seq<u8>) -> MeshView {
    match own_signature(s, payload) {
        Some(signature) => after_dispatch(s, topic, payload, signature),
        None => s,
    }
}

/// What `publish` returns.
pub open spec fn publish_result(s: MeshView, topic: Seq<char>, payload: Seq<u8>) -> Result<u64, PublishError> {
    match own_signature(s, payload) {
        Some(_) => dispatch_result(s, topic, payload),
        None => Err(PublishError::SigningFailed),
    }
}

/// Whether a message carries what the validation mode asks for.
pub open spec fn acceptable(mode: ValidationMode, message: MessageView) -> bool {
    match mode {
        ValidationMode::Author => true,
        ValidationMode::Strict => match message.signature {
            Some((key, bytes)) => signed_by(message.publisher, message.payload, key, bytes),
            None => false,
        },
    }
}

/// What becomes of a message that arrived from `from` and was found
/// acceptable or not.
pub open spec fn receipt_outcome(s: MeshView, from: Seq<u8>, message: MessageView, accepted: bool) -> InboundView {
    if !accepted {
        InboundView::Dropped(DropReason::InvalidSignature)
    } else if s.seen.contains_key(spec_message_id(message.payload)) {
        InboundView::Dropped(DropReason::Duplicate)
    } else if !s.subscriptions.contains(message.topic) {
        InboundView::Dropped(DropReason::NotSubscribed)
    } else {
        InboundView::Delivered {
            source_peer: from,
            message_id: spec_message_id(message.payload),
            payload: message.payload,
        }
    }
}

/// The state after a message arrived from `from` and was found acceptable
/// or not. A message that is not acceptable, or was seen before, changes
/// nothing. A new one goes on record; where the node is subscribed to its
/// topic, it is queued for every mesh member but the sender.
pub open spec fn after_receipt(s: MeshView, from: Seq<u8>, message: MessageView, accepted: bool) -> MeshView {
    if !accepted || s.seen.contains_key(spec_message_id(message.payload)) {
        s
    } else {
        MeshView {
            seen: s.seen.insert(spec_message_id(message.payload), s.config.seen_window),
            outbox: queue_forward(s.outbox, message, without_item(mesh_members(s, message.topic), from)),
            ..s
        }
    }
}

/// What becomes of a message that arrived from `from`.
pub open spec fn inbound_outcome(s: MeshView, from: Seq<u8>, message: MessageView) -> InboundView {
    receipt_outcome(s, from, message, acceptable(s.config.mode, message))
}

/// The state after a message arrived from `from`.
pub open spec fn after_inbound(s: MeshView, from: Seq<u8>, message: MessageView) -> MeshView {
    after_receipt(s, from, message, acceptable(s.config.mode, message))
}

/// The state after a heartbeat: the record of seen messages has aged, and
/// the subscriptions are queued for every peer of the mesh.
pub open spec fn after_heartbeat(s: MeshView) -> MeshView {
    MeshView { seen: aged(s.seen), outbox: queue_announce(s.outbox, s.subscriptions, s.peers), ..s }
}

/// The peers of the mesh after a report of discovery: a discovered peer
/// enters, an expired one leaves.
pub open spec fn peers_after_event(peers: Seq<Seq<u8>>, event: DiscoveryEventView) -> Seq<Seq<u8>> {
    match event {
        DiscoveryEventView::PeerDiscovered(record) => with_item(peers, record.peer),
        DiscoveryEventView::PeerExpired(peer) => without_item(peers, peer),
    }
}

/// The peers of the mesh after a run of reports of discovery, taken in
/// order.
pub open spec fn peers_after_events(peers: Seq<Seq<u8>>, events: Seq<DiscoveryEventView>) -> Seq<Seq<u8>>
    decreases events.len(),
{
    if events.len() == 0 {
        peers
    } else {
        peers_after_event(peers_after_events(peers, events.drop_last()), events.last())
    }
}

/// What `publish` returned, by the digest of the identifier.
pub open spec fn published(result: Result<MessageId, PublishError>) -> Result<u64, PublishError> {
    match result {
        Ok(id) => Ok(id@),
        Err(error) => Err(error),
    }
}

/// One node's part in the gossip mesh.
#[derive(Debug)]
pub struct GossipMesh {
    identity: NodeIdentity,
    config: Config,
    phase: Phase,
    subscriptions: Roster<Topic>,
    peers: Roster<PeerId>,
    seen: SeenMessageCache,
    outbox: Vec<Outbound>,
}

impl View for GossipMesh {
    type V = MeshView;

    closed spec fn view(&self) -> MeshView {
        MeshView {
            phase: self.phase,
            config: self.config,
            secret: self.identity.secret(),
            public_key: self.identity.public_key(),
            peer: self.identity.peer(),
            subscriptions: self.subscriptions@,
            peers: self.peers@,
            seen: self.seen@,
            outbox: outbound_views(self.outbox@),
        }
    }
}

impl GossipMesh {
    /// The record of seen messages is in order.
    pub closed spec fn record_wf(&self) -> bool {
        self.seen.wf()
    }

    /// The mesh is in order.
    pub open spec fn wf(&self) -> bool {
        &&& self.record_wf()
        &&& mesh_wf(self@)
    }

    /// A mesh for the node with this identity. With a good configuration it
    /// is configured; with one at fault it stays uninitialized.
    pub fn new(identity: NodeIdentity, config: Config) -> (mesh: GossipMesh)
        ensures
            mesh.wf(),
            mesh@ == initial_mesh(identity.secret(), identity.public_key(), identity.peer(), config),
    {
        let phase = match config.check() {
            Ok(_) => Phase::Configured,
            Err(_) => Phase::Uninitialized,
        };
        let mesh = GossipMesh {
            identity,
            config,
            phase,
            subscriptions: Roster::new(),
            peers: Roster::new(),
            seen: SeenMessageCache::new(),
            outbox: Vec::new(),
        };
        assert(mesh@.outbox =~= Seq::<OutboundView>::empty());
        mesh
    }

    /// How far the mesh has come.
    pub fn phase(&self) -> (phase: Phase)
        ensures
            phase == self@.phase,
    {
        self.phase
    }

    /// The settings.
    pub fn config(&self) -> (config: Config)
        ensures
            config == self@.config,
    {
        self.config
    }

    /// The validation mode.
    pub fn mode(&self) -> (mode: ValidationMode)
        ensures
            mode == self@.config.mode,
    {
        self.config.mode
    }

    /// The identifier of this node.
    pub fn local_peer(&self) -> (peer: PeerId)
        ensures
            peer@ == self@.peer,
    {
        self.identity.public_id()
    }

    /// The topics subscribed to.
    pub fn subscriptions(&self) -> (topics: &Vec<Topic>)
        ensures
            views(topics@) == self@.subscriptions,
    {
        self.subscriptions.items()
    }

    /// The peers of the mesh.
    pub fn peers(&self) -> (peers: &Vec<PeerId>)
        ensures
            views(peers@) == self@.peers,
    {
        self.peers.items()
    }

    /// Whether the node is subscribed to the topic.
    pub fn is_subscribed(&self, topic: &Topic) -> (subscribed: bool)
        ensures
            subscribed == self@.subscriptions.contains(topic@),
    {
        self.subscriptions.contains(topic)
    }

    /// Whether the peer is in the mesh.
    pub fn has_peer(&self, peer: &PeerId) -> (present: bool)
        ensures
            present == self@.peers.contains(peer@),
    {
        self.peers.contains(peer)
    }

    /// Whether the message is on record as seen.
    pub fn has_seen(&self, id: MessageId) -> (seen: bool)
        ensures
            seen == self@.seen.contains_key(id@),
    {
        self.seen.contains(id)
    }

    /// The number of items that wait to be sent.
    pub fn pending(&self) -> (pending: usize)
        ensures
            pending == self@.outbox.len(),
    {
        self.outbox.len()
    }

    /// The mesh members of a topic.
    pub fn members(&self, topic: &Topic) -> (members: Vec<PeerId>)
        ensures
            views(members@) == mesh_members(self@, topic@),
    {
        if self.subscriptions.contains(topic) {
            let copy = self.peers.duplicate();
            copy.into_items()
        } else {
            let none: Vec<PeerId> = Vec::new();
            assert(views(none@) =~= Seq::<Seq<u8>>::empty());
            none
        }
    }

    /// Gives an uninitialized mesh a configuration. A good one makes the
    /// mesh configured; one at fault is refused and changes nothing. A mesh
    /// that is configured keeps the configuration it has.
    pub fn configure(&mut self, config: Config) -> (configured: Result<(), ConfigError>)
        requires
            old(self).wf(),
        ensures
            final(self).wf(),
            final(self)@ == after_configure(old(self)@, config),
            configured == configure_result(old(self)@, config),
    {
        match self.phase {
            Phase::Uninitialized => match config.check() {
                Ok(_) => {
                    self.config = config;
                    self.phase = Phase::Configured;
                    Ok(())
                },
                Err(fault) => Err(fault),
            },
            _ => Err(ConfigError::AlreadyConfigured),
        }
    }

    /// Starts the mesh. The first call on a configured mesh makes it
    /// running; later calls change nothing. An uninitialized mesh cannot
    /// start.
    pub fn start(&mut self) -> (started: Result<(), ConfigError>)
        requires
            old(self).wf(),
        ensures
            final(self).wf(),
            final(self)@ == after_start(old(self)@),
            match started {
                Ok(_) => config_fault(old(self)@.config) is None,
                Err(fault) => config_fault(old(self)@.config) == Some(fault),
            },
    {
        match self.phase {
            Phase::Uninitialized => self.config.check(),
            Phase::Configured => {
                self.phase = Phase::Running;
                Ok(())
            },
            Phase::Running => Ok(()),
        }
    }

    /// Subscribes to a topic, and says whether the subscription is new. An
    /// uninitialized mesh takes no subscription: it returns what is wrong
    /// with its configuration.
    pub fn subscribe(&mut self, topic: Topic) -> (subscribed: Result<bool, ConfigError>)
        requires
            old(self).wf(),
        ensures
            final(self).wf(),
            final(self)@ == after_subscribe(old(self)@, topic@),
            subscribed == subscribe_result(old(self)@, topic@),
    {
        match self.config.check() {
            Err(fault) => Err(fault),
            Ok(_) => {
                let added = self.subscriptions.insert(topic);
                Ok(added)
            },
        }
    }

    /// Adds a peer to the mesh, and says whether it was added. Adding a peer
    /// that is in the mesh changes nothing.
    pub fn add_peer(&mut self, peer: PeerId) -> (added: bool)
        requires
            old(self).wf(),
        ensures
            final(self).wf(),
            final(self)@ == after_add_peer(old(self)@, peer@),
            added == !old(self)@.peers.contains(peer@),
    {
        self.peers.insert(peer)
    }

    /// Takes a peer out of the mesh, and says whether it was in it. Removing
    /// a peer that is not in the mesh changes nothing.
    pub fn remove_peer(&mut self, peer: &PeerId) -> (removed: bool)
        requires
            old(self).wf(),
        ensures
            final(self).wf(),
            final(self)@ == after_remove_peer(old(self)@, peer@),
            removed == old(self)@.peers.contains(peer@),
    {
        self.peers.remove(peer)
    }

    /// Follows a run of reports of discovery: each discovered peer is added
    /// to the mesh and each expired one removed, in the order of the reports.
    pub fn follow(&mut self, events: &Vec<DiscoveryEvent>)
        requires
            old(self).wf(),
        ensures
            final(self).wf(),
            final(self)@ == (MeshView { peers: peers_after_events(old(self)@.peers, event_views(events@)), ..old(self)@ }),
    {
        let mut i: usize = 0;
        while i < events.len()
            invariant
                i <= events.len(),
                self.wf(),
                self@ == (MeshView { peers: peers_after_events(old(self)@.peers, event_views(events@).take(i as int)), ..old(self)@ }),
            decreases events.len() - i,
        {
            proof {
                let all = event_views(events@);
                assert(all.take(i as int + 1).drop_last() =~= all.take(i as int));
                assert(all.take(i as int + 1).last() == events@[i as int]@);
            }
            match &events[i] {
                DiscoveryEvent::PeerDiscovered(record) => {
                    self.add_peer(record.peer().duplicate());
                },
                DiscoveryEvent::PeerExpired(peer) => {
                    self.remove_peer(peer);
                },
            }
            i += 1;
        }
        proof {
            assert(event_views(events@).take(events@.len() as int) =~= event_views(events@));
        }
    }

    /// Sends this node's message with this payload and signature on a
    /// topic: puts it on record as seen and queues it for the mesh members of
    /// the topic. Where the topic has no mesh member the message is on record
    /// all the same, nothing is queued, and `NoPeers` comes back.
    pub fn dispatch(&mut self, topic: &Topic, payload: Vec<u8>, signature: Option<Signature>) -> (sent: Result<MessageId, PublishError>)
        requires
            old(self).wf(),
        ensures
            final(self).wf(),
            final(self)@ == after_dispatch(old(self)@, topic@, payload@, optional_signature(signature)),
            published(sent) == dispatch_result(old(self)@, topic@, payload@),
    {
        let id = message_id(&payload);
        self.seen.observe(id, self.config.seen_window);
        let targets = self.members(topic);
        if targets.len() == 0 {
            return Err(PublishError::NoPeers);
        }
        let message = Message { topic: topic.duplicate(), payload, publisher: self.identity.public_id(), signature };
        let item = Outbound::Forward { message, targets };
        proof {
            assert(outbound_views(self.outbox@.push(item)) =~= outbound_views(self.outbox@).push(item@));
        }
        self.outbox.push(item);
        Ok(id)
    }

    /// Publishes a payload on a topic. In strict mode the payload is signed
    /// with the node's keypair first; where that fails nothing changes and
    /// `SigningFailed` comes back. The message is then put on record as seen
    /// and queued for the mesh members of the topic. Where the topic has no
    /// mesh member the message is on record all the same, nothing is queued,
    /// and `NoPeers` comes back.
    pub fn publish(&mut self, topic: &Topic, payload: Vec<u8>) -> (sent: Result<MessageId, PublishError>)
        requires
            old(self).wf(),
        ensures
            final(self).wf(),
            final(self)@ == after_publish(old(self)@, topic@, payload@),
            published(sent) == publish_result(old(self)@, topic@, payload@),
    {
        match self.config.mode {
            ValidationMode::Author => self.dispatch(topic, payload, None),
            ValidationMode::Strict => match self.identity.sign(&payload) {
                Some(signature) => self.dispatch(topic, payload, Some(signature)),
                None => Err(PublishError::SigningFailed),
            },
        }
    }

    /// Whether a message carries what the validation mode asks for.
    pub fn accepts(&self, message: &Message) -> (accepted: bool)
        ensures
            accepted == acceptable(self@.config.mode, message@),
    {
        match self.config.mode {
            ValidationMode::Author => true,
            ValidationMode::Strict => match &message.signature {
                Some(signature) => verify_signature(&message.publisher, &message.payload, signature),
                None => false,
            },
        }
    }

    /// Takes in a message that arrived from `from` and was found acceptable
    /// or not. One that is not acceptable, or was seen before, is dropped and
    /// changes nothing. A new one goes on record. Where the node is
    /// subscribed to its topic it is handed to the application and queued
    /// for every mesh member of the topic but the sender; where not, it is
    /// dropped.
    pub fn receive(&mut self, from: &PeerId, message: Message, accepted: bool) -> (outcome: Inbound)
        requires
            old(self).wf(),
        ensures
            final(self).wf(),
            final(self)@ == after_receipt(old(self)@, from@, message@, accepted),
            outcome@ == receipt_outcome(old(self)@, from@, message@, accepted),
    {
        if !accepted {
            return Inbound::Dropped(DropReason::InvalidSignature);
        }
        let id = message.id();
        if !self.seen.observe(id, self.config.seen_window) {
            return Inbound::Dropped(DropReason::Duplicate);
        }
        if !self.subscriptions.contains(&message.topic) {
            proof {
                lemma_nothing_without(from@);
            }
            return Inbound::Dropped(DropReason::NotSubscribed);
        }
        let received = MessageReceived {
            source_peer: from.duplicate(),
            message_id: id,
            payload: crate::bytes::copy_bytes(&message.payload),
        };
        let rest = self.peers.except(from);
        let targets = rest.into_items();
        if targets.len() > 0 {
            let item = Outbound::Forward { message, targets };
            proof {
                assert(outbound_views(self.outbox@.push(item)) =~= outbound_views(self.outbox@).push(item@));
            }
            self.outbox.push(item);
        }
        Inbound::Delivered(received)
    }

    /// Takes in a message that arrived from `from`: checks it against the
    /// validation mode, and goes on as `receive` does.
    pub fn handle_inbound(&mut self, from: &PeerId, message: Message) -> (outcome: Inbound)
        requires
            old(self).wf(),
        ensures
            final(self).wf(),
            final(self)@ == after_inbound(old(self)@, from@, message@),
            outcome@ == inbound_outcome(old(self)@, from@, message@),
    {
        let accepted = self.accepts(&message);
        self.receive(from, message, accepted)
    }

    /// One heartbeat: the record of seen messages ages, and the
    /// subscriptions are queued for every peer of the mesh. Returns the
    /// number of messages forgotten.
    pub fn heartbeat(&mut self) -> (forgotten: usize)
        requires
            old(self).wf(),
        ensures
            final(self).wf(),
            final(self)@ == after_heartbeat(old(self)@),
            old(self)@.seen.dom().finite(),
            forgotten == old(self)@.seen.dom().len() - final(self)@.seen.dom().len(),
    {
        let forgotten = self.seen.tick();
        if self.subscriptions.len() > 0 && self.peers.len() > 0 {
            let topics = self.subscriptions.duplicate().into_items();
            let targets = self.peers.duplicate().into_items();
            let item = Outbound::Announce { topics, targets };
            proof {
                assert(outbound_views(self.outbox@.push(item)) =~= outbound_views(self.outbox@).push(item@));
            }
            self.outbox.push(item);
        }
        forgotten
    }

    /// Hands over what waits to be sent, oldest first, and empties the
    /// outbox.
    pub fn take_outbox(&mut self) -> (outbox: Vec<Outbound>)
        requires
            old(self).wf(),
        ensures
            final(self).wf(),
            final(self)@ == (MeshView { outbox: Seq::empty(), ..old(self)@ }),
            outbound_views(outbox@) == old(self)@.outbox,
    {
        let mut outbox: Vec<Outbound> = Vec::new();
        std::mem::swap(&mut self.outbox, &mut outbox);
        assert(outbound_views(self.outbox@) =~= Seq::<OutboundView>::empty());
        outbox
    }
}

proof fn lemma_nothing_without(peer: Seq<u8>)
    ensures
        without_item(Seq::<Seq<u8>>::empty(), peer) == Seq::<Seq<u8>>::empty(),
{
    reveal(Seq::filter);
}

} // verus!
