//! What holds of the protocol whatever the inputs: stated over the same
//! functions of the state that the operations' own contracts use.

use vstd::prelude::*;
use crate::discovery::DiscoveryEventView;
use crate::mesh::{
    acceptable, after_add_peer, after_configure, after_heartbeat, after_inbound, after_publish, after_remove_peer,
    after_start, after_subscribe, config_fault, inbound_outcome, mesh_wf, peers_after_events, phase_rank,
    publish_result, Config, DropReason, InboundView, MeshView, Phase, PublishError, ValidationMode,
};
use crate::message::{spec_message_id, MessageView};
use crate::roster::{lemma_with_item, lemma_without_item};

verus! {

/// The identifier of a message is a function of its payload: computed
/// twice, it is the same.
pub proof fn lemma_message_id_deterministic(first: Seq<u8>, second: Seq<u8>)
    requires
        first == second,
    ensures
        spec_message_id(first) == spec_message_id(second),
{
}

/// A message that arrives a second time is dropped, whoever brings it: the
/// application does not get it again, and nothing is queued for it. And the
/// first arrival is handed to the application only if the message was new,
/// acceptable and on a subscribed topic.
pub proof fn lemma_second_arrival_dropped(s: MeshView, first_from: Seq<u8>, second_from: Seq<u8>, message: MessageView)
    ensures
        inbound_outcome(after_inbound(s, first_from, message), second_from, message) is Dropped,
        after_inbound(after_inbound(s, first_from, message), second_from, message) == after_inbound(s, first_from, message),
        inbound_outcome(s, first_from, message) is Delivered <==> {
            &&& acceptable(s.config.mode, message)
            &&& !s.seen.contains_key(spec_message_id(message.payload))
            &&& s.subscriptions.contains(message.topic)
        },
{
}

/// A message that this node has published is dropped when a copy of it
/// comes back, whether or not the topic had a mesh member.
pub proof fn lemma_own_message_dropped(s: MeshView, topic: Seq<char>, payload: Seq<u8>, from: Seq<u8>, message: MessageView)
    requires
        message.payload == payload,
        publish_result(s, topic, payload) != Err::<u64, PublishError>(PublishError::SigningFailed),
    ensures
        inbound_outcome(after_publish(s, topic, payload), from, message) is Dropped,
{
}

/// The state after a number of heartbeats.
pub open spec fn after_heartbeats(s: MeshView, beats: nat) -> MeshView
    decreases beats,
{
    if beats == 0 {
        s
    } else {
        after_heartbeat(after_heartbeats(s, (beats - 1) as nat))
    }
}

proof fn lemma_after_heartbeats(s: MeshView, beats: nat, id: u64)
    requires
        s.seen.contains_key(id),
        beats <= s.seen[id],
    ensures
        after_heartbeats(s, beats).config == s.config,
        after_heartbeats(s, beats).subscriptions == s.subscriptions,
        after_heartbeats(s, beats).seen.contains_key(id),
        after_heartbeats(s, beats).seen[id] == s.seen[id] - beats,
    decreases beats,
{
    if beats > 0 {
        lemma_after_heartbeats(s, (beats - 1) as nat, id);
    }
}

/// A message that was new when it arrived is still known as many
/// heartbeats later as the window is long: a copy that arrives within the
/// window is dropped.
pub proof fn lemma_duplicate_within_window(s: MeshView, first_from: Seq<u8>, second_from: Seq<u8>, message: MessageView, beats: nat)
    requires
        acceptable(s.config.mode, message),
        !s.seen.contains_key(spec_message_id(message.payload)),
        beats <= s.config.seen_window,
    ensures
        inbound_outcome(after_heartbeats(after_inbound(s, first_from, message), beats), second_from, message)
            == InboundView::Dropped(DropReason::Duplicate),
{
    lemma_after_heartbeats(after_inbound(s, first_from, message), beats, spec_message_id(message.payload));
}

/// In strict mode a message without a signature, or with one that does not
/// verify for the publisher it names, is dropped and changes nothing: the
/// application does not get it, and nothing is queued for it.
pub proof fn lemma_strict_rejection(s: MeshView, from: Seq<u8>, message: MessageView)
    requires
        s.config.mode is Strict,
        !acceptable(ValidationMode::Strict, message),
    ensures
        inbound_outcome(s, from, message) == InboundView::Dropped(DropReason::InvalidSignature),
        after_inbound(s, from, message) == s,
{
}

/// In strict mode a message without a signature is not acceptable.
pub proof fn lemma_unsigned_not_acceptable(message: MessageView)
    requires
        message.signature is None,
    ensures
        !acceptable(ValidationMode::Strict, message),
{
}

/// The peer that a report of discovery is about.
pub open spec fn event_peer(event: DiscoveryEventView) -> Seq<u8> {
    match event {
        DiscoveryEventView::PeerDiscovered(record) => record.peer,
        DiscoveryEventView::PeerExpired(peer) => peer,
    }
}

/// What the last report about `peer` says: `Some(true)` that it was
/// discovered, `Some(false)` that it expired, `None` where no report is
/// about it.
pub open spec fn last_report(events: Seq<DiscoveryEventView>, peer: Seq<u8>) -> Option<bool>
    decreases events.len(),
{
    if events.len() == 0 {
        None
    } else if event_peer(events.last()) == peer {
        Some(events.last() is PeerDiscovered)
    } else {
        last_report(events.drop_last(), peer)
    }
}

/// After any run of reports of discovery the mesh holds exactly the peers
/// whose last report says that they were discovered, and of the peers
/// without a report those that it held before. No peer is held twice.
pub proof fn lemma_membership_follows_discovery(peers: Seq<Seq<u8>>, events: Seq<DiscoveryEventView>)
    requires
        peers.no_duplicates(),
    ensures
        peers_after_events(peers, events).no_duplicates(),
        forall|peer: Seq<u8>| #[trigger]
            peers_after_events(peers, events).contains(peer) <==> match last_report(events, peer) {
                Some(discovered) => discovered,
                None => peers.contains(peer),
            },
    decreases events.len(),
{
    if events.len() > 0 {
        let before = peers_after_events(peers, events.drop_last());
        lemma_membership_follows_discovery(peers, events.drop_last());
        match events.last() {
            DiscoveryEventView::PeerDiscovered(record) => {
                lemma_with_item(before, record.peer);
            },
            DiscoveryEventView::PeerExpired(peer) => {
                lemma_without_item(before, peer);
            },
        }
        assert forall|peer: Seq<u8>| #[trigger]
            peers_after_events(peers, events).contains(peer) <==> match last_report(events, peer) {
                Some(discovered) => discovered,
                None => peers.contains(peer),
            } by {
            assert(before.contains(peer) <==> match last_report(events.drop_last(), peer) {
                Some(discovered) => discovered,
                None => peers.contains(peer),
            });
        }
    }
}

/// Started from an empty mesh, the peers are exactly those whose last
/// report says that they were discovered: a peer that expired, or was never
/// discovered, is not among them.
pub proof fn lemma_membership_exact(events: Seq<DiscoveryEventView>, peer: Seq<u8>)
    ensures
        peers_after_events(Seq::empty(), events).contains(peer) <==> last_report(events, peer) == Some(true),
{
    lemma_membership_follows_discovery(Seq::empty(), events);
    assert(peers_after_events(Seq::<Seq<u8>>::empty(), events).contains(peer) <==> match last_report(events, peer) {
        Some(discovered) => discovered,
        None => Seq::<Seq<u8>>::empty().contains(peer),
    });
}

/// Whether a step left the mesh in order, kept its identity, kept the
/// settings of a mesh that was configured, and did not move its phase back.
pub open spec fn orderly(before: MeshView, after: MeshView) -> bool {
    &&& mesh_wf(before) ==> mesh_wf(after)
    &&& !(before.phase is Uninitialized) ==> after.config == before.config
    &&& after.secret == before.secret
    &&& after.public_key == before.public_key
    &&& after.peer == before.peer
    &&& phase_rank(before.phase) <= phase_rank(after.phase)
}

/// No operation of the mesh disturbs its order, changes its identity or
/// moves its phase back, and none changes the settings (the validation mode
/// among them) of a mesh that is configured.
pub proof fn lemma_steps_orderly(s: MeshView, config: Config, topic: Seq<char>, payload: Seq<u8>, peer: Seq<u8>, message: MessageView)
    ensures
        orderly(s, after_configure(s, config)),
        orderly(s, after_start(s)),
        orderly(s, after_subscribe(s, topic)),
        orderly(s, after_add_peer(s, peer)),
        orderly(s, after_remove_peer(s, peer)),
        orderly(s, after_publish(s, topic, payload)),
        orderly(s, after_inbound(s, peer, message)),
        orderly(s, after_heartbeat(s)),
{
    if mesh_wf(s) {
        lemma_with_item(s.subscriptions, topic);
        lemma_with_item(s.peers, peer);
        lemma_without_item(s.peers, peer);
    }
}

/// The phases follow one another: a good configuration moves an
/// uninitialized mesh to configured and nothing else does, and `start` moves
/// a configured mesh to running and leaves every other where it is.
pub proof fn lemma_phases(s: MeshView, config: Config)
    ensures
        after_configure(s, config).phase == (if s.phase is Uninitialized && config_fault(config) is None {
            Phase::Configured
        } else {
            s.phase
        }),
        after_start(s).phase == (if s.phase is Configured { Phase::Running } else { s.phase }),
{
}

} // verus!
