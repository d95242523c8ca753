//! Peer identifiers and what discovery records about a peer.

use vstd::prelude::*;
use crate::bytes::{bytes_equal, copy_bytes};
use crate::roster::{with_items, Member, Roster};

verus! {

/// The identifier of a node: the bytes derived from its public key.
#[derive(Debug, PartialEq, Eq, Hash)]
pub struct PeerId {
    bytes: Vec<u8>,
}

impl View for PeerId {
    type V = Seq<u8>;

    closed spec fn view(&self) -> Seq<u8> {
        self.bytes@
    }
}

impl DeepView for PeerId {
    type V = Seq<u8>;

    open spec fn deep_view(&self) -> Seq<u8> {
        self@
    }
}

impl PeerId {
    /// The identifier with these bytes.
    pub fn from_bytes(bytes: Vec<u8>) -> (id: PeerId)
        ensures
            id@ == bytes@,
    {
        PeerId { bytes }
    }

    /// The bytes of the identifier.
    pub fn as_bytes(&self) -> (bytes: &Vec<u8>)
        ensures
            bytes@ == self@,
    {
        &self.bytes
    }
}

impl Clone for PeerId {
    fn clone(&self) -> (copy: PeerId)
        ensures
            copy@ == self@,
    {
        PeerId { bytes: copy_bytes(&self.bytes) }
    }
}

impl Member for PeerId {
    fn same(&self, other: &PeerId) -> (same: bool) {
        bytes_equal(&self.bytes, &other.bytes)
    }

    fn duplicate(&self) -> (copy: PeerId) {
        PeerId { bytes: copy_bytes(&self.bytes) }
    }
}

/// A network address at which a peer can be reached, as bytes.
#[derive(Debug, PartialEq, Eq, Hash)]
pub struct Address {
    bytes: Vec<u8>,
}

impl View for Address {
    type V = Seq<u8>;

    closed spec fn view(&self) -> Seq<u8> {
        self.bytes@
    }
}

impl DeepView for Address {
    type V = Seq<u8>;

    open spec fn deep_view(&self) -> Seq<u8> {
        self@
    }
}

impl Address {
    /// The address with these bytes.
    pub fn from_bytes(bytes: Vec<u8>) -> (address: Address)
        ensures
            address@ == bytes@,
    {
        Address { bytes }
    }

    /// The bytes of the address.
    pub fn as_bytes(&self) -> (bytes: &Vec<u8>)
        ensures
            bytes@ == self@,
    {
        &self.bytes
    }
}

impl Member for Address {
    fn same(&self, other: &Address) -> (same: bool) {
        bytes_equal(&self.bytes, &other.bytes)
    }

    fn duplicate(&self) -> (copy: Address) {
        Address { bytes: copy_bytes(&self.bytes) }
    }
}

impl Clone for Address {
    fn clone(&self) -> (copy: Address)
        ensures
            copy@ == self@,
    {
        Address { bytes: copy_bytes(&self.bytes) }
    }
}

/// What a record of a peer holds.
pub struct PeerRecordView {
    pub peer: Seq<u8>,
    pub addresses: Seq<Seq<u8>>,
    pub last_seen: u64,
}

/// The record of a peer that is first seen at `now` with these addresses:
/// each address once, in the order given.
pub open spec fn first_record(peer: Seq<u8>, addresses: Seq<Seq<u8>>, now: u64) -> PeerRecordView {
    PeerRecordView { peer, addresses: with_items(Seq::empty(), addresses), last_seen: now }
}

/// The record after the peer was seen again at `now` with these addresses:
/// the new addresses join the known ones, and the later time stands.
pub open spec fn refreshed_record(record: PeerRecordView, addresses: Seq<Seq<u8>>, now: u64) -> PeerRecordView {
    PeerRecordView {
        peer: record.peer,
        addresses: with_items(record.addresses, addresses),
        last_seen: if now > record.last_seen { now } else { record.last_seen },
    }
}

/// What discovery knows of a peer: its identifier, the addresses it was seen
/// at, and when it was last seen.
#[derive(Debug)]
pub struct PeerRecord {
    peer: PeerId,
    addresses: Roster<Address>,
    last_seen: u64,
}

impl View for PeerRecord {
    type V = PeerRecordView;

    closed spec fn view(&self) -> PeerRecordView {
        PeerRecordView { peer: self.peer@, addresses: self.addresses@, last_seen: self.last_seen }
    }
}

impl PeerRecord {
    /// No address is recorded twice.
    pub open spec fn wf(&self) -> bool {
        self@.addresses.no_duplicates()
    }

    /// The record of a peer first seen at `now`.
    pub fn first(peer: PeerId, addresses: &Vec<Address>, now: u64) -> (record: PeerRecord)
        ensures
            record.wf(),
            record@ == first_record(peer@, crate::roster::views(addresses@), now),
    {
        let mut known: Roster<Address> = Roster::new();
        known.absorb(addresses);
        PeerRecord { peer, addresses: known, last_seen: now }
    }

    /// Takes note that the peer was seen again at `now`.
    pub fn refresh(&mut self, addresses: &Vec<Address>, now: u64)
        requires
            old(self).wf(),
        ensures
            final(self).wf(),
            final(self)@ == refreshed_record(old(self)@, crate::roster::views(addresses@), now),
    {
        self.addresses.absorb(addresses);
        if now > self.last_seen {
            self.last_seen = now;
        }
    }

    /// The peer.
    pub fn peer(&self) -> (peer: &PeerId)
        ensures
            peer@ == self@.peer,
    {
        &self.peer
    }

    /// The addresses the peer was seen at, each once.
    pub fn addresses(&self) -> (addresses: &Vec<Address>)
        ensures
            crate::roster::views(addresses@) == self@.addresses,
    {
        self.addresses.items()
    }

    /// When the peer was last seen.
    pub fn last_seen(&self) -> (time: u64)
        ensures
            time == self@.last_seen,
    {
        self.last_seen
    }

    /// A copy of the record.
    pub fn duplicate(&self) -> (copy: PeerRecord)
        ensures
            copy@ == self@,
    {
        PeerRecord {
            peer: self.peer.duplicate(),
            addresses: self.addresses.duplicate(),
            last_seen: self.last_seen,
        }
    }
}

} // verus!
