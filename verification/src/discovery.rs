//! The table of peers seen on the local network. A peer enters the table
//! when it is first seen, is refreshed each time it is seen again, and leaves
//! when it has not been seen for the time to live.

use vstd::prelude::*;
use crate::peer::{first_record, refreshed_record, Address, PeerId, PeerRecord, PeerRecordView};
use crate::roster::{views, Member};

verus! {

broadcast use vstd::seq_lib::group_seq_properties;

/// What discovery reports.
#[derive(Debug)]
pub enum DiscoveryEvent {
    /// A peer was seen that was not in the table.
    PeerDiscovered(PeerRecord),
    /// A peer was not seen again in time and has left the table.
    PeerExpired(PeerId),
}

/// What a report holds.
pub enum DiscoveryEventView {
    PeerDiscovered(PeerRecordView),
    PeerExpired(Seq<u8>),
}

impl View for DiscoveryEvent {
    type V = DiscoveryEventView;

    open spec fn view(&self) -> DiscoveryEventView {
        match self {
            DiscoveryEvent::PeerDiscovered(record) => DiscoveryEventView::PeerDiscovered(record@),
            DiscoveryEvent::PeerExpired(peer) => DiscoveryEventView::PeerExpired(peer@),
        }
    }
}

impl DeepView for DiscoveryEvent {
    type V = DiscoveryEventView;

    open spec fn deep_view(&self) -> DiscoveryEventView {
        self@
    }
}

/// The peer of a record.
pub open spec fn peer_of() -> spec_fn(PeerRecordView) -> Seq<u8> {
    |record: PeerRecordView| record.peer
}

/// The peers of a table, in the order in which they entered.
pub open spec fn known_peers(table: Seq<PeerRecordView>) -> Seq<Seq<u8>> {
    table.map_values(peer_of())
}

/// Whether a record has run out at `now`: the peer was last seen `ttl` or
/// more ago.
pub open spec fn expired_at(now: u64, ttl: u64) -> spec_fn(PeerRecordView) -> bool {
    |record: PeerRecordView| record.last_seen + ttl <= now
}

/// Whether a record still stands at `now`.
pub open spec fn live_at(now: u64, ttl: u64) -> spec_fn(PeerRecordView) -> bool {
    |record: PeerRecordView| record.last_seen + ttl > now
}

/// Whether a record is of another peer than `peer`.
pub open spec fn of_other_than(peer: Seq<u8>) -> spec_fn(PeerRecordView) -> bool {
    |record: PeerRecordView| record.peer != peer
}

/// The report that forgetting `peer` gives.
pub open spec fn departure_report(table: Seq<PeerRecordView>, peer: Seq<u8>) -> Option<DiscoveryEventView> {
    if known_peers(table).contains(peer) {
        Some(DiscoveryEventView::PeerExpired(peer))
    } else {
        None
    }
}

/// What seeing `peer` again does to a record: it refreshes the record of
/// `peer` and leaves every other as it is.
pub open spec fn seen_again(peer: Seq<u8>, addresses: Seq<Seq<u8>>, now: u64) -> spec_fn(PeerRecordView) -> PeerRecordView {
    |record: PeerRecordView|
        if record.peer == peer {
            refreshed_record(record, addresses, now)
        } else {
            record
        }
}

/// The table after `peer` was seen at `now`.
pub open spec fn after_sighting(table: Seq<PeerRecordView>, peer: Seq<u8>, addresses: Seq<Seq<u8>>, now: u64) -> Seq<PeerRecordView> {
    if known_peers(table).contains(peer) {
        table.map_values(seen_again(peer, addresses, now))
    } else {
        table.push(first_record(peer, addresses, now))
    }
}

/// The report that a sighting of `peer` gives.
pub open spec fn sighting_report(table: Seq<PeerRecordView>, peer: Seq<u8>, addresses: Seq<Seq<u8>>, now: u64) -> Option<DiscoveryEventView> {
    if known_peers(table).contains(peer) {
        None
    } else {
        Some(DiscoveryEventView::PeerDiscovered(first_record(peer, addresses, now)))
    }
}

/// The reports that the passing of time to `now` gives: one for each record
/// that has run out, in the order of the table.
pub open spec fn expiry_reports(table: Seq<PeerRecordView>, now: u64, ttl: u64) -> Seq<DiscoveryEventView> {
    table.filter(expired_at(now, ttl)).map_values(|record: PeerRecordView| DiscoveryEventView::PeerExpired(record.peer))
}

/// No peer has two records, and no record holds an address twice.
pub open spec fn table_wf(table: Seq<PeerRecordView>) -> bool {
    &&& known_peers(table).no_duplicates()
    &&& forall|i: int| 0 <= i < table.len() ==> (#[trigger] table[i]).addresses.no_duplicates()
}

/// The views of a list of records.
pub open spec fn record_views(records: Seq<PeerRecord>) -> Seq<PeerRecordView> {
    records.map_values(|record: PeerRecord| record@)
}

/// The views of a list of reports.
pub open spec fn event_views(events: Seq<DiscoveryEvent>) -> Seq<DiscoveryEventView> {
    events.map_values(|event: DiscoveryEvent| event@)
}

proof fn lemma_remove_keeps_wf(table: Seq<PeerRecordView>, at: int)
    requires
        table_wf(table),
        0 <= at < table.len(),
    ensures
        table_wf(table.remove(at)),
{
    let rest = table.remove(at);
    table.remove_ensures(at);
    assert forall|i: int, j: int| 0 <= i < rest.len() && 0 <= j < rest.len() && i != j
        implies known_peers(rest)[i] != known_peers(rest)[j] by {
        let a = if i < at { i } else { i + 1 };
        let b = if j < at { j } else { j + 1 };
        assert(known_peers(table)[a] != known_peers(table)[b]);
    }
    assert forall|i: int| 0 <= i < rest.len() implies (#[trigger] rest[i]).addresses.no_duplicates() by {
        let a = if i < at { i } else { i + 1 };
        assert(table[a].addresses.no_duplicates());
    }
}

proof fn lemma_remove_is_forgetting(table: Seq<PeerRecordView>, at: int)
    requires
        known_peers(table).no_duplicates(),
        0 <= at < table.len(),
    ensures
        table.remove(at) == table.filter(of_other_than(table[at].peer)),
    decreases table.len(),
{
    let peer = table[at].peer;
    let front = table.drop_last();
    let last = table.last();
    assert(front.push(last) =~= table);
    front.lemma_filter_push(last, of_other_than(peer));
    assert(known_peers(front) =~= known_peers(table).drop_last());
    if at == table.len() - 1 {
        assert forall|k: int| 0 <= k < known_peers(front).len() implies known_peers(front)[k] != peer by {
            assert(known_peers(table)[k] != known_peers(table)[at]);
        }
        lemma_unknown_is_not_forgotten(front, peer);
        assert(table.remove(at) =~= front);
    } else {
        assert(front[at].peer == peer);
        lemma_remove_is_forgetting(front, at);
        assert(known_peers(table)[table.len() - 1] != known_peers(table)[at]);
        assert(table.remove(at) =~= front.remove(at).push(last));
    }
}

proof fn lemma_unknown_is_not_forgotten(table: Seq<PeerRecordView>, peer: Seq<u8>)
    requires
        !known_peers(table).contains(peer),
    ensures
        table.filter(of_other_than(peer)) == table,
    decreases table.len(),
{
    if table.len() == 0 {
        reveal(Seq::filter);
    } else {
        let front = table.drop_last();
        let last = table.last();
        assert(front.push(last) =~= table);
        front.lemma_filter_push(last, of_other_than(peer));
        assert(known_peers(table)[table.len() - 1] == last.peer);
        assert forall|k: int| 0 <= k < known_peers(front).len() implies known_peers(front)[k] != peer by {
            assert(known_peers(table)[k] == known_peers(front)[k]);
        }
        lemma_unknown_is_not_forgotten(front, peer);
    }
}

/// The live view of the peers on the local network.
#[derive(Debug)]
pub struct Discovery {
    ttl: u64,
    records: Vec<PeerRecord>,
}

impl View for Discovery {
    type V = Seq<PeerRecordView>;

    /// The records, in the order in which the peers entered.
    closed spec fn view(&self) -> Seq<PeerRecordView> {
        record_views(self.records@)
    }
}

impl Discovery {
    /// The time that a peer stays in the table without being seen.
    pub closed spec fn spec_ttl(&self) -> u64 {
        self.ttl
    }

    /// The peers in the table.
    pub open spec fn known(&self) -> Seq<Seq<u8>> {
        known_peers(self@)
    }

    /// No peer has two records, and no record holds an address twice.
    pub open spec fn wf(&self) -> bool {
        table_wf(self@)
    }

    /// An empty table with this time to live.
    pub fn new(ttl: u64) -> (discovery: Discovery)
        ensures
            discovery.wf(),
            discovery@ == Seq::<PeerRecordView>::empty(),
            discovery.spec_ttl() == ttl,
    {
        let discovery = Discovery { ttl, records: Vec::new() };
        assert(discovery@ =~= Seq::<PeerRecordView>::empty());
        discovery
    }

    /// The time that a peer stays in the table without being seen.
    pub fn ttl(&self) -> (ttl: u64)
        ensures
            ttl == self.spec_ttl(),
    {
        self.ttl
    }

    /// The number of peers in the table.
    pub fn len(&self) -> (len: usize)
        ensures
            len == self@.len(),
    {
        self.records.len()
    }

    /// The records, in the order in which the peers entered.
    pub fn records(&self) -> (records: &Vec<PeerRecord>)
        ensures
            record_views(records@) == self@,
    {
        &self.records
    }

    /// The place of the record of `peer`, if it has one.
    pub fn position(&self, peer: &PeerId) -> (at: Option<usize>)
        ensures
            match at {
                Some(at) => at < self@.len() && self@[at as int].peer == peer@,
                None => !self.known().contains(peer@),
            },
    {
        let mut i: usize = 0;
        while i < self.records.len()
            invariant
                i <= self.records.len(),
                forall|k: int| 0 <= k < i ==> self@[k].peer != peer@,
            decreases self.records.len() - i,
        {
            if self.records[i].peer().same(peer) {
                return Some(i);
            }
            i += 1;
        }
        assert forall|k: int| 0 <= k < self.known().len() implies self.known()[k] != peer@ by {
            assert(self@[k].peer != peer@);
        }
        None
    }

    /// Whether `peer` is in the table.
    pub fn knows(&self, peer: &PeerId) -> (known: bool)
        ensures
            known == self.known().contains(peer@),
    {
        match self.position(peer) {
            Some(at) => {
                assert(self.known()[at as int] == peer@);
                true
            },
            None => false,
        }
    }

    /// Takes note that `peer` was seen at `now` with these addresses. A peer
    /// that was not in the table enters it and is reported as discovered; for
    /// one that was, the record is refreshed and nothing is reported.
    pub fn observe(&mut self, peer: PeerId, addresses: &Vec<Address>, now: u64) -> (event: Option<DiscoveryEvent>)
        requires
            old(self).wf(),
        ensures
            final(self).wf(),
            final(self).spec_ttl() == old(self).spec_ttl(),
            final(self)@ == after_sighting(old(self)@, peer@, views(addresses@), now),
            event.deep_view() == sighting_report(old(self)@, peer@, views(addresses@), now),
    {
        match self.position(&peer) {
            Some(at) => {
                let ghost before = self@;
                assert(self.known()[at as int] == peer@);
                self.records[at].refresh(addresses, now);
                proof {
                    let after = before.map_values(seen_again(peer@, views(addresses@), now));
                    assert(self@.len() == before.len());
                    assert forall|k: int| 0 <= k < before.len() implies self@[k] == after[k] by {
                        if k != at {
                            assert(known_peers(before)[k] != known_peers(before)[at as int]);
                        }
                    }
                    assert(self@ =~= after);
                    assert(known_peers(self@) =~= known_peers(before));
                }
                None
            },
            None => {
                let record = PeerRecord::first(peer, addresses, now);
                let reported = record.duplicate();
                proof {
                    let after = self@.push(record@);
                    assert(record_views(self.records@.push(record)) =~= after);
                    assert(known_peers(after) =~= known_peers(self@).push(record@.peer));
                    assert forall|i: int, j: int| 0 <= i < after.len() && 0 <= j < after.len() && i != j
                        implies known_peers(after)[i] != known_peers(after)[j] by {
                        if i < self@.len() {
                            assert(known_peers(self@)[i] == known_peers(after)[i]);
                        }
                        if j < self@.len() {
                            assert(known_peers(self@)[j] == known_peers(after)[j]);
                        }
                    }
                }
                self.records.push(record);
                Some(DiscoveryEvent::PeerDiscovered(reported))
            },
        }
    }

    /// Takes `peer` out of the table before its time has run out, and
    /// reports it as expired if it was in the table.
    pub fn forget(&mut self, peer: &PeerId) -> (event: Option<DiscoveryEvent>)
        requires
            old(self).wf(),
        ensures
            final(self).wf(),
            final(self).spec_ttl() == old(self).spec_ttl(),
            final(self)@ == old(self)@.filter(of_other_than(peer@)),
            event.deep_view() == departure_report(old(self)@, peer@),
    {
        match self.position(peer) {
            Some(at) => {
                proof {
                    assert(self.known()[at as int] == peer@);
                    lemma_remove_keeps_wf(self@, at as int);
                    lemma_remove_is_forgetting(self@, at as int);
                    assert(record_views(self.records@.remove(at as int)) =~= self@.remove(at as int));
                }
                let record = self.records.remove(at);
                Some(DiscoveryEvent::PeerExpired(record.peer().duplicate()))
            },
            None => {
                proof {
                    lemma_unknown_is_not_forgotten(self@, peer@);
                }
                None
            },
        }
    }

    /// Lets time pass to `now`: every peer last seen the time to live or more
    /// ago leaves the table and is reported as expired.
    pub fn expire(&mut self, now: u64) -> (events: Vec<DiscoveryEvent>)
        requires
            old(self).wf(),
        ensures
            final(self).wf(),
            final(self).spec_ttl() == old(self).spec_ttl(),
            final(self)@ == old(self)@.filter(live_at(now, old(self).spec_ttl())),
            event_views(events@) == expiry_reports(old(self)@, now, old(self).spec_ttl()),
    {
        let ghost before = self@;
        let ghost ttl = self.ttl;
        let mut events: Vec<DiscoveryEvent> = Vec::new();
        let mut i: usize = 0;
        proof {
            reveal(Seq::filter);
            assert(before.take(0).filter(live_at(now, ttl)) =~= Seq::<PeerRecordView>::empty());
            assert(before.take(0).filter(expired_at(now, ttl)) =~= Seq::<PeerRecordView>::empty());
            assert(event_views(events@) =~= expiry_reports(before.take(0), now, ttl));
            assert(self@ =~= before.take(0).filter(live_at(now, ttl)) + before.skip(0));
        }
        while i < self.records.len()
            invariant
                self.wf(),
                self.ttl == ttl,
                i <= self.records.len(),
                i + events@.len() <= before.len(),
                i == before.take(i + events@.len()).filter(live_at(now, ttl)).len(),
                self@ == before.take(i + events@.len()).filter(live_at(now, ttl)) + before.skip(i + events@.len()),
                event_views(events@) == expiry_reports(before.take(i + events@.len()), now, ttl),
            decreases self.records.len() - i,
        {
            let ghost done = i + events@.len();
            let ghost live = before.take(done).filter(live_at(now, ttl));
            proof {
                assert(self@.len() == live.len() + before.skip(done).len());
                assert(self@[i as int] == before.skip(done)[0]);
                assert(before.skip(done)[0] == before[done]);
                before.lemma_take_succ_push(done);
                before.take(done).lemma_filter_push(before[done], live_at(now, ttl));
                before.take(done).lemma_filter_push(before[done], expired_at(now, ttl));
            }
            let last_seen = self.records[i].last_seen();
            if now >= last_seen && now - last_seen >= self.ttl {
                proof {
                    lemma_remove_keeps_wf(self@, i as int);
                    assert(record_views(self.records@.remove(i as int)) =~= self@.remove(i as int));
                    assert(self@.remove(i as int) =~= live + before.skip(done + 1));
                }
                let record = self.records.remove(i);
                let event = DiscoveryEvent::PeerExpired(record.peer().duplicate());
                proof {
                    let gone = before.take(done).filter(expired_at(now, ttl));
                    let report = |record: PeerRecordView| DiscoveryEventView::PeerExpired(record.peer);
                    assert(gone.push(before[done]).map_values(report) =~= gone.map_values(report).push(event@));
                    assert(event_views(events@.push(event)) =~= event_views(events@).push(event@));
                }
                events.push(event);
            } else {
                proof {
                    assert(self@ =~= live.push(before[done]) + before.skip(done + 1));
                }
                i += 1;
            }
        }
        proof {
            let done = i + events@.len();
            assert(done == before.len()) by {
                assert(self@.len() == i + before.skip(done).len());
            }
            assert(before.take(done) =~= before);
            assert(self@ =~= before.filter(live_at(now, ttl)));
        }
        events
    }
}

} // verus!
