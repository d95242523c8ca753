//! The record of messages already seen, by which a second copy is told from
//! the first.

use vstd::prelude::*;
use crate::message::MessageId;

verus! {

/// One message that was seen, and the heartbeats that its record still has
/// to live.
#[derive(Clone, Copy, Debug)]
struct Seen {
    id: u64,
    remaining: u64,
}

/// The map that a list of records stands for.
spec fn recorded(entries: Seq<Seen>) -> Map<u64, u64>
    decreases entries.len(),
{
    if entries.len() == 0 {
        Map::empty()
    } else {
        recorded(entries.drop_last()).insert(entries.last().id, entries.last().remaining)
    }
}

/// No two records are of the same message.
spec fn distinct(entries: Seq<Seen>) -> bool {
    forall|i: int, j: int| 0 <= i < j < entries.len() ==> entries[i].id != entries[j].id
}

proof fn lemma_recorded_push(entries: Seq<Seen>, entry: Seen)
    ensures
        recorded(entries.push(entry)) == recorded(entries).insert(entry.id, entry.remaining),
{
    assert(entries.push(entry).drop_last() =~= entries);
}

proof fn lemma_recorded_keys(entries: Seq<Seen>, id: u64)
    ensures
        recorded(entries).contains_key(id) <==> exists|i: int| 0 <= i < entries.len() && entries[i].id == id,
    decreases entries.len(),
{
    if entries.len() > 0 {
        let front = entries.drop_last();
        lemma_recorded_keys(front, id);
        if recorded(entries).contains_key(id) {
            if entries.last().id == id {
                assert(entries[entries.len() - 1].id == id);
            } else {
                let i = choose|i: int| 0 <= i < front.len() && front[i].id == id;
                assert(entries[i].id == id);
            }
        }
        if exists|i: int| 0 <= i < entries.len() && entries[i].id == id {
            let i = choose|i: int| 0 <= i < entries.len() && entries[i].id == id;
            if i < entries.len() - 1 {
                assert(front[i].id == id);
            }
        }
    }
}

proof fn lemma_recorded_value(entries: Seq<Seen>, i: int)
    requires
        distinct(entries),
        0 <= i < entries.len(),
    ensures
        recorded(entries).contains_key(entries[i].id),
        recorded(entries)[entries[i].id] == entries[i].remaining,
    decreases entries.len(),
{
    let front = entries.drop_last();
    if i < entries.len() - 1 {
        assert(front[i] == entries[i]);
        lemma_recorded_value(front, i);
    }
}

proof fn lemma_recorded_size(entries: Seq<Seen>)
    requires
        distinct(entries),
    ensures
        recorded(entries).dom().finite(),
        recorded(entries).dom().len() == entries.len(),
    decreases entries.len(),
{
    if entries.len() > 0 {
        let front = entries.drop_last();
        lemma_recorded_size(front);
        lemma_recorded_keys(front, entries.last().id);
        assert(!recorded(front).contains_key(entries.last().id)) by {
            if recorded(front).contains_key(entries.last().id) {
                let i = choose|i: int| 0 <= i < front.len() && front[i].id == entries.last().id;
                assert(entries[i].id == entries[entries.len() - 1].id);
            }
        }
        assert(recorded(entries).dom() =~= recorded(front).dom().insert(entries.last().id));
    } else {
        assert(recorded(entries).dom() =~= Set::<u64>::empty());
    }
}

/// What a heartbeat leaves of the record: a message whose time has run out
/// is forgotten, and every other has one heartbeat less to live.
pub open spec fn aged(seen: Map<u64, u64>) -> Map<u64, u64> {
    Map::new(|id: u64| seen.contains_key(id) && seen[id] > 0, |id: u64| (seen[id] - 1) as u64)
}

/// The messages seen of late. A message enters when it is first seen and
/// stays for a set number of heartbeats, so the record is bounded by what
/// arrives within that window.
#[derive(Debug)]
pub struct SeenMessageCache {
    entries: Vec<Seen>,
}

impl View for SeenMessageCache {
    type V = Map<u64, u64>;

    /// Each message seen, by its digest, with the heartbeats left to it.
    closed spec fn view(&self) -> Map<u64, u64> {
        recorded(self.entries@)
    }
}

impl SeenMessageCache {
    /// No message is recorded twice.
    pub closed spec fn wf(&self) -> bool {
        distinct(self.entries@)
    }

    /// An empty record.
    pub fn new() -> (cache: SeenMessageCache)
        ensures
            cache.wf(),
            cache@ == Map::<u64, u64>::empty(),
    {
        SeenMessageCache { entries: Vec::new() }
    }

    /// The number of messages recorded.
    pub fn len(&self) -> (len: usize)
        requires
            self.wf(),
        ensures
            self@.dom().finite(),
            len == self@.dom().len(),
    {
        proof {
            lemma_recorded_size(self.entries@);
        }
        self.entries.len()
    }

    /// Whether the message is on record.
    pub fn contains(&self, id: MessageId) -> (found: bool)
        ensures
            found == self@.contains_key(id@),
    {
        let digest = id.digest();
        let mut i: usize = 0;
        while i < self.entries.len()
            invariant
                i <= self.entries.len(),
                digest == id@,
                forall|k: int| 0 <= k < i ==> self.entries@[k].id != digest,
            decreases self.entries.len() - i,
        {
            if self.entries[i].id == digest {
                proof {
                    lemma_recorded_keys(self.entries@, digest);
                    assert(self.entries@[i as int].id == digest);
                }
                return true;
            }
            i += 1;
        }
        proof {
            lemma_recorded_keys(self.entries@, digest);
        }
        false
    }

    /// The heartbeats left to a message on record.
    pub fn remaining(&self, id: MessageId) -> (left: Option<u64>)
        requires
            self.wf(),
        ensures
            left == (if self@.contains_key(id@) { Some(self@[id@]) } else { None }),
    {
        let digest = id.digest();
        let mut i: usize = 0;
        while i < self.entries.len()
            invariant
                i <= self.entries.len(),
                distinct(self.entries@),
                digest == id@,
                forall|k: int| 0 <= k < i ==> self.entries@[k].id != digest,
            decreases self.entries.len() - i,
        {
            if self.entries[i].id == digest {
                proof {
                    lemma_recorded_value(self.entries@, i as int);
                }
                return Some(self.entries[i].remaining);
            }
            i += 1;
        }
        proof {
            lemma_recorded_keys(self.entries@, digest);
        }
        None
    }

    /// Records a message unless it is on record already, and says whether it
    /// was new. A new message gets `window` heartbeats to live; one on record
    /// keeps what it has.
    pub fn observe(&mut self, id: MessageId, window: u64) -> (fresh: bool)
        requires
            old(self).wf(),
        ensures
            final(self).wf(),
            fresh == !old(self)@.contains_key(id@),
            final(self)@ == (if fresh { old(self)@.insert(id@, window) } else { old(self)@ }),
    {
        if self.contains(id) {
            return false;
        }
        let entry = Seen { id: id.digest(), remaining: window };
        proof {
            lemma_recorded_push(self.entries@, entry);
            assert forall|i: int| 0 <= i < self.entries@.len() implies self.entries@[i].id != entry.id by {
                lemma_recorded_keys(self.entries@, entry.id);
            }
        }
        self.entries.push(entry);
        true
    }

    /// One heartbeat: forgets each message whose time has run out and takes
    /// one heartbeat from every other. Returns the number forgotten.
    pub fn tick(&mut self) -> (forgotten: usize)
        requires
            old(self).wf(),
        ensures
            final(self).wf(),
            final(self)@ == aged(old(self)@),
            old(self)@.dom().finite(),
            forgotten == old(self)@.dom().len() - aged(old(self)@).dom().len(),
    {
        let mut kept: Vec<Seen> = Vec::new();
        let mut forgotten: usize = 0;
        let mut i: usize = 0;
        while i < self.entries.len()
            invariant
                i <= self.entries.len(),
                distinct(self.entries@),
                distinct(kept@),
                kept@.len() + forgotten == i,
                recorded(kept@) =~= aged(recorded(self.entries@.take(i as int))),
            decreases self.entries.len() - i,
        {
            let entry = self.entries[i];
            proof {
                let before = self.entries@.take(i as int);
                assert(self.entries@.take(i as int + 1) =~= before.push(entry));
                lemma_recorded_push(before, entry);
                lemma_recorded_keys(before, entry.id);
                assert(!recorded(before).contains_key(entry.id));
            }
            if entry.remaining > 0 {
                let next = Seen { id: entry.id, remaining: entry.remaining - 1 };
                proof {
                    lemma_recorded_push(kept@, next);
                    lemma_recorded_keys(kept@, entry.id);
                    assert forall|k: int| 0 <= k < kept@.len() implies kept@[k].id != next.id by {
                        lemma_recorded_keys(kept@, kept@[k].id);
                    }
                }
                kept.push(next);
            } else {
                forgotten += 1;
            }
            i += 1;
        }
        proof {
            assert(self.entries@.take(self.entries@.len() as int) =~= self.entries@);
            lemma_recorded_size(self.entries@);
            lemma_recorded_size(kept@);
        }
        self.entries = kept;
        forgotten
    }
}

} // verus!
