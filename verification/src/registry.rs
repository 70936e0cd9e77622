use vstd::prelude::*;
use crate::peer::{PeerId, clone_bytes};

verus! {

/// Connection lifecycle of a peer. Records are never removed during a run:
/// only this state field moves, and only forward to `Disconnected`.
#[derive(Clone, Copy, PartialEq, Eq, Structural, Debug)]
pub enum PeerState {
    Connecting,
    Connected,
    Disconnected,
}

/// One peer known to the harness: identity, lifecycle state, the init
/// features it advertised, and whether it connected inbound.
pub struct PeerRecord {
    pub peer: PeerId,
    pub state: PeerState,
    pub features: Vec<u8>,
    pub inbound: bool,
}

/// Mathematical image of a `PeerRecord`.
pub ghost struct RecordView {
    pub peer: Seq<u8>,
    pub state: PeerState,
    pub features: Seq<u8>,
    pub inbound: bool,
}

impl View for PeerRecord {
    type V = RecordView;

    open spec fn view(&self) -> RecordView {
        RecordView {
            peer: self.peer@,
            state: self.state,
            features: self.features@,
            inbound: self.inbound,
        }
    }
}

impl PeerRecord {
    /// An owned copy that denotes the same record.
    pub fn duplicate(&self) -> (r: PeerRecord)
        ensures
            r@ == self@,
    {
        PeerRecord {
            peer: self.peer.duplicate(),
            state: self.state,
            features: clone_bytes(&self.features),
            inbound: self.inbound,
        }
    }
}

/// First record for the given peer identity, if any.
pub open spec fn find_record(rs: Seq<PeerRecord>, p: Seq<u8>) -> Option<PeerRecord>
    decreases rs.len(),
{
    if rs.len() == 0 {
        None
    } else if rs[0].peer@ == p {
        Some(rs[0])
    } else {
        find_record(rs.drop_first(), p)
    }
}

proof fn lemma_record_find_none(rs: Seq<PeerRecord>, p: Seq<u8>)
    requires
        find_record(rs, p) is None,
    ensures
        forall|i: int| 0 <= i < rs.len() ==> (#[trigger] rs[i]).peer@ != p,
    decreases rs.len(),
{
    if rs.len() > 0 {
        lemma_record_find_none(rs.drop_first(), p);
        assert forall|i: int| 0 <= i < rs.len() implies (#[trigger] rs[i]).peer@ != p by {
            if i > 0 {
                assert(rs.drop_first()[i - 1].peer@ != p);
            }
        }
    }
}

proof fn lemma_record_find_skip(rs: Seq<PeerRecord>, p: Seq<u8>, i: int)
    requires
        0 <= i <= rs.len(),
        forall|j: int| 0 <= j < i ==> (#[trigger] rs[j]).peer@ != p,
    ensures
        find_record(rs, p) == find_record(rs.skip(i), p),
    decreases i,
{
    if i == 0 {
        assert(rs.skip(0) =~= rs);
    } else {
        lemma_record_find_skip(rs, p, i - 1);
        assert(rs.skip(i - 1)[0] == rs[i - 1]);
        assert(rs[i - 1].peer@ != p);
        assert(rs.skip(i - 1).drop_first() =~= rs.skip(i));
        assert(find_record(rs.skip(i - 1), p) == find_record(rs.skip(i), p));
    }
}

proof fn lemma_record_find_update(rs: Seq<PeerRecord>, i: int, r: PeerRecord, q: Seq<u8>)
    requires
        0 <= i < rs.len(),
        r.peer@ == rs[i].peer@,
        forall|j: int| 0 <= j < i ==> (#[trigger] rs[j]).peer@ != rs[i].peer@,
    ensures
        find_record(rs.update(i, r), q) == if q == r.peer@ {
            Some(r)
        } else {
            find_record(rs, q)
        },
    decreases i,
{
    let s2 = rs.update(i, r);
    if i == 0 {
        assert(s2[0] == r);
        if q != r.peer@ {
            assert(s2.drop_first() =~= rs.drop_first());
        }
    } else {
        assert(s2[0] == rs[0]);
        assert(s2.drop_first() =~= rs.drop_first().update(i - 1, r));
        if q != rs[0].peer@ {
            assert(rs.drop_first()[i - 1] == rs[i]);
            assert forall|j: int| 0 <= j < i - 1 implies (#[trigger] rs.drop_first()[j]).peer@
                != rs.drop_first()[i - 1].peer@ by {
                assert(rs.drop_first()[j] == rs[j + 1]);
            }
            lemma_record_find_update(rs.drop_first(), i - 1, r, q);
        }
    }
}

proof fn lemma_record_find_push(rs: Seq<PeerRecord>, r: PeerRecord, q: Seq<u8>)
    ensures
        find_record(rs.push(r), q) == match find_record(rs, q) {
            Some(x) => Some(x),
            None => if q == r.peer@ { Some(r) } else { None::<PeerRecord> },
        },
    decreases rs.len(),
{
    if rs.len() == 0 {
        assert(rs.push(r)[0] == r);
        assert(rs.push(r).drop_first() =~= Seq::<PeerRecord>::empty());
    } else {
        assert(rs.push(r)[0] == rs[0]);
        assert(rs.push(r).drop_first() =~= rs.drop_first().push(r));
        lemma_record_find_push(rs.drop_first(), r, q);
    }
}

/// Peer identities, connection lifecycle and negotiated features, in
/// insertion order. No record is ever deleted during a run.
pub struct PeerRegistry {
    pub items: Vec<PeerRecord>,
}

impl PeerRegistry {
    pub open spec fn wf(self) -> bool {
        forall|i: int, j: int| 0 <= i < j < self.items@.len()
            ==> (#[trigger] self.items@[i]).peer@ != (#[trigger] self.items@[j]).peer@
    }

    /// All records, in insertion order.
    pub open spec fn records(self) -> Seq<RecordView> {
        self.items@.map(|i: int, r: PeerRecord| r@)
    }

    /// The record of peer `p`, if one was ever created.
    pub open spec fn lookup(self, p: Seq<u8>) -> Option<RecordView> {
        match find_record(self.items@, p) {
            Some(r) => Some(r@),
            None => None,
        }
    }

    /// Whether `p` currently has a connected session.
    pub open spec fn is_connected(self, p: Seq<u8>) -> bool {
        self.lookup(p) matches Some(r) && r.state == PeerState::Connected
    }

    pub fn new() -> (r: PeerRegistry)
        ensures
            r.wf(),
            r.records() == Seq::<RecordView>::empty(),
            forall|p: Seq<u8>| #![auto] r.lookup(p) is None,
    {
        let r = PeerRegistry { items: Vec::new() };
        proof {
            assert(r.records() =~= Seq::<RecordView>::empty());
        }
        r
    }

    fn find_index(&self, peer: &PeerId) -> (r: Option<usize>)
        ensures
            match r {
                Some(i) => i < self.items@.len() && self.items@[i as int].peer@ == peer@
                    && find_record(self.items@, peer@) == Some(self.items@[i as int])
                    && (forall|j: int| 0 <= j < i ==> (#[trigger] self.items@[j]).peer@ != peer@),
                None => find_record(self.items@, peer@) is None,
            },
    {
        let mut i: usize = 0;
        while i < self.items.len()
            invariant
                i <= self.items@.len(),
                forall|j: int| 0 <= j < i ==> (#[trigger] self.items@[j]).peer@ != peer@,
            decreases self.items@.len() - i,
        {
            if self.items[i].peer.same_as(peer) {
                proof {
                    lemma_record_find_skip(self.items@, peer@, i as int);
                    assert(self.items@.skip(i as int)[0] == self.items@[i as int]);
                }
                return Some(i);
            }
            i += 1;
        }
        proof {
            lemma_record_find_skip(self.items@, peer@, i as int);
            assert(self.items@.skip(i as int) =~= Seq::<PeerRecord>::empty());
        }
        None
    }

    /// Create the record of `peer` as Connected, or move an existing record
    /// back to Connected with the freshly advertised features and direction.
    /// A new record goes to the end; an existing one keeps its position.
    pub fn upsert_connected(&mut self, peer: &PeerId, inbound: bool, features: Vec<u8>)
        requires
            old(self).wf(),
        ensures
            final(self).wf(),
            final(self).lookup(peer@) == Some(RecordView {
                peer: peer@,
                state: PeerState::Connected,
                features: features@,
                inbound,
            }),
            forall|q: Seq<u8>| #![auto] q != peer@
                ==> final(self).lookup(q) == old(self).lookup(q),
            if old(self).lookup(peer@) is Some {
                final(self).records().len() == old(self).records().len()
                    && forall|i: int| 0 <= i < old(self).records().len()
                        ==> (#[trigger] final(self).records()[i]).peer
                            == old(self).records()[i].peer
            } else {
                final(self).records() == old(self).records().push(RecordView {
                    peer: peer@,
                    state: PeerState::Connected,
                    features: features@,
                    inbound,
                })
            },
    {
        match self.find_index(peer) {
            Some(i) => {
                let ghost items0 = self.items@;
                let mut rec = self.items.remove(i);
                rec.state = PeerState::Connected;
                rec.features = features;
                rec.inbound = inbound;
                rec.peer = peer.duplicate();
                let ghost rec2 = rec;
                self.items.insert(i, rec);
                proof {
                    assert(self.items@ =~= items0.update(i as int, rec2));
                    lemma_record_find_update(items0, i as int, rec2, peer@);
                    assert forall|q: Seq<u8>| q != peer@ implies find_record(self.items@, q)
                        == find_record(items0, q) by {
                        lemma_record_find_update(items0, i as int, rec2, q);
                    }
                    assert forall|a: int, b: int| 0 <= a < b < self.items@.len() implies (
                    #[trigger] self.items@[a]).peer@ != (#[trigger] self.items@[b]).peer@ by {
                        assert(items0[a].peer@ != items0[b].peer@);
                        assert(rec2.peer@ == items0[i as int].peer@);
                    }
                }
            },
            None => {
                let ghost items0 = self.items@;
                let rec = PeerRecord {
                    peer: peer.duplicate(),
                    state: PeerState::Connected,
                    features,
                    inbound,
                };
                let ghost rec2 = rec;
                self.items.push(rec);
                proof {
                    lemma_record_find_none(items0, peer@);
                    lemma_record_find_push(items0, rec2, peer@);
                    assert forall|q: Seq<u8>| q != peer@ implies find_record(self.items@, q)
                        == find_record(items0, q) by {
                        lemma_record_find_push(items0, rec2, q);
                    }
                    assert(self.items@.map(|i: int, r: PeerRecord| r@) =~= items0.map(
                        |i: int, r: PeerRecord| r@,
                    ).push(rec2@));
                }
            },
        }
    }

    /// Move the record of `peer` to Disconnected, keeping identity, features
    /// and direction. Without a record nothing changes: prior entries and
    /// unknown peers are left alone.
    pub fn mark_disconnected(&mut self, peer: &PeerId)
        requires
            old(self).wf(),
        ensures
            final(self).wf(),
            match old(self).lookup(peer@) {
                Some(r) => final(self).lookup(peer@) == Some(RecordView {
                    state: PeerState::Disconnected,
                    ..r
                }) && final(self).records().len() == old(self).records().len()
                    && forall|i: int| 0 <= i < old(self).records().len()
                        ==> (#[trigger] final(self).records()[i]).peer
                            == old(self).records()[i].peer,
                None => final(self).records() == old(self).records(),
            },
            forall|q: Seq<u8>| #![auto] q != peer@
                ==> final(self).lookup(q) == old(self).lookup(q),
    {
        match self.find_index(peer) {
            Some(i) => {
                let ghost items0 = self.items@;
                let mut rec = self.items.remove(i);
                rec.state = PeerState::Disconnected;
                let ghost rec2 = rec;
                self.items.insert(i, rec);
                proof {
                    assert(self.items@ =~= items0.update(i as int, rec2));
                    lemma_record_find_update(items0, i as int, rec2, peer@);
                    assert forall|q: Seq<u8>| q != peer@ implies find_record(self.items@, q)
                        == find_record(items0, q) by {
                        lemma_record_find_update(items0, i as int, rec2, q);
                    }
                }
            },
            None => {},
        }
    }

    /// The record of `peer`, if any, as an owned copy.
    pub fn get(&self, peer: &PeerId) -> (r: Option<PeerRecord>)
        ensures
            match r {
                Some(rec) => self.lookup(peer@) == Some(rec@),
                None => self.lookup(peer@) is None,
            },
    {
        match self.find_index(peer) {
            Some(i) => Some(self.items[i].duplicate()),
            None => None,
        }
    }

    /// All records in insertion order, as owned copies.
    pub fn list(&self) -> (r: Vec<PeerRecord>)
        ensures
            r@.map(|i: int, rec: PeerRecord| rec@) == self.records(),
    {
        let mut out: Vec<PeerRecord> = Vec::new();
        let mut i: usize = 0;
        while i < self.items.len()
            invariant
                i <= self.items@.len(),
                out@.map(|k: int, rec: PeerRecord| rec@) == self.items@.take(i as int).map(
                    |k: int, rec: PeerRecord| rec@,
                ),
            decreases self.items@.len() - i,
        {
            let ghost out0 = out@;
            out.push(self.items[i].duplicate());
            proof {
                assert(out@.map(|k: int, rec: PeerRecord| rec@) =~= out0.map(
                    |k: int, rec: PeerRecord| rec@,
                ).push(self.items@[i as int]@));
                assert(self.items@.take(i as int + 1).map(|k: int, rec: PeerRecord| rec@)
                    =~= self.items@.take(i as int).map(|k: int, rec: PeerRecord| rec@).push(
                    self.items@[i as int]@,
                ));
            }
            i += 1;
        }
        proof {
            assert(self.items@.take(self.items@.len() as int) =~= self.items@);
        }
        out
    }
}

} // verus!
