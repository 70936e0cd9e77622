use vstd::prelude::*;
use crate::peer::PeerId;
use crate::wire::{Direction, WireMessage, WireView};

verus! {

/// One captured observation: a wire message together with the peer it came
/// from, its per-peer sequence number, the receipt time and direction, and
/// whether it arrived outside a connected session ("out-of-band").
pub struct CaptureEntry {
    pub seq: u64,
    pub peer: PeerId,
    pub message: WireMessage,
    pub received_at: u64,
    pub direction: Direction,
    pub out_of_band: bool,
}

/// Mathematical image of a `CaptureEntry`.
pub ghost struct EntryView {
    pub seq: u64,
    pub peer: Seq<u8>,
    pub message: WireView,
    pub received_at: u64,
    pub direction: Direction,
    pub out_of_band: bool,
}

impl View for CaptureEntry {
    type V = EntryView;

    open spec fn view(&self) -> EntryView {
        EntryView {
            seq: self.seq,
            peer: self.peer@,
            message: self.message@,
            received_at: self.received_at,
            direction: self.direction,
            out_of_band: self.out_of_band,
        }
    }
}

impl CaptureEntry {
    /// An owned copy that denotes the same observation.
    pub fn duplicate(&self) -> (r: CaptureEntry)
        ensures
            r@ == self@,
    {
        CaptureEntry {
            seq: self.seq,
            peer: self.peer.duplicate(),
            message: self.message.duplicate(),
            received_at: self.received_at,
            direction: self.direction,
            out_of_band: self.out_of_band,
        }
    }
}

/// Failure of the capture sink: the addressed peer's ring is at capacity.
/// Losing a captured message would make the harness unsound, so the caller
/// must free space (drain) before the message can be committed.
#[derive(Clone, Copy, PartialEq, Eq, Structural, Debug)]
pub enum SinkError {
    CapacityExceeded,
}

/// The retained log of one peer: a bounded ring of entries plus the next
/// sequence number to assign. Sequence numbers are assigned exactly once,
/// never renumbered; draining removes entries but does not reset numbering.
pub struct PeerLog {
    pub peer: PeerId,
    pub next_seq: u64,
    pub entries: Vec<CaptureEntry>,
}

impl PeerLog {
    /// Retained entries carry this peer's identity and consecutive sequence
    /// numbers ending just below `next_seq`: no gaps, no reordering.
    pub open spec fn wf(self) -> bool {
        &&& self.entries@.len() <= self.next_seq
        &&& forall|i: int| 0 <= i < self.entries@.len()
            ==> (#[trigger] self.entries@[i])@.seq == self.next_seq - self.entries@.len() + i
        &&& forall|i: int| 0 <= i < self.entries@.len()
            ==> (#[trigger] self.entries@[i])@.peer == self.peer@
    }

    pub open spec fn log(self) -> Seq<EntryView> {
        self.entries@.map(|i: int, e: CaptureEntry| e@)
    }
}

/// First ring for the given peer identity, if any.
pub open spec fn find_log(rings: Seq<PeerLog>, p: Seq<u8>) -> Option<PeerLog>
    decreases rings.len(),
{
    if rings.len() == 0 {
        None
    } else if rings[0].peer@ == p {
        Some(rings[0])
    } else {
        find_log(rings.drop_first(), p)
    }
}

proof fn lemma_find_props(rings: Seq<PeerLog>, p: Seq<u8>)
    ensures
        match find_log(rings, p) {
            Some(r) => r.peer@ == p && exists|i: int| 0 <= i < rings.len() && rings[i] == r,
            None => forall|i: int| 0 <= i < rings.len() ==> (#[trigger] rings[i]).peer@ != p,
        },
    decreases rings.len(),
{
    if rings.len() == 0 {
    } else if rings[0].peer@ == p {
        assert(rings[0] == rings[0]);
    } else {
        lemma_find_props(rings.drop_first(), p);
        match find_log(rings, p) {
            Some(r) => {
                let i = choose|i: int| 0 <= i < rings.drop_first().len() && rings.drop_first()[i] == r;
                assert(rings[i + 1] == r);
            },
            None => {
                assert forall|i: int| 0 <= i < rings.len() implies (#[trigger] rings[i]).peer@ != p by {
                    if i > 0 {
                        assert(rings.drop_first()[i - 1].peer@ != p);
                    }
                }
            },
        }
    }
}

proof fn lemma_find_skip(rings: Seq<PeerLog>, p: Seq<u8>, i: int)
    requires
        0 <= i <= rings.len(),
        forall|j: int| 0 <= j < i ==> (#[trigger] rings[j]).peer@ != p,
    ensures
        find_log(rings, p) == find_log(rings.skip(i), p),
    decreases i,
{
    if i == 0 {
        assert(rings.skip(0) =~= rings);
    } else {
        lemma_find_skip(rings, p, i - 1);
        assert(rings.skip(i - 1).len() > 0);
        assert(rings.skip(i - 1)[0] == rings[i - 1]);
        assert(rings[i - 1].peer@ != p);
        assert(rings.skip(i - 1).drop_first() =~= rings.skip(i));
        assert(find_log(rings.skip(i - 1), p) == find_log(rings.skip(i), p));
    }
}

proof fn lemma_find_update(rings: Seq<PeerLog>, i: int, r: PeerLog, q: Seq<u8>)
    requires
        0 <= i < rings.len(),
        r.peer@ == rings[i].peer@,
        forall|j: int| 0 <= j < i ==> (#[trigger] rings[j]).peer@ != rings[i].peer@,
    ensures
        find_log(rings.update(i, r), q) == if q == r.peer@ {
            Some(r)
        } else {
            find_log(rings, q)
        },
    decreases i,
{
    let s2 = rings.update(i, r);
    if i == 0 {
        assert(s2[0] == r);
        if q != r.peer@ {
            assert(s2.drop_first() =~= rings.drop_first());
        }
    } else {
        assert(s2[0] == rings[0]);
        assert(s2.drop_first() =~= rings.drop_first().update(i - 1, r));
        if q == rings[0].peer@ {
        } else {
            assert(rings.drop_first()[i - 1] == rings[i]);
            assert forall|j: int| 0 <= j < i - 1 implies (#[trigger] rings.drop_first()[j]).peer@
                != rings.drop_first()[i - 1].peer@ by {
                assert(rings.drop_first()[j] == rings[j + 1]);
            }
            lemma_find_update(rings.drop_first(), i - 1, r, q);
        }
    }
}

proof fn lemma_find_push(rings: Seq<PeerLog>, r: PeerLog, q: Seq<u8>)
    ensures
        find_log(rings.push(r), q) == match find_log(rings, q) {
            Some(x) => Some(x),
            None => if q == r.peer@ { Some(r) } else { None::<PeerLog> },
        },
    decreases rings.len(),
{
    if rings.len() == 0 {
        assert(rings.push(r)[0] == r);
        assert(rings.push(r).drop_first() =~= Seq::<PeerLog>::empty());
    } else {
        assert(rings.push(r)[0] == rings[0]);
        assert(rings.push(r).drop_first() =~= rings.drop_first().push(r));
        lemma_find_push(rings.drop_first(), r, q);
    }
}

/// Per-peer ordered, growable log of received messages: the single shared
/// mutable resource of the harness. Each peer has its own bounded ring, so
/// distinct peers never contend; `append` refuses (rather than drops) a
/// message when the addressed ring is at its high-water mark.
pub struct CaptureSink {
    pub capacity: usize,
    pub rings: Vec<PeerLog>,
}

impl CaptureSink {
    pub open spec fn wf(self) -> bool {
        &&& self.capacity >= 1
        &&& forall|i: int| 0 <= i < self.rings@.len() ==> (#[trigger] self.rings@[i]).wf()
        &&& forall|i: int| 0 <= i < self.rings@.len()
            ==> (#[trigger] self.rings@[i]).entries@.len() <= self.capacity
        &&& forall|i: int, j: int| 0 <= i < j < self.rings@.len()
            ==> (#[trigger] self.rings@[i]).peer@ != (#[trigger] self.rings@[j]).peer@
    }

    /// The retained entries of peer `p`, oldest first.
    pub open spec fn log(self, p: Seq<u8>) -> Seq<EntryView> {
        match find_log(self.rings@, p) {
            Some(r) => r.log(),
            None => Seq::empty(),
        }
    }

    /// The sequence number the next accepted message of peer `p` will get;
    /// equally, how many messages of `p` were ever accepted.
    pub open spec fn next(self, p: Seq<u8>) -> nat {
        match find_log(self.rings@, p) {
            Some(r) => r.next_seq as nat,
            None => 0,
        }
    }

    /// A sink with the given per-peer high-water mark and no observations.
    pub fn new(capacity: usize) -> (r: CaptureSink)
        requires
            capacity >= 1,
        ensures
            r.wf(),
            r.capacity == capacity,
            forall|p: Seq<u8>| #![auto] r.log(p) == Seq::<EntryView>::empty() && r.next(p) == 0,
    {
        CaptureSink { capacity, rings: Vec::new() }
    }

    fn find_index(&self, peer: &PeerId) -> (r: Option<usize>)
        ensures
            match r {
                Some(i) => i < self.rings@.len() && self.rings@[i as int].peer@ == peer@
                    && find_log(self.rings@, peer@) == Some(self.rings@[i as int])
                    && (forall|j: int| 0 <= j < i ==> (#[trigger] self.rings@[j]).peer@ != peer@),
                None => find_log(self.rings@, peer@) is None,
            },
    {
        let mut i: usize = 0;
        while i < self.rings.len()
            invariant
                i <= self.rings@.len(),
                forall|j: int| 0 <= j < i ==> (#[trigger] self.rings@[j]).peer@ != peer@,
            decreases self.rings@.len() - i,
        {
            if self.rings[i].peer.same_as(peer) {
                proof {
                    lemma_find_skip(self.rings@, peer@, i as int);
                    assert(self.rings@.skip(i as int)[0] == self.rings@[i as int]);
                }
                return Some(i);
            }
            i += 1;
        }
        proof {
            lemma_find_skip(self.rings@, peer@, i as int);
            assert(self.rings@.skip(i as int) =~= Seq::<PeerLog>::empty());
        }
        None
    }

    /// Record one observation for `peer`. On success the entry is committed
    /// at the peer's next sequence number; when the peer's ring is full the
    /// sink refuses and nothing changes (backpressure, never silent loss).
    pub fn append(
        &mut self,
        peer: &PeerId,
        message: WireMessage,
        received_at: u64,
        direction: Direction,
        out_of_band: bool,
    ) -> (r: Result<u64, SinkError>)
        requires
            old(self).wf(),
            old(self).next(peer@) < u64::MAX,
        ensures
            final(self).wf(),
            final(self).capacity == old(self).capacity,
            forall|q: Seq<u8>| #![auto] q != peer@ ==> final(self).log(q) == old(self).log(q)
                && final(self).next(q) == old(self).next(q),
            match r {
                Ok(n) => {
                    &&& n == old(self).next(peer@)
                    &&& old(self).log(peer@).len() < old(self).capacity
                    &&& final(self).next(peer@) == n + 1
                    &&& final(self).log(peer@) == old(self).log(peer@).push(EntryView {
                        seq: n,
                        peer: peer@,
                        message: message@,
                        received_at,
                        direction,
                        out_of_band,
                    })
                },
                Err(e) => {
                    &&& e == SinkError::CapacityExceeded
                    &&& old(self).log(peer@).len() >= old(self).capacity
                    &&& final(self).log(peer@) == old(self).log(peer@)
                    &&& final(self).next(peer@) == old(self).next(peer@)
                },
            },
    {
        proof {
            lemma_find_props(self.rings@, peer@);
        }
        match self.find_index(peer) {
            Some(i) => {
                let ghost rings0 = self.rings@;
                let mut ring = self.rings.remove(i);
                if ring.entries.len() >= self.capacity {
                    self.rings.insert(i, ring);
                    proof {
                        assert(self.rings@ =~= rings0);
                    }
                    return Err(SinkError::CapacityExceeded);
                }
                let n = ring.next_seq;
                let entry = CaptureEntry {
                    seq: n,
                    peer: peer.duplicate(),
                    message,
                    received_at,
                    direction,
                    out_of_band,
                };
                let ghost ev = entry@;
                ring.entries.push(entry);
                ring.next_seq = n + 1;
                let ghost ring2 = ring;
                self.rings.insert(i, ring);
                proof {
                    assert(self.rings@ =~= rings0.update(i as int, ring2));
                    lemma_find_update(rings0, i as int, ring2, peer@);
                    assert forall|q: Seq<u8>| q != peer@ implies find_log(self.rings@, q)
                        == find_log(rings0, q) by {
                        lemma_find_update(rings0, i as int, ring2, q);
                    }
                    assert(ring2.log() =~= rings0[i as int].log().push(ev));
                }
                Ok(n)
            },
            None => {
                // First observation for this peer: open its ring. The ring
                // has room because the high-water mark is at least one.
                let ghost rings0 = self.rings@;
                let entry = CaptureEntry {
                    seq: 0,
                    peer: peer.duplicate(),
                    message,
                    received_at,
                    direction,
                    out_of_band,
                };
                let ghost ev = entry@;
                let mut entries: Vec<CaptureEntry> = Vec::new();
                entries.push(entry);
                let ring = PeerLog { peer: peer.duplicate(), next_seq: 1, entries };
                let ghost ring2 = ring;
                self.rings.push(ring);
                proof {
                    lemma_find_push(rings0, ring2, peer@);
                    assert forall|q: Seq<u8>| q != peer@ implies find_log(self.rings@, q)
                        == find_log(rings0, q) by {
                        lemma_find_push(rings0, ring2, q);
                    }
                    assert(ring2.log() =~= Seq::<EntryView>::empty().push(ev));
                    assert(forall|j: int| 0 <= j < rings0.len()
                        ==> (#[trigger] rings0[j]).peer@ != peer@);
                }
                Ok(0)
            },
        }
    }

    /// The entries of `peer` whose sequence number is at least `since`,
    /// oldest first: a restartable cursor over the retained log.
    pub fn read_from(&self, peer: &PeerId, since: u64) -> (r: Vec<CaptureEntry>)
        ensures
            r@.map(|i: int, e: CaptureEntry| e@) == entries_from(self.log(peer@), since),
    {
        match self.find_index(peer) {
            Some(i) => {
                let ghost lg = self.log(peer@);
                let ring = &self.rings[i];
                let mut out: Vec<CaptureEntry> = Vec::new();
                let mut j: usize = 0;
                proof {
                    assert(lg =~= ring.entries@.map(|k: int, e: CaptureEntry| e@));
                }
                while j < ring.entries.len()
                    invariant
                        j <= ring.entries@.len(),
                        lg == ring.entries@.map(|k: int, e: CaptureEntry| e@),
                        out@.map(|k: int, e: CaptureEntry| e@) == entries_from(
                            lg.take(j as int),
                            since,
                        ),
                    decreases ring.entries@.len() - j,
                {
                    let e = &ring.entries[j];
                    proof {
                        assert(lg.take(j as int + 1).drop_last() =~= lg.take(j as int));
                        assert(lg.take(j as int + 1).last() == e@);
                    }
                    if e.seq >= since {
                        let d = e.duplicate();
                        let ghost out0 = out@;
                        out.push(d);
                        proof {
                            assert(out@.map(|k: int, e: CaptureEntry| e@) =~= out0.map(
                                |k: int, e: CaptureEntry| e@,
                            ).push(e@));
                        }
                    }
                    j += 1;
                }
                proof {
                    assert(lg.take(ring.entries@.len() as int) =~= lg);
                }
                out
            },
            None => {
                let out: Vec<CaptureEntry> = Vec::new();
                proof {
                    assert(out@.map(|k: int, e: CaptureEntry| e@) =~= Seq::<EntryView>::empty());
                }
                out
            },
        }
    }

    /// Remove and return everything retained for `peer`, oldest first.
    /// Sequence numbering continues where it left off.
    pub fn drain(&mut self, peer: &PeerId) -> (r: Vec<CaptureEntry>)
        requires
            old(self).wf(),
        ensures
            final(self).wf(),
            final(self).capacity == old(self).capacity,
            r@.map(|i: int, e: CaptureEntry| e@) == old(self).log(peer@),
            final(self).log(peer@) == Seq::<EntryView>::empty(),
            final(self).next(peer@) == old(self).next(peer@),
            forall|q: Seq<u8>| #![auto] q != peer@ ==> final(self).log(q) == old(self).log(q)
                && final(self).next(q) == old(self).next(q),
    {
        match self.find_index(peer) {
            Some(i) => {
                let ghost rings0 = self.rings@;
                let mut ring = self.rings.remove(i);
                let out = ring.entries;
                ring.entries = Vec::new();
                let ghost ring2 = ring;
                self.rings.insert(i, ring);
                proof {
                    assert(self.rings@ =~= rings0.update(i as int, ring2));
                    lemma_find_update(rings0, i as int, ring2, peer@);
                    assert forall|q: Seq<u8>| q != peer@ implies find_log(self.rings@, q)
                        == find_log(rings0, q) by {
                        lemma_find_update(rings0, i as int, ring2, q);
                    }
                    assert(ring2.log() =~= Seq::<EntryView>::empty());
                }
                out
            },
            None => {
                let out: Vec<CaptureEntry> = Vec::new();
                proof {
                    assert(out@.map(|i: int, e: CaptureEntry| e@) =~= Seq::<EntryView>::empty());
                }
                out
            },
        }
    }

    /// How many entries are currently retained for `peer`.
    pub fn len(&self, peer: &PeerId) -> (r: usize)
        ensures
            r == self.log(peer@).len(),
    {
        match self.find_index(peer) {
            Some(i) => self.rings[i].entries.len(),
            None => 0,
        }
    }
}

/// The suffix of a retained log visible from cursor position `since`.
pub open spec fn entries_from(log: Seq<EntryView>, since: u64) -> Seq<EntryView>
    decreases log.len(),
{
    if log.len() == 0 {
        Seq::empty()
    } else {
        let rest = entries_from(log.drop_last(), since);
        if log.last().seq >= since {
            rest.push(log.last())
        } else {
            rest
        }
    }
}

proof fn lemma_entries_from_zero(log: Seq<EntryView>)
    ensures
        entries_from(log, 0) == log,
    decreases log.len(),
{
    if log.len() > 0 {
        lemma_entries_from_zero(log.drop_last());
        assert(log.drop_last().push(log.last()) =~= log);
    }
}

/// Reading from cursor 0 loses nothing: while no drain has intervened (the
/// retained log is the whole history, so its length equals the peer's next
/// sequence number), the cursor at 0 sees exactly the appended entries, in
/// receipt order, numbered consecutively from 0 with no gaps.
pub proof fn lemma_read_from_zero_complete(s: CaptureSink, p: Seq<u8>)
    requires
        s.wf(),
        s.log(p).len() == s.next(p),
    ensures
        forall|i: int| 0 <= i < s.log(p).len() ==> (#[trigger] s.log(p)[i]).seq == i,
        entries_from(s.log(p), 0) == s.log(p),
{
    lemma_find_props(s.rings@, p);
    lemma_entries_from_zero(s.log(p));
}

/// Draining is idempotent in effect size: a drain leaves the peer's log
/// empty, and `drain`'s contract pins its result to the log it finds, so an
/// immediate second drain with no intervening append returns the empty
/// sequence.
pub proof fn lemma_drain_idempotent(after_first: CaptureSink, p: Seq<u8>, second: Seq<EntryView>)
    requires
        after_first.log(p).len() == 0,
        second == after_first.log(p),
    ensures
        second == Seq::<EntryView>::empty(),
{
    assert(second =~= Seq::<EntryView>::empty());
}

/// An interleaved schedule of observations: each step commits one message to
/// one peer's log, which is what `append`'s contract shows of a single call
/// (the addressed log grows by that entry; every other log is untouched).
pub open spec fn schedule_step(
    logs: Map<Seq<u8>, Seq<WireView>>,
    p: Seq<u8>,
    m: WireView,
) -> Map<Seq<u8>, Seq<WireView>> {
    let cur = if logs.dom().contains(p) {
        logs[p]
    } else {
        Seq::empty()
    };
    logs.insert(p, cur.push(m))
}

pub open spec fn run_schedule(
    logs: Map<Seq<u8>, Seq<WireView>>,
    sched: Seq<(Seq<u8>, WireView)>,
) -> Map<Seq<u8>, Seq<WireView>>
    decreases sched.len(),
{
    if sched.len() == 0 {
        logs
    } else {
        schedule_step(run_schedule(logs, sched.drop_last()), sched.last().0, sched.last().1)
    }
}

/// The messages a schedule delivers for one peer, in delivery order.
pub open spec fn messages_for(sched: Seq<(Seq<u8>, WireView)>, p: Seq<u8>) -> Seq<WireView>
    decreases sched.len(),
{
    if sched.len() == 0 {
        Seq::empty()
    } else {
        let rest = messages_for(sched.drop_last(), p);
        if sched.last().0 == p {
            rest.push(sched.last().1)
        } else {
            rest
        }
    }
}

/// Appends from distinct peers never interleave within a single peer's
/// sequence: whatever order an interleaved schedule commits observations in,
/// each peer's log ends as its own messages alone, in their delivery order,
/// appended after what it already held.
pub proof fn lemma_appends_never_interleave(
    logs: Map<Seq<u8>, Seq<WireView>>,
    sched: Seq<(Seq<u8>, WireView)>,
    p: Seq<u8>,
)
    requires
        logs.dom().contains(p),
    ensures
        run_schedule(logs, sched).dom().contains(p),
        run_schedule(logs, sched)[p] == logs[p] + messages_for(sched, p),
    decreases sched.len(),
{
    if sched.len() == 0 {
        assert(logs[p] + Seq::<WireView>::empty() =~= logs[p]);
    } else {
        lemma_appends_never_interleave(logs, sched.drop_last(), p);
        if sched.last().0 == p {
            assert((logs[p] + messages_for(sched.drop_last(), p)).push(sched.last().1) =~= logs[p]
                + messages_for(sched, p));
        }
    }
}

} // verus!
