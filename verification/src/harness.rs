use vstd::prelude::*;
use crate::peer::PeerId;
use crate::wire::{Direction, WireMessage, WireView};
use crate::sink::{CaptureSink, EntryView, SinkError};
use crate::registry::{PeerRegistry, PeerState, RecordView};

verus! {

/// The features a connect callback advertised, defaulting to the empty
/// feature set when none were supplied (a test-role policy, not real
/// capability negotiation).
pub open spec fn features_or_empty(features: Option<Vec<u8>>) -> Seq<u8> {
    match features {
        Some(f) => f@,
        None => Seq::empty(),
    }
}

/// The interception layer: capture sink and peer registry behind the
/// channel-message capability surface. Every per-message entry point of that
/// surface funnels into the single primitive `observe`; nothing here acts on
/// a message or validates it — the sole guarantee is lossless, ordered
/// capture.
pub struct Harness {
    pub sink: CaptureSink,
    pub registry: PeerRegistry,
}

impl Harness {
    pub open spec fn wf(self) -> bool {
        self.sink.wf() && self.registry.wf()
    }

    /// A harness with no peers and no observations, whose per-peer rings
    /// hold at most `capacity` undrained entries.
    pub fn new(capacity: usize) -> (r: Harness)
        requires
            capacity >= 1,
        ensures
            r.wf(),
            r.sink.capacity == capacity,
            forall|p: Seq<u8>| #![auto] r.sink.log(p) == Seq::<EntryView>::empty()
                && r.sink.next(p) == 0,
            r.registry.records() == Seq::<RecordView>::empty(),
            forall|p: Seq<u8>| #![auto] r.registry.lookup(p) is None,
    {
        Harness { sink: CaptureSink::new(capacity), registry: PeerRegistry::new() }
    }

    /// Record one inbound message for `peer`. The observation is accepted
    /// whether or not the peer has a connected session — a disconnect race
    /// is expected — but is flagged out-of-band when it does not. Exactly
    /// one entry is appended per successful call; a full ring refuses.
    pub fn observe(&mut self, peer: &PeerId, message: WireMessage, received_at: u64) -> (r:
        Result<u64, SinkError>)
        requires
            old(self).wf(),
            old(self).sink.next(peer@) < u64::MAX,
        ensures
            final(self).wf(),
            final(self).registry == old(self).registry,
            final(self).sink.capacity == old(self).sink.capacity,
            forall|q: Seq<u8>| #![auto] q != peer@
                ==> final(self).sink.log(q) == old(self).sink.log(q)
                    && final(self).sink.next(q) == old(self).sink.next(q),
            match r {
                Ok(n) => {
                    &&& n == old(self).sink.next(peer@)
                    &&& old(self).sink.log(peer@).len() < old(self).sink.capacity
                    &&& final(self).sink.next(peer@) == n + 1
                    &&& final(self).sink.log(peer@) == old(self).sink.log(peer@).push(EntryView {
                        seq: n,
                        peer: peer@,
                        message: message@,
                        received_at,
                        direction: Direction::Inbound,
                        out_of_band: !old(self).registry.is_connected(peer@),
                    })
                },
                Err(e) => {
                    &&& e == SinkError::CapacityExceeded
                    &&& old(self).sink.log(peer@).len() >= old(self).sink.capacity
                    &&& final(self).sink.log(peer@) == old(self).sink.log(peer@)
                    &&& final(self).sink.next(peer@) == old(self).sink.next(peer@)
                },
            },
    {
        let connected = match self.registry.get(peer) {
            Some(rec) => match rec.state {
                PeerState::Connected => true,
                _ => false,
            },
            None => false,
        };
        self.sink.append(peer, message, received_at, Direction::Inbound, !connected)
    }

    /// Connect callback: create or refresh the peer's registry record as
    /// Connected with the advertised init features (empty when none were
    /// supplied), and capture the init message itself. The registry is
    /// updated even when the ring refuses the entry.
    pub fn peer_connected(
        &mut self,
        peer: &PeerId,
        features: Option<Vec<u8>>,
        inbound: bool,
        received_at: u64,
    ) -> (r: Result<u64, SinkError>)
        requires
            old(self).wf(),
            old(self).sink.next(peer@) < u64::MAX,
        ensures
            final(self).wf(),
            final(self).sink.capacity == old(self).sink.capacity,
            final(self).registry.lookup(peer@) == Some(RecordView {
                peer: peer@,
                state: PeerState::Connected,
                features: features_or_empty(features),
                inbound,
            }),
            forall|q: Seq<u8>| #![auto] q != peer@
                ==> final(self).registry.lookup(q) == old(self).registry.lookup(q),
            if old(self).registry.lookup(peer@) is Some {
                final(self).registry.records().len() == old(self).registry.records().len()
                    && forall|i: int| 0 <= i < old(self).registry.records().len()
                        ==> (#[trigger] final(self).registry.records()[i]).peer
                            == old(self).registry.records()[i].peer
            } else {
                final(self).registry.records() == old(self).registry.records().push(RecordView {
                    peer: peer@,
                    state: PeerState::Connected,
                    features: features_or_empty(features),
                    inbound,
                })
            },
            forall|q: Seq<u8>| #![auto] q != peer@
                ==> final(self).sink.log(q) == old(self).sink.log(q)
                    && final(self).sink.next(q) == old(self).sink.next(q),
            match r {
                Ok(n) => {
                    &&& n == old(self).sink.next(peer@)
                    &&& old(self).sink.log(peer@).len() < old(self).sink.capacity
                    &&& final(self).sink.next(peer@) == n + 1
                    &&& final(self).sink.log(peer@) == old(self).sink.log(peer@).push(EntryView {
                        seq: n,
                        peer: peer@,
                        message: WireView::Init { features: features_or_empty(features) },
                        received_at,
                        direction: Direction::Inbound,
                        out_of_band: false,
                    })
                },
                Err(e) => {
                    &&& e == SinkError::CapacityExceeded
                    &&& old(self).sink.log(peer@).len() >= old(self).sink.capacity
                    &&& final(self).sink.log(peer@) == old(self).sink.log(peer@)
                    &&& final(self).sink.next(peer@) == old(self).sink.next(peer@)
                },
            },
    {
        let feats = match features {
            Some(f) => f,
            None => Vec::new(),
        };
        let msg_feats = crate::peer::clone_bytes(&feats);
        self.registry.upsert_connected(peer, inbound, feats);
        self.sink.append(
            peer,
            WireMessage::Init { features: msg_feats },
            received_at,
            Direction::Inbound,
            false,
        )
    }

    /// Disconnect callback: the record's state moves to Disconnected; the
    /// captured log and every other record are retained untouched.
    pub fn peer_disconnected(&mut self, peer: &PeerId)
        requires
            old(self).wf(),
        ensures
            final(self).wf(),
            final(self).sink == old(self).sink,
            match old(self).registry.lookup(peer@) {
                Some(r) => final(self).registry.lookup(peer@) == Some(RecordView {
                    state: PeerState::Disconnected,
                    ..r
                }) && final(self).registry.records().len() == old(self).registry.records().len(),
                None => final(self).registry.records() == old(self).registry.records(),
            },
            forall|q: Seq<u8>| #![auto] q != peer@
                ==> final(self).registry.lookup(q) == old(self).registry.lookup(q),
    {
        self.registry.mark_disconnected(peer);
    }
}

} // verus!
