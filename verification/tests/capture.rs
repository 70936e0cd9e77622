use lnprototest_harness::harness::Harness;
use lnprototest_harness::peer::PeerId;
use lnprototest_harness::sink::{CaptureSink, SinkError};
use lnprototest_harness::wire::{Direction, WireMessage};

fn peer(bytes: &[u8]) -> PeerId {
    PeerId::new(bytes.to_vec())
}

fn ping_like(n: u64) -> WireMessage {
    WireMessage::UpdateAddHtlc { channel_id: vec![1; 32], htlc_id: n, amount_msat: 1000 + n }
}

#[test]
fn read_from_zero_returns_all_in_order() {
    let mut sink = CaptureSink::new(16);
    let p = peer(&[3, 171]);
    for n in 0..5u64 {
        let got = sink
            .append(&p, ping_like(n), 100 + n, Direction::Inbound, false)
            .unwrap();
        assert_eq!(got, n);
    }
    let entries = sink.read_from(&p, 0);
    assert_eq!(entries.len(), 5);
    for (i, e) in entries.iter().enumerate() {
        assert_eq!(e.seq, i as u64);
        assert_eq!(e.peer.bytes, vec![3, 171]);
        assert_eq!(e.message, ping_like(i as u64));
        assert_eq!(e.direction, Direction::Inbound);
    }
}

#[test]
fn read_from_cursor_skips_seen_entries() {
    let mut sink = CaptureSink::new(16);
    let p = peer(&[2]);
    for n in 0..4u64 {
        sink.append(&p, ping_like(n), n, Direction::Inbound, false).unwrap();
    }
    let tail = sink.read_from(&p, 2);
    assert_eq!(tail.len(), 2);
    assert_eq!(tail[0].seq, 2);
    assert_eq!(tail[1].seq, 3);
}

#[test]
fn read_from_past_the_end_is_empty_and_unknown_peer_is_empty() {
    let mut sink = CaptureSink::new(4);
    let p = peer(&[1]);
    sink.append(&p, ping_like(0), 0, Direction::Inbound, false).unwrap();
    assert!(sink.read_from(&p, 1).is_empty());
    assert!(sink.read_from(&peer(&[99]), 0).is_empty());
    assert_eq!(sink.len(&peer(&[99])), 0);
}

#[test]
fn drain_is_idempotent_in_effect_size() {
    let mut sink = CaptureSink::new(8);
    let p = peer(&[7]);
    sink.append(&p, ping_like(0), 0, Direction::Inbound, false).unwrap();
    sink.append(&p, ping_like(1), 1, Direction::Inbound, false).unwrap();
    let first = sink.drain(&p);
    assert_eq!(first.len(), 2);
    let second = sink.drain(&p);
    assert_eq!(second.len(), 0);
    assert_eq!(sink.len(&p), 0);
    // Numbering continues where it left off.
    let seq = sink.append(&p, ping_like(2), 2, Direction::Inbound, false).unwrap();
    assert_eq!(seq, 2);
}

#[test]
fn appends_from_distinct_peers_never_interleave() {
    let mut sink = CaptureSink::new(16);
    let a = peer(&[10]);
    let b = peer(&[20]);
    sink.append(&a, ping_like(0), 0, Direction::Inbound, false).unwrap();
    sink.append(&b, ping_like(100), 1, Direction::Inbound, false).unwrap();
    sink.append(&a, ping_like(1), 2, Direction::Inbound, false).unwrap();
    sink.append(&b, ping_like(101), 3, Direction::Inbound, false).unwrap();
    sink.append(&a, ping_like(2), 4, Direction::Inbound, false).unwrap();
    let for_a = sink.read_from(&a, 0);
    assert_eq!(for_a.len(), 3);
    for (i, e) in for_a.iter().enumerate() {
        assert_eq!(e.seq, i as u64);
        assert_eq!(e.message, ping_like(i as u64));
    }
    let for_b = sink.read_from(&b, 0);
    assert_eq!(for_b.len(), 2);
    assert_eq!(for_b[0].message, ping_like(100));
    assert_eq!(for_b[1].message, ping_like(101));
}

#[test]
fn ring_at_capacity_refuses_until_drained_then_commits_at_next_seq() {
    let mut sink = CaptureSink::new(2);
    let p = peer(&[9]);
    assert_eq!(sink.append(&p, ping_like(0), 0, Direction::Inbound, false), Ok(0));
    assert_eq!(sink.append(&p, ping_like(1), 1, Direction::Inbound, false), Ok(1));
    // The third message must not be silently lost: the sink refuses it.
    assert_eq!(
        sink.append(&p, ping_like(2), 2, Direction::Inbound, false),
        Err(SinkError::CapacityExceeded)
    );
    let drained = sink.drain(&p);
    assert_eq!(drained.len(), 2);
    // After space is freed the retried message commits at sequence 2.
    assert_eq!(sink.append(&p, ping_like(2), 3, Direction::Inbound, false), Ok(2));
    let entries = sink.read_from(&p, 0);
    assert_eq!(entries.len(), 1);
    assert_eq!(entries[0].seq, 2);
}

#[test]
fn observe_flags_out_of_band_until_connected() {
    let mut h = Harness::new(8);
    let p = peer(&[5]);
    h.observe(&p, ping_like(0), 0).unwrap();
    h.peer_connected(&p, None, true, 1).unwrap();
    h.observe(&p, ping_like(1), 2).unwrap();
    h.peer_disconnected(&p);
    h.observe(&p, ping_like(2), 3).unwrap();
    let entries = h.sink.read_from(&p, 0);
    assert_eq!(entries.len(), 4);
    assert!(entries[0].out_of_band);
    assert!(matches!(entries[1].message, WireMessage::Init { .. }));
    assert!(!entries[1].out_of_band);
    assert!(!entries[2].out_of_band);
    assert!(entries[3].out_of_band);
}
