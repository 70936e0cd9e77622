use lnprototest_harness::bridge::{
    conn_step, handle_request, ConnEvent, ConnState, ParamValue, Request, Response, ResponseBody,
    RpcOutput,
};
use lnprototest_harness::harness::Harness;
use lnprototest_harness::hex::hex_decode;
use lnprototest_harness::peer::PeerId;
use lnprototest_harness::registry::PeerState;
use lnprototest_harness::wire::{Direction, WireMessage};

fn request(id: &str, method: &str, params: Vec<(&str, ParamValue)>) -> Request {
    Request {
        id: id.to_string(),
        method: method.to_string(),
        params: params
            .into_iter()
            .map(|(k, v)| (k.to_string(), v))
            .collect(),
    }
}

fn s(v: &str) -> ParamValue {
    ParamValue::Str(v.to_string())
}

#[test]
fn list_peers_before_any_connection_is_empty() {
    let mut h = Harness::new(8);
    let req = request("1", "list_peers", vec![]);
    let (resp, action) = handle_request(&mut h, &req);
    assert_eq!(resp.id, "1");
    assert!(action.is_none());
    match resp.body {
        ResponseBody::Success(RpcOutput::Peers(v)) => assert!(v.is_empty()),
        _ => panic!("expected an empty peer list"),
    }
}

#[test]
fn init_is_captured_and_served_from_cursor_zero() {
    let mut h = Harness::new(8);
    let pid = PeerId::new(hex_decode("03ab").unwrap());
    h.peer_connected(&pid, Some(Vec::new()), true, 7).unwrap();
    let req = request(
        "2",
        "get_events",
        vec![("peer_id", s("03ab")), ("since_seq", ParamValue::Num(0))],
    );
    let (resp, _) = handle_request(&mut h, &req);
    assert_eq!(resp.id, "2");
    match resp.body {
        ResponseBody::Success(RpcOutput::Events(v)) => {
            assert_eq!(v.len(), 1);
            assert_eq!(v[0].seq, 0);
            assert_eq!(v[0].message, WireMessage::Init { features: vec![] });
            assert_eq!(v[0].direction, Direction::Inbound);
            assert!(!v[0].out_of_band);
        }
        _ => panic!("expected one captured init event"),
    }
    // The registry saw the inbound connection with empty features.
    let rec = h.registry.get(&pid).unwrap();
    assert_eq!(rec.state, PeerState::Connected);
    assert!(rec.features.is_empty());
    assert!(rec.inbound);
}

#[test]
fn unknown_method_yields_structured_error() {
    let mut h = Harness::new(8);
    let req = request("corr-9", "reboot_universe", vec![]);
    let (resp, action) = handle_request(&mut h, &req);
    assert_eq!(resp.id, "corr-9");
    assert!(action.is_none());
    match resp.body {
        ResponseBody::Failure(e) => assert_eq!(e.kind, "unknown_method"),
        _ => panic!("expected a structured error response"),
    }
}

#[test]
fn inject_action_response_id_equals_request_id() {
    let mut h = Harness::new(8);
    let req = request(
        "drive/42",
        "inject_action",
        vec![("peer_id", s("03ab")), ("action", s("send_ping"))],
    );
    let (resp, action) = handle_request(&mut h, &req);
    assert_eq!(resp.id, "drive/42");
    assert!(matches!(resp.body, ResponseBody::Success(RpcOutput::Injected)));
    let fwd = action.unwrap();
    assert_eq!(fwd.peer.bytes, vec![0x03, 0xab]);
    assert_eq!(fwd.action, s("send_ping"));
}

#[test]
fn get_events_with_bad_params_is_invalid_params() {
    let mut h = Harness::new(8);
    for req in [
        request("a", "get_events", vec![]),
        request("b", "get_events", vec![("peer_id", s("zz"))]),
        request("c", "get_events", vec![("peer_id", s("03a"))]),
        request("d", "get_events", vec![("peer_id", ParamValue::Num(3))]),
        request(
            "e",
            "get_events",
            vec![("peer_id", s("03ab")), ("since_seq", s("zero"))],
        ),
    ] {
        let id = req.id.clone();
        let (resp, action) = handle_request(&mut h, &req);
        assert_eq!(resp.id, id);
        assert!(action.is_none());
        match resp.body {
            ResponseBody::Failure(e) => assert_eq!(e.kind, "invalid_params"),
            _ => panic!("expected invalid_params"),
        }
    }
}

#[test]
fn drain_events_removes_and_returns_in_order() {
    let mut h = Harness::new(8);
    let pid = PeerId::new(vec![0x02, 0x10]);
    h.observe(&pid, WireMessage::Stfu { channel_id: vec![0; 32], initiator: true }, 1)
        .unwrap();
    h.observe(&pid, WireMessage::TxComplete { channel_id: vec![0; 32] }, 2)
        .unwrap();
    let req = request("d1", "drain_events", vec![("peer_id", s("0210"))]);
    let (resp, _) = handle_request(&mut h, &req);
    match resp.body {
        ResponseBody::Success(RpcOutput::Events(v)) => {
            assert_eq!(v.len(), 2);
            assert_eq!(v[0].seq, 0);
            assert_eq!(v[1].seq, 1);
        }
        _ => panic!("expected drained events"),
    }
    let again = request("d2", "drain_events", vec![("peer_id", s("0210"))]);
    let (resp2, _) = handle_request(&mut h, &again);
    match resp2.body {
        ResponseBody::Success(RpcOutput::Events(v)) => assert!(v.is_empty()),
        _ => panic!("expected an empty drain"),
    }
}

#[test]
fn list_peers_keeps_insertion_order_and_states() {
    let mut h = Harness::new(8);
    let a = PeerId::new(vec![1]);
    let b = PeerId::new(vec![2]);
    h.peer_connected(&a, Some(vec![0x80]), true, 0).unwrap();
    h.peer_connected(&b, None, false, 1).unwrap();
    h.peer_disconnected(&a);
    // Reconnecting does not duplicate a record.
    h.peer_connected(&b, Some(vec![1, 2]), true, 2).unwrap();
    let req = request("l", "list_peers", vec![]);
    let (resp, _) = handle_request(&mut h, &req);
    match resp.body {
        ResponseBody::Success(RpcOutput::Peers(v)) => {
            assert_eq!(v.len(), 2);
            assert_eq!(v[0].peer.bytes, vec![1]);
            assert_eq!(v[0].state, PeerState::Disconnected);
            assert_eq!(v[0].features, vec![0x80]);
            assert_eq!(v[1].peer.bytes, vec![2]);
            assert_eq!(v[1].state, PeerState::Connected);
            assert_eq!(v[1].features, vec![1, 2]);
            assert!(v[1].inbound);
        }
        _ => panic!("expected two peer records"),
    }
}

#[test]
fn hex_decoding_accepts_even_digit_strings_only() {
    assert_eq!(hex_decode("03ab"), Some(vec![0x03, 0xab]));
    assert_eq!(hex_decode(""), Some(vec![]));
    assert_eq!(hex_decode("FF"), Some(vec![0xff]));
    assert_eq!(hex_decode("0F10"), Some(vec![0x0f, 0x10]));
    assert_eq!(hex_decode("f"), None);
    assert_eq!(hex_decode("0g"), None);
    assert_eq!(hex_decode("=="), None);
}

#[test]
fn responses_always_echo_the_request_id() {
    let mut h = Harness::new(8);
    for (id, method) in [
        ("alpha", "list_peers"),
        ("beta", "get_events"),
        ("gamma", "drain_events"),
        ("delta", "inject_action"),
        ("epsilon", "no_such_method"),
    ] {
        let req = request(id, method, vec![]);
        let (resp, _) = handle_request(&mut h, &req);
        assert_eq!(resp.id, id);
    }
}

#[test]
fn connection_state_machine_loops_and_closes() {
    let s = ConnState::AwaitingRequest;
    let s = conn_step(s, ConnEvent::RequestArrived);
    assert_eq!(s, ConnState::Processing);
    let s = conn_step(s, ConnEvent::Resolved);
    assert_eq!(s, ConnState::WritingResponse);
    let s = conn_step(s, ConnEvent::ResponseWritten);
    assert_eq!(s, ConnState::AwaitingRequest);
    // Closing a connection is always safe, from any state.
    assert_eq!(conn_step(s, ConnEvent::EndOfStream), ConnState::Closed);
    assert_eq!(
        conn_step(ConnState::Processing, ConnEvent::IoError),
        ConnState::Closed
    );
    // Out-of-order protocol events close rather than guess.
    assert_eq!(
        conn_step(ConnState::AwaitingRequest, ConnEvent::Resolved),
        ConnState::Closed
    );
    // Closed is absorbing.
    assert_eq!(
        conn_step(ConnState::Closed, ConnEvent::RequestArrived),
        ConnState::Closed
    );
}

#[test]
fn response_struct_carries_id_and_body() {
    let resp = Response {
        id: "x".to_string(),
        body: ResponseBody::Success(RpcOutput::Injected),
    };
    assert_eq!(resp.id, "x");
    assert!(matches!(resp.body, ResponseBody::Success(RpcOutput::Injected)));
}
