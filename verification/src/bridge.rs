use vstd::prelude::*;
use crate::peer::PeerId;
use crate::sink::{CaptureEntry, entries_from, EntryView};
use crate::registry::PeerRecord;
use crate::harness::Harness;
use crate::hex::{hex_decode, hex_bytes, valid_hex};

verus! {

/// A scalar request parameter, as the driver's value coercion produces it:
/// integer-parseable became a number, boolean-parseable a boolean, anything
/// else a string.
#[derive(Debug, PartialEq, Eq)]
pub enum ParamValue {
    Num(u64),
    Bool(bool),
    Str(String),
}

/// Mathematical image of a `ParamValue`.
pub ghost enum ParamView {
    Num(u64),
    Bool(bool),
    Str(Seq<char>),
}

impl View for ParamValue {
    type V = ParamView;

    open spec fn view(&self) -> ParamView {
        match self {
            ParamValue::Num(n) => ParamView::Num(*n),
            ParamValue::Bool(b) => ParamView::Bool(*b),
            ParamValue::Str(s) => ParamView::Str(s@),
        }
    }
}

impl ParamValue {
    /// An owned copy that denotes the same value.
    pub fn duplicate(&self) -> (r: ParamValue)
        ensures
            r@ == self@,
    {
        match self {
            ParamValue::Num(n) => ParamValue::Num(*n),
            ParamValue::Bool(b) => ParamValue::Bool(*b),
            ParamValue::Str(s) => ParamValue::Str(s.clone()),
        }
    }
}

/// One self-delimited driver request: `{id, method, params}`.
pub struct Request {
    pub id: String,
    pub method: String,
    pub params: Vec<(String, ParamValue)>,
}

/// A structured error response: `{kind, message}`.
pub struct RpcError {
    pub kind: String,
    pub message: String,
}

/// The payload of a successful response.
pub enum RpcOutput {
    Peers(Vec<PeerRecord>),
    Events(Vec<CaptureEntry>),
    Injected,
}

pub enum ResponseBody {
    Success(RpcOutput),
    Failure(RpcError),
}

/// Exactly one response per request, correlated by the request's `id`.
pub struct Response {
    pub id: String,
    pub body: ResponseBody,
}

/// A synthetic outbound instruction for the out-of-scope send-path
/// collaborator; the bridge only forwards it.
pub struct InjectedAction {
    pub peer: PeerId,
    pub action: ParamValue,
}

/// Lifecycle of one driver connection. No session state outlives the
/// in-flight request: the durable state all lives in the capture sink and
/// the peer registry.
#[derive(Clone, Copy, PartialEq, Eq, Structural, Debug)]
pub enum ConnState {
    AwaitingRequest,
    Processing,
    WritingResponse,
    Closed,
}

/// What the transport loop reports back to the state machine.
#[derive(Clone, Copy, PartialEq, Eq, Structural, Debug)]
pub enum ConnEvent {
    RequestArrived,
    Resolved,
    ResponseWritten,
    EndOfStream,
    IoError,
    Disconnect,
}

/// Whether an event closes the connection outright: an I/O error, an
/// explicit disconnect, or end-of-stream, each of which is always safe and
/// releases only that connection's resources.
pub open spec fn closing_event(e: ConnEvent) -> bool {
    e == ConnEvent::EndOfStream || e == ConnEvent::IoError || e == ConnEvent::Disconnect
}

/// Advance one connection: requests are read, resolved and answered
/// strictly in order, looping back to await the next request; a closing
/// event ends the session from any state, and anything out of protocol
/// order closes rather than guesses. `Closed` is absorbing.
pub fn conn_step(state: ConnState, event: ConnEvent) -> (r: ConnState)
    ensures
        closing_event(event) ==> r == ConnState::Closed,
        state == ConnState::Closed ==> r == ConnState::Closed,
        !closing_event(event) ==> r == match (state, event) {
            (ConnState::AwaitingRequest, ConnEvent::RequestArrived) => ConnState::Processing,
            (ConnState::Processing, ConnEvent::Resolved) => ConnState::WritingResponse,
            (ConnState::WritingResponse, ConnEvent::ResponseWritten) => ConnState::AwaitingRequest,
            _ => ConnState::Closed,
        },
{
    match (state, event) {
        (ConnState::AwaitingRequest, ConnEvent::RequestArrived) => ConnState::Processing,
        (ConnState::Processing, ConnEvent::Resolved) => ConnState::WritingResponse,
        (ConnState::WritingResponse, ConnEvent::ResponseWritten) => ConnState::AwaitingRequest,
        _ => ConnState::Closed,
    }
}

pub open spec fn params_view(ps: Seq<(String, ParamValue)>) -> Seq<(Seq<char>, ParamView)> {
    ps.map(|i: int, kv: (String, ParamValue)| (kv.0@, kv.1@))
}

/// First parameter bound to `k`, if any.
pub open spec fn lookup_param(ps: Seq<(Seq<char>, ParamView)>, k: Seq<char>) -> Option<ParamView>
    decreases ps.len(),
{
    if ps.len() == 0 {
        None
    } else if ps[0].0 == k {
        Some(ps[0].1)
    } else {
        lookup_param(ps.drop_first(), k)
    }
}

/// The methods the bridge resolves; anything else is a framing error.
pub open spec fn known_method(m: Seq<char>) -> bool {
    m == "get_events"@ || m == "list_peers"@ || m == "drain_events"@ || m == "inject_action"@
}

/// The peer a request addresses: its `peer_id` parameter must be a string
/// of hexadecimal digits denoting the peer's public key bytes.
pub open spec fn peer_param(req: Request) -> Option<Seq<u8>> {
    match lookup_param(params_view(req.params@), "peer_id"@) {
        Some(ParamView::Str(s)) => if valid_hex(s) {
            Some(hex_bytes(s))
        } else {
            None
        },
        _ => None,
    }
}

/// The cursor a request starts reading from: its `since_seq` parameter must
/// be a number; a missing parameter reads from the start.
pub open spec fn since_param(req: Request) -> Option<u64> {
    match lookup_param(params_view(req.params@), "since_seq"@) {
        Some(ParamView::Num(n)) => Some(n),
        Some(_) => None,
        None => Some(0),
    }
}

/// The instruction an `inject_action` request forwards.
pub open spec fn action_param(req: Request) -> Option<ParamView> {
    lookup_param(params_view(req.params@), "action"@)
}

proof fn lemma_lookup_skip(ps: Seq<(Seq<char>, ParamView)>, k: Seq<char>, i: int)
    requires
        0 <= i <= ps.len(),
        forall|j: int| 0 <= j < i ==> (#[trigger] ps[j]).0 != k,
    ensures
        lookup_param(ps, k) == lookup_param(ps.skip(i), k),
    decreases i,
{
    if i == 0 {
        assert(ps.skip(0) =~= ps);
    } else {
        lemma_lookup_skip(ps, k, i - 1);
        assert(ps.skip(i - 1)[0] == ps[i - 1]);
        assert(ps[i - 1].0 != k);
        assert(ps.skip(i - 1).drop_first() =~= ps.skip(i));
        assert(lookup_param(ps.skip(i - 1), k) == lookup_param(ps.skip(i), k));
    }
}

/// First parameter of `req` bound to `key`, if any.
fn get_param<'a>(req: &'a Request, key: &str) -> (r: Option<&'a ParamValue>)
    ensures
        match r {
            Some(pv) => lookup_param(params_view(req.params@), key@) == Some(pv@),
            None => lookup_param(params_view(req.params@), key@) is None,
        },
{
    let key_owned = key.to_owned();
    let mut i: usize = 0;
    while i < req.params.len()
        invariant
            i <= req.params@.len(),
            key_owned@ == key@,
            forall|j: int| 0 <= j < i ==> (#[trigger] params_view(req.params@)[j]).0 != key@,
        decreases req.params@.len() - i,
    {
        if req.params[i].0 == key_owned {
            proof {
                lemma_lookup_skip(params_view(req.params@), key@, i as int);
                assert(params_view(req.params@).skip(i as int)[0] == params_view(req.params@)[
                    i as int]);
            }
            return Some(&req.params[i].1);
        }
        i += 1;
    }
    proof {
        lemma_lookup_skip(params_view(req.params@), key@, i as int);
        assert(params_view(req.params@).skip(i as int) =~= Seq::<(Seq<char>, ParamView)>::empty());
    }
    None
}

/// True exactly when the request names this method.
fn is_method(req: &Request, name: &str) -> (r: bool)
    ensures
        r == (req.method@ == name@),
{
    req.method == name.to_owned()
}

fn failure(id: String, kind: &str, message: &str) -> (r: Response)
    ensures
        r.id@ == id@,
        r.body matches ResponseBody::Failure(e) && e.kind@ == kind@ && e.message@ == message@,
{
    Response {
        id,
        body: ResponseBody::Failure(RpcError { kind: kind.to_owned(), message: message.to_owned() }),
    }
}

/// Resolve one driver request against the harness state and produce exactly
/// one response carrying the request's own `id`. An unknown method never
/// times out or drops the connection: it yields a structured error. Only
/// `drain_events` changes any state, and only the addressed peer's ring.
/// For `inject_action` the forwarded instruction is handed back to the
/// caller, whose send path is outside the library.
pub fn handle_request(h: &mut Harness, req: &Request) -> (r: (Response, Option<InjectedAction>))
    requires
        old(h).wf(),
    ensures
        final(h).wf(),
        r.0.id@ == req.id@,
        req.method@ != "drain_events"@ ==> final(h).sink == old(h).sink && final(h).registry
            == old(h).registry,
        req.method@ == "drain_events"@ ==> final(h).registry == old(h).registry
            && final(h).sink.capacity == old(h).sink.capacity,
        !known_method(req.method@) ==> (r.0.body matches ResponseBody::Failure(e) && e.kind@
            == "unknown_method"@) && r.1 is None,
        req.method@ == "list_peers"@ ==> (r.0.body matches ResponseBody::Success(
            RpcOutput::Peers(v),
        ) && v@.map(|i: int, rec: PeerRecord| rec@) == old(h).registry.records()) && r.1 is None,
        req.method@ == "get_events"@ ==> match (peer_param(*req), since_param(*req)) {
            (Some(p), Some(n)) => (r.0.body matches ResponseBody::Success(RpcOutput::Events(v))
                && v@.map(|i: int, e: CaptureEntry| e@) == entries_from(old(h).sink.log(p), n))
                && r.1 is None,
            _ => (r.0.body matches ResponseBody::Failure(e) && e.kind@ == "invalid_params"@)
                && r.1 is None,
        },
        req.method@ == "drain_events"@ ==> match peer_param(*req) {
            Some(p) => {
                &&& r.0.body matches ResponseBody::Success(RpcOutput::Events(v)) && v@.map(
                    |i: int, e: CaptureEntry| e@,
                ) == old(h).sink.log(p)
                &&& final(h).sink.log(p) == Seq::<EntryView>::empty()
                &&& final(h).sink.next(p) == old(h).sink.next(p)
                &&& forall|q: Seq<u8>| #![auto] q != p
                    ==> final(h).sink.log(q) == old(h).sink.log(q)
                        && final(h).sink.next(q) == old(h).sink.next(q)
                &&& r.1 is None
            },
            None => (r.0.body matches ResponseBody::Failure(e) && e.kind@ == "invalid_params"@)
                && final(h).sink == old(h).sink && r.1 is None,
        },
        req.method@ == "inject_action"@ ==> match (peer_param(*req), action_param(*req)) {
            (Some(p), Some(a)) => (r.0.body matches ResponseBody::Success(RpcOutput::Injected))
                && (r.1 matches Some(act) && act.peer@ == p && act.action@ == a),
            _ => (r.0.body matches ResponseBody::Failure(e) && e.kind@ == "invalid_params"@)
                && r.1 is None,
        },
{
    proof {
        // The four method names are pairwise distinct strings; the branch
        // taken below therefore settles every method-keyed clause above.
        reveal_strlit("get_events");
        reveal_strlit("list_peers");
        reveal_strlit("drain_events");
        reveal_strlit("inject_action");
        assert("get_events"@.len() == 10);
        assert("list_peers"@.len() == 10);
        assert("drain_events"@.len() == 12);
        assert("inject_action"@.len() == 13);
        assert("get_events"@[0] == 'g');
        assert("list_peers"@[0] == 'l');
        assert("get_events"@ != "list_peers"@);
        assert("get_events"@ != "drain_events"@);
        assert("get_events"@ != "inject_action"@);
        assert("list_peers"@ != "drain_events"@);
        assert("list_peers"@ != "inject_action"@);
        assert("drain_events"@ != "inject_action"@);
    }
    let id = req.id.clone();
    if is_method(req, "list_peers") {
        let v = h.registry.list();
        (Response { id, body: ResponseBody::Success(RpcOutput::Peers(v)) }, None)
    } else if is_method(req, "get_events") {
        match get_param(req, "peer_id") {
            Some(ParamValue::Str(s)) => match hex_decode(s.as_str()) {
                Some(bytes) => {
                    let since: u64 = match get_param(req, "since_seq") {
                        Some(ParamValue::Num(n)) => *n,
                        Some(_) => {
                            return (failure(id, "invalid_params", "since_seq must be a number"),
                            None);
                        },
                        None => 0,
                    };
                    let pid = PeerId::new(bytes);
                    let v = h.sink.read_from(&pid, since);
                    (Response { id, body: ResponseBody::Success(RpcOutput::Events(v)) }, None)
                },
                None => (failure(id, "invalid_params", "peer_id must be a hex string"), None),
            },
            _ => (failure(id, "invalid_params", "peer_id must be a hex string"), None),
        }
    } else if is_method(req, "drain_events") {
        match get_param(req, "peer_id") {
            Some(ParamValue::Str(s)) => match hex_decode(s.as_str()) {
                Some(bytes) => {
                    let pid = PeerId::new(bytes);
                    let v = h.sink.drain(&pid);
                    (Response { id, body: ResponseBody::Success(RpcOutput::Events(v)) }, None)
                },
                None => (failure(id, "invalid_params", "peer_id must be a hex string"), None),
            },
            _ => (failure(id, "invalid_params", "peer_id must be a hex string"), None),
        }
    } else if is_method(req, "inject_action") {
        match get_param(req, "peer_id") {
            Some(ParamValue::Str(s)) => match hex_decode(s.as_str()) {
                Some(bytes) => match get_param(req, "action") {
                    Some(act) => {
                        let forwarded = InjectedAction {
                            peer: PeerId::new(bytes),
                            action: act.duplicate(),
                        };
                        (
                            Response { id, body: ResponseBody::Success(RpcOutput::Injected) },
                            Some(forwarded),
                        )
                    },
                    None => (failure(id, "invalid_params", "action is required"), None),
                },
                None => (failure(id, "invalid_params", "peer_id must be a hex string"), None),
            },
            _ => (failure(id, "invalid_params", "peer_id must be a hex string"), None),
        }
    } else {
        (failure(id, "unknown_method", "method is not part of the command surface"), None)
    }
}

} // verus!
