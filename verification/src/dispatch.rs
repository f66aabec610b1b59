//! The RPC dispatcher: route one decoded envelope to its handler.
//!
//! A request carrying an id owes the client exactly one response with that
//! id, whatever happens in the handler; a notification owes none. Sync
//! handlers answer here; the rest become a task the surrounding transport
//! performs, whose completion goes through `complete_task` — the only
//! other producer of responses.

use vstd::prelude::*;
use crate::hostname::handle_get_hostname;
use crate::http::{BodyDelivery, DelegatedHttp, HeadersDelivery, PendingView};
use crate::multiplexer::{BridgeView, ServerMultiplexer};
use crate::protocol::{
    AcquireCliParams, CallServerHttpParams, ForwardParams, RequestParams, RpcError, RpcMethod,
    RpcRequest, RpcResponse, RpcResult, ServeParams, SpawnParams, UnforwardParams, UpdateParams,
    spec_parse_method, parse_method,
};
use crate::runtime::{next_message_id, wrap_inc};
use crate::server::{CodeServerArgs, CodeServerSlot};
use crate::streams::{StreamTable, StreamView};
use crate::update::DidUpdate;

verus! {

/// The shared per-connection handler state.
pub struct ConnState {
    /// Whether this process updated its own binary.
    pub did_update: DidUpdate,
    /// The bridged sessions.
    pub multiplexer: ServerMultiplexer,
    /// The delegated HTTP requests being served by the client.
    pub http_requests: DelegatedHttp,
    /// The exclusive editor-server slot.
    pub code_server: CodeServerSlot,
    /// The cached editor-server launch arguments.
    pub code_server_args: CodeServerArgs,
    /// The inline byte streams of duplex methods.
    pub streams: StreamTable,
    /// Allocates stream ids for duplex methods.
    pub stream_counter: u32,
}

impl ConnState {
    pub open spec fn wf(self) -> bool {
        self.multiplexer.wf() && self.http_requests.wf() && self.streams.wf()
    }

    pub fn new(args: CodeServerArgs) -> (r: ConnState)
        ensures
            r.wf(),
            !r.did_update.is_set(),
            r.multiplexer.count() == 0,
            r.http_requests.count() == 0,
            r.code_server is Empty,
            r.code_server_args == args,
            r.streams.count() == 0,
            r.stream_counter == 0,
    {
        ConnState {
            did_update: DidUpdate::new(),
            multiplexer: ServerMultiplexer::new(),
            http_requests: DelegatedHttp::new(),
            code_server: CodeServerSlot::Empty,
            code_server_args: args,
            streams: StreamTable::new(),
            stream_counter: 0,
        }
    }
}

/// The stream ids bound to a spawned child's stdio: subsequent frames
/// carrying `stdin` route into the child; the child's output comes back
/// under `stdout` and `stderr`.
pub struct StdioStreams {
    pub stdin: u32,
    pub stdout: u32,
    pub stderr: u32,
}

/// Work the transport must perform for an async or I/O-bound method.
pub enum TaskKind {
    Serve(ServeParams),
    Update(UpdateParams),
    Prune,
    CallServerHttp(CallServerHttpParams),
    Forward(ForwardParams),
    Unforward(UnforwardParams),
    AcquireCli(AcquireCliParams),
    Spawn(SpawnParams, StdioStreams),
}

/// A started task, carrying the id its completion must answer.
pub struct PendingTask {
    pub id: Option<u32>,
    pub work: TaskKind,
}

/// Where the response of one request stands after dispatch.
pub enum Disposition {
    /// The response, produced inline by a sync handler.
    Reply(RpcResponse),
    /// A notification handled inline: nothing is owed.
    NoReply,
    /// A task was started; its completion owes the response, if an id was
    /// given.
    Task(PendingTask),
}

/// A side effect the transport must carry out, besides any response.
pub enum Effect {
    /// Write these bytes to the editor socket of the bridge under
    /// `socket_id`, in arrival order (through the session's decompressor
    /// when its mode asks for one).
    DeliverToEditor { socket_id: u16, bytes: Vec<u8> },
    /// Hand the initial response of a delegated request to its awaiter.
    HttpInitial { req_id: u32, headers: HeadersDelivery },
    /// Hand one body segment of a delegated request to its awaiter.
    HttpBody { req_id: u32, segment: BodyDelivery },
}

/// What one dispatch produced.
pub struct DispatchOutcome {
    pub disposition: Disposition,
    pub effect: Option<Effect>,
}

/// Whether the decoded params fit the method: the empty-object methods
/// accept anything that decoded, the rest demand their own shape.
pub open spec fn spec_params_ok(m: RpcMethod, p: RequestParams) -> bool {
    match m {
        RpcMethod::Ping | RpcMethod::GetHostname | RpcMethod::Prune => !(p is Malformed),
        RpcMethod::Serve => p is Serve,
        RpcMethod::Update => p is Update,
        RpcMethod::ServerMsg => p is ServerMessage,
        RpcMethod::CallServerHttp => p is CallServerHttp,
        RpcMethod::Forward => p is Forward,
        RpcMethod::Unforward => p is Unforward,
        RpcMethod::AcquireCli => p is AcquireCli,
        RpcMethod::Spawn => p is Spawn,
        RpcMethod::HttpHeaders => p is HttpHeaders,
        RpcMethod::HttpBody => p is HttpBody,
    }
}

/// How many responses the disposition carries right now.
pub open spec fn responses_now(d: Disposition) -> nat {
    if d is Reply {
        1
    } else {
        0
    }
}

/// How many responses the disposition still owes, at task completion.
pub open spec fn responses_owed(d: Disposition) -> nat {
    match d {
        Disposition::Task(t) => if t.id is Some {
            1
        } else {
            0
        },
        _ => 0,
    }
}

/// Correlation of one request with its disposition: an inline reply
/// carries the request's id; a task carries the id for its completion;
/// and the number of responses — now or owed — is one for a request with
/// an id, zero for a notification.
pub open spec fn correlates(id: Option<u32>, d: Disposition) -> bool {
    &&& (d matches Disposition::Reply(resp) ==> id matches Some(k) && resp.id == k)
    &&& (d matches Disposition::Task(t) ==> t.id == id)
    &&& responses_now(d) + responses_owed(d) == (if id is Some {
        1nat
    } else {
        0nat
    })
}

/// The response a completed task produces: exactly one for the id the
/// request gave, none for a notification.
pub open spec fn spec_complete(id: Option<u32>, outcome: Result<RpcResult, RpcError>) -> Option<
    RpcResponse,
> {
    match id {
        Some(k) => Some(RpcResponse { id: k, outcome }),
        None => None,
    }
}

/// Build the response of a finished task.
pub fn complete_task(id: Option<u32>, outcome: Result<RpcResult, RpcError>) -> (r: Option<
    RpcResponse,
>)
    ensures
        r == spec_complete(id, outcome),
{
    match id {
        Some(k) => Some(RpcResponse { id: k, outcome }),
        None => None,
    }
}

/// RPC correlation: for a request with id `k`, dispatch produces exactly
/// one response with id `k` — inline, or at the completion of the task it
/// started; a notification produces none, inline or later.
pub proof fn lemma_rpc_correlation(
    id: Option<u32>,
    d: Disposition,
    outcome: Result<RpcResult, RpcError>,
)
    requires
        correlates(id, d),
    ensures
        id matches Some(k) ==> responses_now(d) + responses_owed(d) == 1 && (
        d matches Disposition::Reply(resp) ==> resp.id == k) && (d matches Disposition::Task(t)
            ==> spec_complete(t.id, outcome) matches Some(resp2) && resp2.id == k),
        id is None ==> responses_now(d) == 0 && (d matches Disposition::Task(t) ==> spec_complete(
            t.id,
            outcome,
        ) is None),
{
}

/// An inline reply for the request's id, or nothing for a notification.
fn answer(id: Option<u32>, outcome: Result<RpcResult, RpcError>) -> (r: Disposition)
    ensures
        correlates(id, r),
        id matches Some(k) ==> r matches Disposition::Reply(resp) && resp.id == k && resp.outcome
            == outcome,
        id is None ==> r is NoReply,
{
    match id {
        Some(k) => Disposition::Reply(RpcResponse { id: k, outcome }),
        None => Disposition::NoReply,
    }
}

/// A started task for the request's id.
fn start_task(id: Option<u32>, work: TaskKind) -> (r: Disposition)
    ensures
        correlates(id, r),
        r matches Disposition::Task(t) && t.id == id && t.work == work,
{
    Disposition::Task(PendingTask { id, work })
}

/// Dispatch one decoded request.
///
/// An unknown method is answered `MethodNotFound`; params that failed to
/// decode for their method are answered `InvalidRpcData`; both leave the
/// connection open and the state unchanged. `ping`, `gethostname`,
/// `servermsg`, `httpheaders` and `httpbody` are handled inline; the rest
/// start a task. `spawn` additionally registers three fresh inline
/// streams for the child's stdio, which later frames route into. Whatever
/// the path, the disposition correlates with the request's id.
pub fn dispatch(state: &mut ConnState, req: RpcRequest) -> (r: DispatchOutcome)
    requires
        old(state).wf(),
    ensures
        final(state).wf(),
        correlates(req.id, r.disposition),
        final(state).did_update == old(state).did_update,
        final(state).code_server == old(state).code_server,
        final(state).code_server_args == old(state).code_server_args,
        ({
            let m = spec_parse_method(req.method@);
            &&& (m is None ==> *final(state) == *old(state) && r.effect is None && (
            req.id is Some ==> (r.disposition matches Disposition::Reply(resp) && (
            resp.outcome matches Err(e) && e is MethodNotFound))) && (req.id is None
                ==> r.disposition is NoReply))
            &&& (m matches Some(mm) && !spec_params_ok(mm, req.params) ==> *final(state) == *old(
                state,
            ) && r.effect is None && (req.id is Some ==> (r.disposition
                matches Disposition::Reply(resp) && (resp.outcome matches Err(e)
                && e is InvalidRpcData))) && (req.id is None ==> r.disposition is NoReply))
            &&& (m == Some(RpcMethod::Ping) && !(req.params is Malformed) ==> *final(state)
                == *old(state) && r.effect is None && (req.id is Some ==> (r.disposition
                matches Disposition::Reply(resp) && (resp.outcome matches Ok(res)
                && res is Empty))) && (req.id is None ==> r.disposition is NoReply))
            &&& (m == Some(RpcMethod::GetHostname) && !(req.params is Malformed) ==> *final(state)
                == *old(state) && r.effect is None && (req.id is Some ==> (r.disposition
                matches Disposition::Reply(resp) && (resp.outcome matches Ok(res)
                && res is Hostname))) && (req.id is None ==> r.disposition is NoReply))
            &&& (m == Some(RpcMethod::Prune) && !(req.params is Malformed) ==> *final(state)
                == *old(state) && r.effect is None && (r.disposition matches Disposition::Task(t)
                && t.work is Prune))
            &&& (m == Some(RpcMethod::Serve) ==> *final(state) == *old(state) && r.effect is None
                && (req.params matches RequestParams::Serve(p) ==> (r.disposition
                matches Disposition::Task(t) && t.work == TaskKind::Serve(p))))
            &&& (m == Some(RpcMethod::Update) ==> *final(state) == *old(state) && r.effect is None
                && (req.params matches RequestParams::Update(p) ==> (r.disposition
                matches Disposition::Task(t) && t.work == TaskKind::Update(p))))
            &&& (m == Some(RpcMethod::CallServerHttp) ==> *final(state) == *old(state)
                && r.effect is None && (req.params matches RequestParams::CallServerHttp(p) ==> (
            r.disposition matches Disposition::Task(t) && t.work == TaskKind::CallServerHttp(p))))
            &&& (m == Some(RpcMethod::Forward) ==> *final(state) == *old(state) && r.effect is None
                && (req.params matches RequestParams::Forward(p) ==> (r.disposition
                matches Disposition::Task(t) && t.work == TaskKind::Forward(p))))
            &&& (m == Some(RpcMethod::Unforward) ==> *final(state) == *old(state)
                && r.effect is None && (req.params matches RequestParams::Unforward(p) ==> (
            r.disposition matches Disposition::Task(t) && t.work == TaskKind::Unforward(p))))
            &&& (m == Some(RpcMethod::AcquireCli) ==> *final(state) == *old(state)
                && r.effect is None && (req.params matches RequestParams::AcquireCli(p) ==> (
            r.disposition matches Disposition::Task(t) && t.work == TaskKind::AcquireCli(p))))
            &&& (m == Some(RpcMethod::Spawn) ==> final(state).multiplexer == old(state).multiplexer
                && final(state).http_requests == old(state).http_requests && r.effect is None && (
            req.params matches RequestParams::Spawn(p) ==> ({
                let a = old(state).stream_counter;
                let b = wrap_inc(a);
                let c = wrap_inc(b);
                &&& (r.disposition matches Disposition::Task(t) && (
                t.work matches TaskKind::Spawn(sp, ids) && sp == p && ids.stdin == a && ids.stdout
                    == b && ids.stderr == c))
                &&& final(state).stream_counter == wrap_inc(c)
                &&& final(state).streams.has(a) && final(state).streams.entry_at(a) == (StreamView {
                    stream_id: a,
                    received: Seq::empty(),
                })
                &&& final(state).streams.has(b) && final(state).streams.entry_at(b) == (StreamView {
                    stream_id: b,
                    received: Seq::empty(),
                })
                &&& final(state).streams.has(c) && final(state).streams.entry_at(c) == (StreamView {
                    stream_id: c,
                    received: Seq::empty(),
                })
            })))
            &&& (m == Some(RpcMethod::ServerMsg) ==> (req.params
                matches RequestParams::ServerMessage(p) ==> {
                &&& (old(state).multiplexer.has(p.i) ==> (r.effect matches Some(
                    Effect::DeliverToEditor { socket_id, bytes },
                ) && socket_id == p.i && bytes@ == p.body@) && final(state).multiplexer.bridge_at(
                    p.i,
                ) == (BridgeView {
                    inbound: old(state).multiplexer.bridge_at(p.i).inbound.push(p.body@),
                    ..old(state).multiplexer.bridge_at(p.i)
                }) && (req.id is Some ==> (r.disposition matches Disposition::Reply(resp) && (
                resp.outcome matches Ok(res) && res is Empty))))
                &&& (!old(state).multiplexer.has(p.i) ==> *final(state) == *old(state)
                    && r.effect is None && (req.id is Some ==> (r.disposition
                    matches Disposition::Reply(resp) && (resp.outcome matches Err(e)
                    && e is NoAttachedServer))))
                &&& (req.id is None ==> r.disposition is NoReply)
                &&& (forall|o: u16| #[trigger]
                    final(state).multiplexer.has(o) == old(state).multiplexer.has(o))
                &&& (forall|o: u16|
                    o != p.i && old(state).multiplexer.has(o) ==> #[trigger] final(state).multiplexer.bridge_at(o) == old(state).multiplexer.bridge_at(o))
                &&& final(state).http_requests == old(state).http_requests
                &&& final(state).streams == old(state).streams
                &&& final(state).stream_counter == old(state).stream_counter
            }))
            &&& (m == Some(RpcMethod::HttpHeaders) ==> (req.params
                matches RequestParams::HttpHeaders(p) ==> {
                &&& (old(state).http_requests.has(p.req_id) ==> (r.effect matches Some(
                    Effect::HttpInitial { req_id, headers },
                ) && req_id == p.req_id && headers.status_code == p.status_code
                    && headers.headers@ == p.headers@) && final(state).http_requests.entry_at(
                    p.req_id,
                ) == (PendingView {
                    headers_done: true,
                    ..old(state).http_requests.entry_at(p.req_id)
                }))
                &&& (!old(state).http_requests.has(p.req_id) ==> *final(state) == *old(state)
                    && r.effect is None)
                &&& (req.id is Some ==> (r.disposition matches Disposition::Reply(resp) && (
                resp.outcome matches Ok(res) && res is Empty)))
                &&& (req.id is None ==> r.disposition is NoReply)
                &&& (forall|o: u32| #[trigger]
                    final(state).http_requests.has(o) == old(state).http_requests.has(o))
                &&& final(state).multiplexer == old(state).multiplexer
                &&& final(state).streams == old(state).streams
                &&& final(state).stream_counter == old(state).stream_counter
            }))
            &&& (m == Some(RpcMethod::HttpBody) ==> (req.params matches RequestParams::HttpBody(p)
                ==> {
                &&& (old(state).http_requests.has(p.req_id) ==> (r.effect matches Some(
                    Effect::HttpBody { req_id, segment },
                ) && req_id == p.req_id && segment.segment@ == p.segment@ && segment.complete
                    == p.complete))
                &&& (p.complete ==> !final(state).http_requests.has(p.req_id))
                &&& (old(state).http_requests.has(p.req_id) && !p.complete ==> final(state).http_requests.entry_at(p.req_id) == (PendingView {
                    body: old(state).http_requests.entry_at(p.req_id).body + p.segment@,
                    ..old(state).http_requests.entry_at(p.req_id)
                }))
                &&& (!old(state).http_requests.has(p.req_id) ==> *final(state) == *old(state)
                    && r.effect is None)
                &&& (req.id is Some ==> (r.disposition matches Disposition::Reply(resp) && (
                resp.outcome matches Ok(res) && res is Empty)))
                &&& (req.id is None ==> r.disposition is NoReply)
                &&& final(state).multiplexer == old(state).multiplexer
                &&& final(state).streams == old(state).streams
                &&& final(state).stream_counter == old(state).stream_counter
            }))
        }),
{
    let id = req.id;
    let m = parse_method(&req.method);
    match m {
        None => DispatchOutcome {
            disposition: answer(id, Err(RpcError::MethodNotFound)),
            effect: None,
        },
        Some(mm) => match (mm, req.params) {
            (RpcMethod::Ping, RequestParams::Malformed) => invalid_params(id),
            (RpcMethod::Ping, _) => DispatchOutcome {
                disposition: answer(id, Ok(RpcResult::Empty)),
                effect: None,
            },
            (RpcMethod::GetHostname, RequestParams::Malformed) => invalid_params(id),
            (RpcMethod::GetHostname, _) => {
                let outcome = match handle_get_hostname() {
                    Ok(resp) => Ok(RpcResult::Hostname(resp)),
                    Err(e) => Err(e),
                };
                DispatchOutcome { disposition: answer(id, outcome), effect: None }
            },
            (RpcMethod::Prune, RequestParams::Malformed) => invalid_params(id),
            (RpcMethod::Prune, _) => DispatchOutcome {
                disposition: start_task(id, TaskKind::Prune),
                effect: None,
            },
            (RpcMethod::Serve, RequestParams::Serve(p)) => DispatchOutcome {
                disposition: start_task(id, TaskKind::Serve(p)),
                effect: None,
            },
            (RpcMethod::Update, RequestParams::Update(p)) => DispatchOutcome {
                disposition: start_task(id, TaskKind::Update(p)),
                effect: None,
            },
            (RpcMethod::CallServerHttp, RequestParams::CallServerHttp(p)) => DispatchOutcome {
                disposition: start_task(id, TaskKind::CallServerHttp(p)),
                effect: None,
            },
            (RpcMethod::Forward, RequestParams::Forward(p)) => DispatchOutcome {
                disposition: start_task(id, TaskKind::Forward(p)),
                effect: None,
            },
            (RpcMethod::Unforward, RequestParams::Unforward(p)) => DispatchOutcome {
                disposition: start_task(id, TaskKind::Unforward(p)),
                effect: None,
            },
            (RpcMethod::AcquireCli, RequestParams::AcquireCli(p)) => DispatchOutcome {
                disposition: start_task(id, TaskKind::AcquireCli(p)),
                effect: None,
            },
            (RpcMethod::Spawn, RequestParams::Spawn(p)) => {
                // Three inline streams for the child's stdio; a stale
                // entry under a wrapped-around id is closed first.
                let a = next_message_id(&mut state.stream_counter);
                let b = next_message_id(&mut state.stream_counter);
                let c = next_message_id(&mut state.stream_counter);
                proof {
                    assert(b != a && c != a && c != b);
                }
                open_fresh(&mut state.streams, a);
                open_fresh(&mut state.streams, b);
                open_fresh(&mut state.streams, c);
                DispatchOutcome {
                    disposition: start_task(
                        id,
                        TaskKind::Spawn(p, StdioStreams { stdin: a, stdout: b, stderr: c }),
                    ),
                    effect: None,
                }
            },
            (RpcMethod::ServerMsg, RequestParams::ServerMessage(p)) => {
                let sid = p.i;
                match state.multiplexer.write_message(p.i, p.body) {
                    Some(bytes) => DispatchOutcome {
                        disposition: answer(id, Ok(RpcResult::Empty)),
                        effect: Some(Effect::DeliverToEditor { socket_id: sid, bytes }),
                    },
                    None => DispatchOutcome {
                        disposition: answer(id, Err(RpcError::NoAttachedServer)),
                        effect: None,
                    },
                }
            },
            (RpcMethod::HttpHeaders, RequestParams::HttpHeaders(p)) => {
                let rid = p.req_id;
                let effect = match state.http_requests.handle_httpheaders(p) {
                    Some(headers) => Some(Effect::HttpInitial { req_id: rid, headers }),
                    None => None,
                };
                DispatchOutcome { disposition: answer(id, Ok(RpcResult::Empty)), effect }
            },
            (RpcMethod::HttpBody, RequestParams::HttpBody(p)) => {
                let rid = p.req_id;
                let effect = match state.http_requests.handle_httpbody(p) {
                    Some(segment) => Some(Effect::HttpBody { req_id: rid, segment }),
                    None => None,
                };
                DispatchOutcome { disposition: answer(id, Ok(RpcResult::Empty)), effect }
            },
            (_, _) => invalid_params(id),
        },
    }
}

/// Open a stream under `id`, closing any stale stream left there by a
/// wrapped-around counter.
fn open_fresh(streams: &mut StreamTable, id: u32)
    requires
        old(streams).wf(),
    ensures
        final(streams).wf(),
        final(streams).has(id),
        final(streams).entry_at(id) == (StreamView { stream_id: id, received: Seq::empty() }),
        forall|o: u32| o != id ==> #[trigger] final(streams).has(o) == old(streams).has(o),
        forall|o: u32|
            o != id && old(streams).has(o) ==> #[trigger] final(streams).entry_at(o) == old(
                streams,
            ).entry_at(o),
{
    if streams.contains(id) {
        streams.remove(id);
    }
    streams.open(id);
}

/// The answer for params that failed to decode for their method: the
/// error response, with the connection left open.
fn invalid_params(id: Option<u32>) -> (r: DispatchOutcome)
    ensures
        correlates(id, r.disposition),
        r.effect is None,
        id matches Some(k) ==> r.disposition matches Disposition::Reply(resp) && resp.id == k && (
        resp.outcome matches Err(e) && e is InvalidRpcData),
        id is None ==> r.disposition is NoReply,
{
    DispatchOutcome {
        disposition: answer(id, Err(RpcError::InvalidRpcData(String::from_str("invalid params")))),
        effect: None,
    }
}

} // verus!
