//! Per-connection runtime and the outer accept loop, as state machines.
//!
//! The surrounding transport owns the socket and the task tree; it feeds
//! each event into the step functions here and performs the action each
//! step returns. The write loop is the sole owner of the outbound half:
//! every outbound byte goes through a `WriteAction`. The read loop feeds
//! raw chunks through `read_step`.

use vstd::prelude::*;
use crate::frame::{parse_fatal, parse_frames, parse_rest, FrameDecoder, FrameError};
use crate::http::{DelegatedHttp, PendingView};
use crate::multiplexer::ServerMultiplexer;
use crate::streams::StreamTable;
use crate::protocol::{ClientRequestMethod, ServerLog, ToClientRequest, VersionParams};
use crate::update::DidUpdate;

verus! {

/// The message id counter: wraps at the top, like the atomic fetch-add it
/// stands for. Uniqueness is needed only within one connection; monotone
/// growth suffices in practice.
pub open spec fn wrap_inc(c: u32) -> u32 {
    if c == u32::MAX {
        0
    } else {
        (c + 1) as u32
    }
}

/// Saturating byte-counter addition.
pub open spec fn sat_add64(a: u64, b: u64) -> u64 {
    if a + b > u64::MAX {
        u64::MAX
    } else {
        (a + b) as u64
    }
}

/// Take the next incrementing message id off the counter.
pub fn next_message_id(counter: &mut u32) -> (r: u32)
    ensures
        r == *old(counter),
        *final(counter) == wrap_inc(*old(counter)),
{
    let id = *counter;
    if *counter == u32::MAX {
        *counter = 0;
    } else {
        *counter = *counter + 1;
    }
    id
}

/// What the outer loop's caller should do next.
pub enum Next {
    /// Re-execute the process with identical arguments.
    Respawn,
    /// Rebuild the tunnel and loop again.
    Restart,
    /// Exit the process.
    Exit,
}

/// The outcome of the outer accept loop.
pub struct ServerTermination {
    pub next: Next,
}

/// The shutdown reasons the outer loop can be handed.
pub enum ShutdownSignal {
    CtrlC,
    ParentProcessKilled,
    RpcShutdownRequested,
    RpcRestartRequested,
}

/// One event the accept loop selects over.
pub enum AcceptEvent {
    /// The outer shutdown barrier fired with this reason.
    Shutdown(ShutdownSignal),
    /// Some connection asked for a process respawn.
    RespawnRequested,
    /// The respawn channel yielded nothing actionable.
    SignalIdle,
    /// A port-forwarding event arrived.
    PortForwardEvent,
    /// The control port accepted a new byte stream.
    Accepted,
    /// The control port closed: the tunnel is gone.
    PortClosed,
}

/// The action the accept loop takes for one event.
pub enum AcceptAction {
    /// Leave the loop with this outcome.
    Terminate(Next),
    /// Spawn a per-connection runtime for the accepted stream.
    SpawnConnection,
    /// Hand the event to the port-forwarding capability.
    ProcessForwarding,
    /// Nothing to do; select again.
    Continue,
}

/// The accept loop's decision table.
pub open spec fn spec_accept_step(ev: AcceptEvent) -> AcceptAction {
    match ev {
        AcceptEvent::Shutdown(sig) => AcceptAction::Terminate(
            match sig {
                ShutdownSignal::RpcRestartRequested => Next::Restart,
                _ => Next::Exit,
            },
        ),
        AcceptEvent::RespawnRequested => AcceptAction::Terminate(Next::Respawn),
        AcceptEvent::SignalIdle => AcceptAction::Continue,
        AcceptEvent::PortForwardEvent => AcceptAction::ProcessForwarding,
        AcceptEvent::Accepted => AcceptAction::SpawnConnection,
        AcceptEvent::PortClosed => AcceptAction::Terminate(Next::Restart),
    }
}

/// One step of the accept loop: a shutdown reason terminates with `Restart`
/// when an RPC restart was requested and `Exit` otherwise; a respawn
/// request terminates with `Respawn`; losing the tunnel port terminates
/// with `Restart`; accepted streams and forwarding events are handed on.
pub fn accept_step(ev: AcceptEvent) -> (r: AcceptAction)
    ensures
        r == spec_accept_step(ev),
{
    match ev {
        AcceptEvent::Shutdown(sig) => AcceptAction::Terminate(
            match sig {
                ShutdownSignal::RpcRestartRequested => Next::Restart,
                _ => Next::Exit,
            },
        ),
        AcceptEvent::RespawnRequested => AcceptAction::Terminate(Next::Respawn),
        AcceptEvent::SignalIdle => AcceptAction::Continue,
        AcceptEvent::PortForwardEvent => AcceptAction::ProcessForwarding,
        AcceptEvent::Accepted => AcceptAction::SpawnConnection,
        AcceptEvent::PortClosed => AcceptAction::Terminate(Next::Restart),
    }
}

/// Once some `update` call has set the flag, it stays set (no operation of
/// `DidUpdate` clears it), the teardown report of the closing connection
/// asks for a respawn, and the accept loop's answer to that signal is to
/// terminate with `Respawn`.
pub proof fn lemma_update_forces_respawn(did: DidUpdate)
    requires
        did.is_set(),
    ensures
        spec_accept_step(AcceptEvent::RespawnRequested) == AcceptAction::Terminate(Next::Respawn),
{
}

/// A value on the write queue: bytes to send, or an order to close.
pub enum SocketSignal {
    /// Already-serialized bytes for the outbound half.
    Send(Vec<u8>),
    /// Close the connection, logging this reason.
    CloseWith(String),
}

/// One event the write loop selects over.
pub enum WriteEvent {
    /// The shutdown barrier fired.
    ExitRequested,
    /// The delegated HTTP client asked for a request toward the client.
    DelegatedRequest { url: String, method: String },
    /// A handler or bridge put a value on the write queue.
    Signal(SocketSignal),
    /// The write queue's senders are all gone.
    ChannelClosed,
}

/// The action the write loop takes for one event.
pub enum WriteAction {
    /// Half-close the outbound side and leave the loop.
    Shutdown,
    /// Serialize this push and write it; count its bytes with `note_sent`.
    Emit(ToClientRequest),
    /// Write these bytes.
    WriteBytes(Vec<u8>),
    /// Leave the loop, logging this reason.
    Close(String),
    /// Leave the loop.
    Stop,
}

/// The write-loop state: the sole owner of the outbound half.
pub struct ConnWriter {
    /// Allocates `req_id`s for delegated HTTP requests.
    pub msg_counter: u32,
    /// Outbound byte counter.
    pub tx_bytes: u64,
}

impl ConnWriter {
    pub fn new() -> (r: ConnWriter)
        ensures
            r.msg_counter == 0,
            r.tx_bytes == 0,
    {
        ConnWriter { msg_counter: 0, tx_bytes: 0 }
    }

    /// Count bytes written by the transport after serializing an `Emit`.
    pub fn note_sent(&mut self, n: u64)
        ensures
            final(self).tx_bytes == sat_add64(old(self).tx_bytes, n),
            final(self).msg_counter == old(self).msg_counter,
    {
        if self.tx_bytes > u64::MAX - n {
            self.tx_bytes = u64::MAX;
        } else {
            self.tx_bytes = self.tx_bytes + n;
        }
    }

    /// One step of the write loop. A delegated request allocates a fresh
    /// `req_id`, records the pending entry (dropping any stale entry left
    /// under a wrapped-around id), and emits the `makehttpreq` push; queue
    /// bytes are written and counted; a close order or a closed queue ends
    /// the loop; the shutdown barrier half-closes the socket.
    pub fn write_step(&mut self, http: &mut DelegatedHttp, ev: WriteEvent) -> (r: WriteAction)
        requires
            old(http).wf(),
        ensures
            final(http).wf(),
            ev is ExitRequested ==> r is Shutdown && *final(self) == *old(self) && *final(http)
                == *old(http),
            ev is ChannelClosed ==> r is Stop && *final(self) == *old(self) && *final(http)
                == *old(http),
            (ev matches WriteEvent::Signal(SocketSignal::CloseWith(reason)) ==> r
                matches WriteAction::Close(c) && c@ == reason@ && *final(self) == *old(self)
                && *final(http) == *old(http)),
            (ev matches WriteEvent::Signal(SocketSignal::Send(bytes)) ==> r
                matches WriteAction::WriteBytes(b) && b@ == bytes@ && final(self).tx_bytes
                == sat_add64(old(self).tx_bytes, bytes@.len() as u64) && final(self).msg_counter
                == old(self).msg_counter && *final(http) == *old(http)),
            (ev matches WriteEvent::DelegatedRequest { url, method } ==> ({
                let id = old(self).msg_counter;
                r matches WriteAction::Emit(req) && req.id is None && (
                req.params matches ClientRequestMethod::makehttpreq(q) && q.req_id == id && q.url@
                    == url@ && q.method@ == method@) && final(self).msg_counter == wrap_inc(id)
                    && final(self).tx_bytes == old(self).tx_bytes && final(http).has(id)
                    && final(http).entry_at(id) == (PendingView {
                    req_id: id,
                    headers_done: false,
                    body: Seq::empty(),
                }) && (forall|o: u32|
                    o != id ==> #[trigger] final(http).has(o) == old(http).has(o)) && (forall|
                    o: u32,
                |
                    o != id && old(http).has(o) ==> #[trigger] final(http).entry_at(o) == old(
                        http,
                    ).entry_at(o))
            })),
    {
        match ev {
            WriteEvent::ExitRequested => WriteAction::Shutdown,
            WriteEvent::ChannelClosed => WriteAction::Stop,
            WriteEvent::Signal(SocketSignal::CloseWith(reason)) => WriteAction::Close(reason),
            WriteEvent::Signal(SocketSignal::Send(bytes)) => {
                let n = bytes.len() as u64;
                if self.tx_bytes > u64::MAX - n {
                    self.tx_bytes = u64::MAX;
                } else {
                    self.tx_bytes = self.tx_bytes + n;
                }
                WriteAction::WriteBytes(bytes)
            },
            WriteEvent::DelegatedRequest { url, method } => {
                let id = next_message_id(&mut self.msg_counter);
                if http.contains(id) {
                    // A wrapped-around id can shadow a stale pending entry;
                    // the stale awaiter is abandoned, as on teardown.
                    http.remove(id);
                }
                let req = http.begin_request(id, url, method);
                WriteAction::Emit(req)
            },
        }
    }
}

/// One step of the read loop: count the chunk and run it through the frame
/// decoder. The frames come out exactly as the concatenated stream parses,
/// wherever the chunk boundaries fall; a fatal framing error closes the
/// connection.
pub fn read_step(
    decoder: &mut FrameDecoder,
    rx_bytes: &mut u64,
    chunk: &[u8],
) -> (r: Result<Vec<Vec<u8>>, FrameError>)
    ensures
        *final(rx_bytes) == sat_add64(*old(rx_bytes), chunk@.len() as u64),
        final(decoder).spec_cap() == old(decoder).spec_cap(),
        ({
            let stream = old(decoder).pending() + chunk@;
            let cap = old(decoder).spec_cap();
            match r {
                Ok(frames) => !parse_fatal(stream, cap) && frames@.map_values(|v: Vec<u8>| v@)
                    == parse_frames(stream, cap) && final(decoder).pending() == parse_rest(
                    stream,
                    cap,
                ),
                Err(_) => parse_fatal(stream, cap),
            }
        }),
{
    let n = chunk.len() as u64;
    if *rx_bytes > u64::MAX - n {
        *rx_bytes = u64::MAX;
    } else {
        *rx_bytes = *rx_bytes + n;
    }
    decoder.decode_chunk(chunk)
}

/// The first frame of every connection: the agent announces its version.
pub fn version_message(params: VersionParams) -> (r: ToClientRequest)
    ensures
        r.id is None,
        r.params matches ClientRequestMethod::version(v) && v.version@ == params.version@
            && v.protocol_version == params.protocol_version,
{
    ToClientRequest { id: None, params: ClientRequestMethod::version(params) }
}

/// A bounded FIFO queue, the model of every channel here: capacity-bounded,
/// order-preserving.
pub struct BoundedQueue<T> {
    items: Vec<T>,
    cap: usize,
}

impl<T> BoundedQueue<T> {
    /// The queued values, oldest first.
    pub closed spec fn queued(self) -> Seq<T> {
        self.items@
    }

    /// The capacity bound.
    pub closed spec fn spec_cap(self) -> nat {
        self.cap as nat
    }

    pub open spec fn wf(self) -> bool {
        self.queued().len() <= self.spec_cap()
    }

    pub fn new(cap: usize) -> (r: BoundedQueue<T>)
        ensures
            r.wf(),
            r.queued() == Seq::<T>::empty(),
            r.spec_cap() == cap,
    {
        BoundedQueue { items: Vec::new(), cap }
    }

    /// Enqueue without blocking: a full queue refuses the value and stays
    /// as it was.
    pub fn try_send(&mut self, v: T) -> (r: bool)
        requires
            old(self).wf(),
        ensures
            final(self).wf(),
            final(self).spec_cap() == old(self).spec_cap(),
            r == (old(self).queued().len() < old(self).spec_cap()),
            r ==> final(self).queued() == old(self).queued().push(v),
            !r ==> *final(self) == *old(self),
    {
        if self.items.len() < self.cap {
            self.items.push(v);
            true
        } else {
            false
        }
    }

    /// Dequeue the oldest value, if any: delivery is first-in first-out.
    pub fn pop_front(&mut self) -> (r: Option<T>)
        requires
            old(self).wf(),
        ensures
            final(self).wf(),
            final(self).spec_cap() == old(self).spec_cap(),
            r is Some <==> old(self).queued().len() > 0,
            old(self).queued().len() > 0 ==> r->0 == old(self).queued()[0] && final(self).queued()
                == old(self).queued().skip(1),
            old(self).queued().len() == 0 ==> *final(self) == *old(self),
    {
        if self.items.len() > 0 {
            let v = self.items.remove(0);
            proof {
                assert(final(self).queued() =~= old(self).queued().skip(1));
            }
            Some(v)
        } else {
            None
        }
    }

    pub fn len(&self) -> (r: usize)
        ensures
            r == self.queued().len(),
    {
        self.items.len()
    }
}

/// Forward one log line to the client as a `serverlog` push, without ever
/// blocking: a full queue drops the line (logs must never deadlock the
/// socket).
pub fn write_log(queue: &mut BoundedQueue<ToClientRequest>, level: u8, line: String) -> (r: bool)
    requires
        old(queue).wf(),
    ensures
        final(queue).wf(),
        r == (old(queue).queued().len() < old(queue).spec_cap()),
        r ==> final(queue).queued().len() == old(queue).queued().len() + 1 && final(queue).queued().subrange(0, old(queue).queued().len() as int) == old(queue).queued() && (
        final(queue).queued().last().id is None) && (final(queue).queued().last().params
            matches ClientRequestMethod::serverlog(l) && l.line@ == line@ && l.level == level),
        !r ==> *final(queue) == *old(queue),
{
    let msg = ToClientRequest {
        id: None,
        params: ClientRequestMethod::serverlog(ServerLog { line, level }),
    };
    let sent = queue.try_send(msg);
    proof {
        if sent {
            assert(final(queue).queued().subrange(0, old(queue).queued().len() as int)
                =~= old(queue).queued());
        }
    }
    sent
}

/// What connection teardown found and did.
pub struct TeardownReport {
    /// Whether the outer loop must be asked to respawn the process.
    pub respawn: bool,
    /// The delegated requests dropped; each awaiter fails with an I/O
    /// error.
    pub dropped_http: Vec<u32>,
}

/// Tear one connection down: dispose every bridge, close every inline
/// stream, drop every pending delegated request, and report whether the
/// process must respawn.
pub fn teardown(
    did: &DidUpdate,
    bridges: &mut ServerMultiplexer,
    http: &mut DelegatedHttp,
    streams: &mut StreamTable,
) -> (r: TeardownReport)
    requires
        old(bridges).wf(),
        old(http).wf(),
    ensures
        final(bridges).wf(),
        final(http).wf(),
        final(streams).wf(),
        r.respawn == did.is_set(),
        final(bridges).count() == 0,
        forall|id: u16| !final(bridges).has(id),
        final(streams).count() == 0,
        forall|id: u32| !final(streams).has(id),
        final(http).count() == 0,
        forall|id: u32| !final(http).has(id),
        forall|id: u32| old(http).has(id) ==> r.dropped_http@.contains(id),
        forall|j: int| 0 <= j < r.dropped_http@.len() ==> old(http).has(#[trigger] r.dropped_http@[j]),
{
    bridges.dispose_all();
    streams.dispose_all();
    let dropped_http = http.drain();
    TeardownReport { respawn: did.load(), dropped_http }
}

} // verus!
