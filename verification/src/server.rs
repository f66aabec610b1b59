//! Editor-server management: the exclusive server slot, bridge attachment,
//! pruning, and the serve-time decisions. The download, install and launch
//! work is done by the surrounding transport under its async mutex; the
//! decisions here say when a running server is reused or adopted, when a
//! launch-mode mismatch is refused, and that the slot is filled at most
//! once per connection.

use vstd::prelude::*;
use crate::multiplexer::{Bridge, BridgeView, ServerMultiplexer};
use crate::protocol::RpcError;

verus! {

/// The handle of a launched or adopted editor server, as the core reads
/// it: which build it serves and where its local socket listens.
#[derive(Debug)]
pub struct ServerHandle {
    pub commit_id: Option<String>,
    pub quality: Option<String>,
    pub socket_path: String,
}

/// The exclusive editor-server slot of one connection.
pub enum CodeServerSlot {
    Empty,
    Active(ServerHandle),
}

/// The launch arguments cached for the editor server; the core manipulates
/// the extension list.
pub struct CodeServerArgs {
    pub install_extensions: Vec<String>,
}

/// The launch arguments for one `serve` request: the cached arguments
/// with the request's extensions appended after what is already there.
/// The cached arguments themselves are not touched; each request merges
/// into its own copy.
pub fn merge_extensions(args: &CodeServerArgs, extensions: Vec<String>) -> (r: CodeServerArgs)
    ensures
        r.install_extensions@ == args.install_extensions@ + extensions@,
{
    let mut merged: Vec<String> = Vec::new();
    let n = args.install_extensions.len();
    let mut i: usize = 0;
    while i < n
        invariant
            n == args.install_extensions@.len(),
            i <= n,
            merged@ == args.install_extensions@.subrange(0, i as int),
        decreases n - i,
    {
        merged.push(args.install_extensions[i].clone());
        i = i + 1;
        assert(merged@ =~= args.install_extensions@.subrange(0, i as int));
    }
    assert(merged@ =~= args.install_extensions@);
    let ghost added = extensions@;
    let m = extensions.len();
    let mut rest = extensions;
    let mut j: usize = 0;
    while j < m
        invariant
            m == added.len(),
            j <= m,
            rest@ == added.subrange(j as int, m as int),
            merged@ == args.install_extensions@ + added.subrange(0, j as int),
        decreases m - j,
    {
        let s = rest.remove(0);
        proof {
            assert(s == added[j as int]);
            assert(rest@ =~= added.subrange(j + 1, m as int));
        }
        merged.push(s);
        j = j + 1;
        assert(merged@ =~= args.install_extensions@ + added.subrange(0, j as int));
    }
    proof {
        assert(added.subrange(0, m as int) =~= added);
    }
    CodeServerArgs { install_extensions: merged }
}

/// What was found running on disk when the slot was empty.
pub enum RunningServer {
    /// Nothing is running: a new server must be set up.
    NotRunning,
    /// A socket-mode server is still listening: adopt it.
    Socket(ServerHandle),
    /// A server is running in a different launch mode.
    OtherMode,
}

/// Probe the slot first: a server already acquired by this connection is
/// reused, and every later caller observes that same handle.
pub fn slot_probe<'a>(slot: &'a CodeServerSlot) -> (r: Option<&'a ServerHandle>)
    ensures
        (slot matches CodeServerSlot::Active(h) ==> r matches Some(rh) && *rh == h),
        (slot is Empty ==> r is None),
{
    match slot {
        CodeServerSlot::Active(h) => Some(h),
        CodeServerSlot::Empty => None,
    }
}

/// Whether a server still running on disk may be adopted for this
/// request: a commit or quality named by the request must be the one the
/// running server answers for; an unnamed one accepts any.
pub fn adoption_matches(
    commit_id: &Option<String>,
    quality: &Option<String>,
    h: &ServerHandle,
) -> (r: bool)
    ensures
        r == {
            &&& (commit_id matches Some(c) ==> h.commit_id matches Some(hc) && hc@ == c@)
            &&& (quality matches Some(q) ==> h.quality matches Some(hq) && hq@ == q@)
        },
{
    let commit_ok = match commit_id {
        Some(c) => match &h.commit_id {
            Some(hc) => *hc == *c,
            None => false,
        },
        None => true,
    };
    let quality_ok = match quality {
        Some(q) => match &h.quality {
            Some(hq) => *hq == *q,
            None => false,
        },
        None => true,
    };
    commit_ok && quality_ok
}

/// Fill the empty slot from what the probe found: adopt a socket-mode
/// server still running, refuse one in another launch mode (the slot stays
/// empty, so a retry may succeed), or install the freshly set-up server.
/// The slot goes from empty to active at most once per connection: filling
/// an occupied slot is impossible here.
pub fn fill_slot(
    slot: &mut CodeServerSlot,
    found: RunningServer,
    fresh: Option<ServerHandle>,
) -> (r: Result<(), RpcError>)
    requires
        *old(slot) is Empty,
        found is NotRunning ==> fresh is Some,
    ensures
        (found matches RunningServer::Socket(h) ==> r is Ok && *final(slot)
            == CodeServerSlot::Active(h)),
        (found is OtherMode ==> (r matches Err(e) && e is MismatchedLaunchMode) && *final(slot)
            == CodeServerSlot::Empty),
        (found is NotRunning ==> r is Ok && *final(slot) == CodeServerSlot::Active(fresh->0)),
{
    match found {
        RunningServer::Socket(h) => {
            *slot = CodeServerSlot::Active(h);
            Ok(())
        },
        RunningServer::OtherMode => Err(RpcError::MismatchedLaunchMode),
        RunningServer::NotRunning => {
            match fresh {
                Some(h) => {
                    *slot = CodeServerSlot::Active(h);
                    Ok(())
                },
                None => {
                    // Unreachable under the precondition.
                    proof {
                        assert(false);
                    }
                    Err(RpcError::MismatchedLaunchMode)
                },
            }
        },
    }
}

/// At most one editor server per connection: once the slot holds a handle,
/// every probe answers with that same handle, and `fill_slot` (the only way
/// in) demands an empty slot, so no second server is ever installed.
pub proof fn lemma_at_most_one_server(slot: CodeServerSlot, h: ServerHandle)
    requires
        slot == CodeServerSlot::Active(h),
    ensures
        !(slot is Empty),
        slot matches CodeServerSlot::Active(h2) && h2 == h,
{
}

/// Attach a bridge with the requested compression under the client's
/// socket id; later `servermsg` bodies for that id route into it.
pub fn attach_server_bridge(
    multiplexer: &mut ServerMultiplexer,
    socket_id: u16,
    compress: bool,
) -> (r: u16)
    requires
        old(multiplexer).wf(),
    ensures
        final(multiplexer).wf(),
        r == socket_id,
        final(multiplexer).has(socket_id),
        final(multiplexer).bridge_at(socket_id) == (BridgeView {
            socket_id,
            compress,
            inbound: Seq::empty(),
            outbound: Seq::empty(),
        }),
        forall|o: u16|
            o != socket_id ==> #[trigger] final(multiplexer).has(o) == old(multiplexer).has(o),
        forall|o: u16|
            o != socket_id && old(multiplexer).has(o) ==> #[trigger] final(multiplexer).bridge_at(
                o,
            ) == old(multiplexer).bridge_at(o),
{
    let bridge = Bridge::new(socket_id, compress);
    multiplexer.register(bridge);
    socket_id
}

/// Check the slot before a `callserverhttp`: with no attached server the
/// call fails with `NoAttachedServer`; otherwise it goes to the server's
/// local socket.
pub fn server_http_precheck<'a>(slot: &'a CodeServerSlot) -> (r: Result<&'a ServerHandle, RpcError>)
    ensures
        (slot matches CodeServerSlot::Active(h) ==> r matches Ok(rh) && *rh == h),
        (slot is Empty ==> (r matches Err(e) && e is NoAttachedServer)),
{
    match slot {
        CodeServerSlot::Active(h) => Ok(h),
        CodeServerSlot::Empty => Err(RpcError::NoAttachedServer),
    }
}

/// The loopback target of a `callserverhttp` path.
pub fn server_http_target(path: &str) -> (r: String)
    ensures
        r@ == "http://127.0.0.1"@ + path@,
{
    let base = String::from_str("http://127.0.0.1");
    base.concat(path)
}

/// A stopped server whose directory was pruned from the cache.
pub struct PrunedServer {
    pub server_dir: String,
}

/// Report the pruned server directories, one path per pruned server, in
/// order.
pub fn handle_prune(servers: Vec<PrunedServer>) -> (r: Result<Vec<String>, RpcError>)
    ensures
        r matches Ok(v) && v@.len() == servers@.len() && (forall|j: int|
            0 <= j < v@.len() ==> #[trigger] v@[j]@ == servers@[j].server_dir@),
{
    let ghost orig = servers@;
    let mut out: Vec<String> = Vec::new();
    let n = servers.len();
    let mut rest = servers;
    let mut i: usize = 0;
    while i < n
        invariant
            n == orig.len(),
            i <= n,
            rest@ == orig.subrange(i as int, n as int),
            out@.len() == i,
            forall|j: int| 0 <= j < i ==> #[trigger] out@[j]@ == orig[j].server_dir@,
        decreases n - i,
    {
        let s = rest.remove(0);
        proof {
            assert(s == orig[i as int]);
            assert(rest@ =~= orig.subrange(i + 1, n as int));
        }
        out.push(s.server_dir);
        i = i + 1;
    }
    Ok(out)
}

} // verus!
