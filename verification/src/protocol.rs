//! Wire-level value model: RPC envelopes, per-method parameter and result
//! shapes, agent-to-client push messages, and the error kinds the core
//! surfaces. Serialization of these values to bytes is the caller's concern;
//! the core works on the decoded values.

use vstd::prelude::*;

verus! {

/// Error kinds surfaced by the core.
#[derive(Debug)]
pub enum RpcError {
    /// A frame failed to decode as RPC data; closes the connection.
    InvalidRpcData(String),
    /// The request named a method that is not registered.
    MethodNotFound,
    /// A bridge or server operation found no attached editor server.
    NoAttachedServer,
    /// A prior editor server is running in a different launch mode.
    MismatchedLaunchMode,
    /// A child process could not be started.
    ProcessSpawnFailed(String),
    /// An I/O failure, with its reason.
    Io(String),
    /// A failure wrapped with context.
    Wrapped(String, String),
}

/// Params of `serve`.
pub struct ServeParams {
    pub commit_id: Option<String>,
    pub quality: Option<String>,
    pub extensions: Vec<String>,
    pub use_local_download: bool,
    pub socket_id: u16,
    pub compress: bool,
}

/// Params of `update`.
pub struct UpdateParams {
    pub do_update: bool,
}

/// Result of `update`.
pub struct UpdateResult {
    pub up_to_date: bool,
    pub did_update: bool,
}

/// Params of `servermsg`: a body for the bridge bound to socket id `i`.
pub struct ServerMessageParams {
    pub i: u16,
    pub body: Vec<u8>,
}

/// Params of `httpheaders`: the initial response of a delegated request.
pub struct HttpHeadersParams {
    pub req_id: u32,
    pub status_code: u16,
    pub headers: Vec<(String, String)>,
}

/// Params of `httpbody`: one segment of a delegated response body.
pub struct HttpBodyParams {
    pub req_id: u32,
    pub segment: Vec<u8>,
    pub complete: bool,
}

/// Params of `callserverhttp`.
pub struct CallServerHttpParams {
    pub path: String,
    pub method: String,
    pub headers: Vec<(String, String)>,
    pub body: Option<Vec<u8>>,
}

/// Result of `callserverhttp`.
pub struct CallServerHttpResult {
    pub status: u16,
    pub headers: Vec<(String, String)>,
    pub body: Vec<u8>,
}

/// Params of `forward`.
pub struct ForwardParams {
    pub port: u16,
}

/// Result of `forward`.
pub struct ForwardResult {
    pub uri: String,
}

/// Params of `unforward`.
pub struct UnforwardParams {
    pub port: u16,
}

/// Result of `gethostname`.
pub struct GetHostnameResponse {
    pub value: String,
}

/// Params of `spawn`.
pub struct SpawnParams {
    pub command: String,
    pub args: Vec<String>,
    pub env: Vec<(String, String)>,
}

/// Result of `spawn` and `acquire_cli`.
pub struct SpawnResult {
    pub message: String,
    pub exit_code: i32,
}

/// Params of `acquire_cli`.
pub struct AcquireCliParams {
    pub platform: String,
    pub quality: String,
    pub commit_id: Option<String>,
    pub spawn: SpawnParams,
}

/// A log line forwarded to the client.
pub struct ServerLog {
    pub line: String,
    pub level: u8,
}

/// The delegated HTTP request the agent asks the client to perform.
pub struct HttpRequestParams {
    pub url: String,
    pub method: String,
    pub req_id: u32,
}

/// The version announcement sent as the first frame of every connection.
pub struct VersionParams {
    pub version: String,
    pub protocol_version: u32,
}

/// Agent-to-client push methods; the variant names are the wire tags.
#[allow(non_camel_case_types)]
pub enum ClientRequestMethod {
    version(VersionParams),
    makehttpreq(HttpRequestParams),
    serverlog(ServerLog),
    servermsg(ServerMessageParams),
}

/// An agent-to-client push envelope; its id is always absent.
pub struct ToClientRequest {
    pub id: Option<u32>,
    pub params: ClientRequestMethod,
}

/// The registered methods.
#[derive(Clone, Copy, PartialEq, Eq, Structural, Debug)]
pub enum RpcMethod {
    Ping,
    GetHostname,
    Serve,
    Update,
    ServerMsg,
    Prune,
    CallServerHttp,
    Forward,
    Unforward,
    AcquireCli,
    Spawn,
    HttpHeaders,
    HttpBody,
}

/// Decoded params of an incoming request, tagged by shape. `Malformed`
/// stands for params that failed to decode for their method.
pub enum RequestParams {
    Empty,
    Serve(ServeParams),
    Update(UpdateParams),
    ServerMessage(ServerMessageParams),
    CallServerHttp(CallServerHttpParams),
    Forward(ForwardParams),
    Unforward(UnforwardParams),
    AcquireCli(AcquireCliParams),
    Spawn(SpawnParams),
    HttpHeaders(HttpHeadersParams),
    HttpBody(HttpBodyParams),
    Malformed,
}

/// A decoded incoming envelope: an absent id marks a notification.
pub struct RpcRequest {
    pub id: Option<u32>,
    pub method: String,
    pub params: RequestParams,
}

/// A successful method result, tagged by shape.
pub enum RpcResult {
    Empty,
    Hostname(GetHostnameResponse),
    Prune(Vec<String>),
    Update(UpdateResult),
    Http(CallServerHttpResult),
    Forward(ForwardResult),
    Spawn(SpawnResult),
}

/// An outgoing response envelope, correlated to its request by id.
pub struct RpcResponse {
    pub id: u32,
    pub outcome: Result<RpcResult, RpcError>,
}

/// The method a name resolves to, if any.
pub open spec fn spec_parse_method(s: Seq<char>) -> Option<RpcMethod> {
    if s == "ping"@ {
        Some(RpcMethod::Ping)
    } else if s == "gethostname"@ {
        Some(RpcMethod::GetHostname)
    } else if s == "serve"@ {
        Some(RpcMethod::Serve)
    } else if s == "update"@ {
        Some(RpcMethod::Update)
    } else if s == "servermsg"@ {
        Some(RpcMethod::ServerMsg)
    } else if s == "prune"@ {
        Some(RpcMethod::Prune)
    } else if s == "callserverhttp"@ {
        Some(RpcMethod::CallServerHttp)
    } else if s == "forward"@ {
        Some(RpcMethod::Forward)
    } else if s == "unforward"@ {
        Some(RpcMethod::Unforward)
    } else if s == "acquire_cli"@ {
        Some(RpcMethod::AcquireCli)
    } else if s == "spawn"@ {
        Some(RpcMethod::Spawn)
    } else if s == "httpheaders"@ {
        Some(RpcMethod::HttpHeaders)
    } else if s == "httpbody"@ {
        Some(RpcMethod::HttpBody)
    } else {
        None
    }
}

/// Resolve a method name. Unknown names yield `None` and become a
/// `MethodNotFound` error response at dispatch.
pub fn parse_method(s: &String) -> (r: Option<RpcMethod>)
    ensures
        r == spec_parse_method(s@),
{
    if *s == String::from_str("ping") {
        Some(RpcMethod::Ping)
    } else if *s == String::from_str("gethostname") {
        Some(RpcMethod::GetHostname)
    } else if *s == String::from_str("serve") {
        Some(RpcMethod::Serve)
    } else if *s == String::from_str("update") {
        Some(RpcMethod::Update)
    } else if *s == String::from_str("servermsg") {
        Some(RpcMethod::ServerMsg)
    } else if *s == String::from_str("prune") {
        Some(RpcMethod::Prune)
    } else if *s == String::from_str("callserverhttp") {
        Some(RpcMethod::CallServerHttp)
    } else if *s == String::from_str("forward") {
        Some(RpcMethod::Forward)
    } else if *s == String::from_str("unforward") {
        Some(RpcMethod::Unforward)
    } else if *s == String::from_str("acquire_cli") {
        Some(RpcMethod::AcquireCli)
    } else if *s == String::from_str("spawn") {
        Some(RpcMethod::Spawn)
    } else if *s == String::from_str("httpheaders") {
        Some(RpcMethod::HttpHeaders)
    } else if *s == String::from_str("httpbody") {
        Some(RpcMethod::HttpBody)
    } else {
        None
    }
}

} // verus!
