//! Control-plane core of a tunnel agent: framing, RPC dispatch, session
//! multiplexing, delegated HTTP, update/respawn decisions, and the
//! per-connection runtime state machines, all verified.

pub mod cli;
pub mod compress;
pub mod dispatch;
pub mod frame;
pub mod hostname;
pub mod http;
pub mod multiplexer;
pub mod protocol;
pub mod runtime;
pub mod server;
pub mod spawn;
pub mod streams;
pub mod update;
