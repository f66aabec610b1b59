use tunnel_control::http::{
    fallback_decision, select_http_strategy, DelegatedHttp, DirectOutcome, FallbackAction,
    HttpStrategy,
};
use tunnel_control::multiplexer::ServerMultiplexer;
use tunnel_control::protocol::{ClientRequestMethod, ToClientRequest, VersionParams};
use tunnel_control::runtime::{
    accept_step, next_message_id, teardown, version_message, write_log, AcceptAction,
    AcceptEvent, BoundedQueue, ConnWriter, Next, ServerTermination, ShutdownSignal, SocketSignal,
    WriteAction, WriteEvent,
};
use tunnel_control::server::attach_server_bridge;
use tunnel_control::streams::StreamTable;
use tunnel_control::update::DidUpdate;

#[test]
fn message_ids_increment_and_wrap() {
    let mut c: u32 = 0;
    assert_eq!(next_message_id(&mut c), 0);
    assert_eq!(next_message_id(&mut c), 1);
    assert_eq!(c, 2);
    let mut c = u32::MAX;
    assert_eq!(next_message_id(&mut c), u32::MAX);
    assert_eq!(c, 0);
}

#[test]
fn accept_loop_decision_table() {
    assert!(matches!(
        accept_step(AcceptEvent::Shutdown(ShutdownSignal::RpcRestartRequested)),
        AcceptAction::Terminate(Next::Restart)
    ));
    assert!(matches!(
        accept_step(AcceptEvent::Shutdown(ShutdownSignal::CtrlC)),
        AcceptAction::Terminate(Next::Exit)
    ));
    assert!(matches!(
        accept_step(AcceptEvent::Shutdown(ShutdownSignal::ParentProcessKilled)),
        AcceptAction::Terminate(Next::Exit)
    ));
    assert!(matches!(
        accept_step(AcceptEvent::RespawnRequested),
        AcceptAction::Terminate(Next::Respawn)
    ));
    assert!(matches!(accept_step(AcceptEvent::SignalIdle), AcceptAction::Continue));
    assert!(matches!(accept_step(AcceptEvent::PortForwardEvent), AcceptAction::ProcessForwarding));
    assert!(matches!(accept_step(AcceptEvent::Accepted), AcceptAction::SpawnConnection));
    assert!(matches!(
        accept_step(AcceptEvent::PortClosed),
        AcceptAction::Terminate(Next::Restart)
    ));
    let term = ServerTermination { next: Next::Exit };
    assert!(matches!(term.next, Next::Exit));
}

#[test]
fn write_loop_counts_and_closes() {
    let mut w = ConnWriter::new();
    let mut http = DelegatedHttp::new();
    match w.write_step(&mut http, WriteEvent::Signal(SocketSignal::Send(vec![1, 2, 3]))) {
        WriteAction::WriteBytes(b) => assert_eq!(b, vec![1, 2, 3]),
        _ => panic!("bytes must be written"),
    }
    assert_eq!(w.tx_bytes, 3);
    match w.write_step(
        &mut http,
        WriteEvent::Signal(SocketSignal::CloseWith("going away".to_string())),
    ) {
        WriteAction::Close(reason) => assert_eq!(reason, "going away"),
        _ => panic!("a close order ends the loop"),
    }
    assert!(matches!(w.write_step(&mut http, WriteEvent::ExitRequested), WriteAction::Shutdown));
    assert!(matches!(w.write_step(&mut http, WriteEvent::ChannelClosed), WriteAction::Stop));
    w.note_sent(7);
    assert_eq!(w.tx_bytes, 10);
}

#[test]
fn bounded_queue_is_fifo_and_bounded() {
    let mut q: BoundedQueue<u32> = BoundedQueue::new(2);
    assert!(q.try_send(10));
    assert!(q.try_send(20));
    assert!(!q.try_send(30));
    assert_eq!(q.len(), 2);
    assert_eq!(q.pop_front(), Some(10));
    assert_eq!(q.pop_front(), Some(20));
    assert_eq!(q.pop_front(), None);
}

#[test]
fn log_lines_are_dropped_when_the_queue_is_full() {
    let mut q: BoundedQueue<ToClientRequest> = BoundedQueue::new(1);
    assert!(write_log(&mut q, 2, "first line".to_string()));
    assert!(!write_log(&mut q, 2, "dropped line".to_string()));
    let sent = q.pop_front().expect("one queued push");
    assert!(sent.id.is_none());
    match sent.params {
        ClientRequestMethod::serverlog(l) => {
            assert_eq!(l.line, "first line");
            assert_eq!(l.level, 2);
        }
        _ => panic!("expected a serverlog push"),
    }
}

#[test]
fn version_push_is_first_frame_shape() {
    let push = version_message(VersionParams {
        version: "1.2.3".to_string(),
        protocol_version: 1,
    });
    assert!(push.id.is_none());
    match push.params {
        ClientRequestMethod::version(v) => {
            assert_eq!(v.version, "1.2.3");
            assert_eq!(v.protocol_version, 1);
        }
        _ => panic!("expected a version push"),
    }
}

#[test]
fn teardown_disposes_bridges_and_drops_pending_http() {
    let mut mux = ServerMultiplexer::new();
    attach_server_bridge(&mut mux, 1, false);
    attach_server_bridge(&mut mux, 2, true);
    let mut http = DelegatedHttp::new();
    let mut w = ConnWriter::new();
    w.write_step(
        &mut http,
        WriteEvent::DelegatedRequest { url: "u".to_string(), method: "GET".to_string() },
    );
    let did = DidUpdate::new();
    let mut streams = StreamTable::new();
    streams.open(5);
    let report = teardown(&did, &mut mux, &mut http, &mut streams);
    assert!(!streams.contains(5));
    assert!(!report.respawn);
    assert_eq!(report.dropped_http, vec![0]);
    assert!(!http.contains(0));
    // Every bridge is gone: a write finds no attached server.
    assert!(mux.write_message(1, b"x".to_vec()).is_none());
    assert!(mux.write_message(2, b"x".to_vec()).is_none());
}

#[test]
fn http_strategy_selection() {
    assert!(matches!(select_http_strategy(true), HttpStrategy::DelegatedOnly));
    assert!(matches!(select_http_strategy(false), HttpStrategy::Fallback));
    // Any HTTP answer is final, even a server error.
    match fallback_decision(DirectOutcome::Answer(500, b"boom".to_vec())) {
        FallbackAction::Use(status, body) => {
            assert_eq!(status, 500);
            assert_eq!(body, b"boom".to_vec());
        }
        _ => panic!("an answer is final"),
    }
    // Only a transport failure falls back to the client.
    assert!(matches!(
        fallback_decision(DirectOutcome::TransportError("refused".to_string())),
        FallbackAction::TryDelegated
    ));
}
