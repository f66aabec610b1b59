use tunnel_control::dispatch::{
    complete_task, dispatch, ConnState, Disposition, Effect, TaskKind,
};
use tunnel_control::protocol::{
    HttpBodyParams, HttpHeadersParams, RequestParams, RpcError, RpcRequest, RpcResult,
    ServeParams, ServerMessageParams, SpawnParams, UpdateParams,
};
use tunnel_control::runtime::{ConnWriter, WriteAction, WriteEvent};
use tunnel_control::http::DelegatedHttp;
use tunnel_control::protocol::ClientRequestMethod;
use tunnel_control::server::{attach_server_bridge, CodeServerArgs};

fn fresh_state() -> ConnState {
    ConnState::new(CodeServerArgs { install_extensions: Vec::new() })
}

fn request(id: Option<u32>, method: &str, params: RequestParams) -> RpcRequest {
    RpcRequest { id, method: method.to_string(), params }
}

#[test]
fn ping_replies_with_empty_result() {
    let mut st = fresh_state();
    let out = dispatch(&mut st, request(Some(1), "ping", RequestParams::Empty));
    match out.disposition {
        Disposition::Reply(resp) => {
            assert_eq!(resp.id, 1);
            assert!(matches!(resp.outcome, Ok(RpcResult::Empty)));
        }
        _ => panic!("ping must reply inline"),
    }
    assert!(out.effect.is_none());
}

#[test]
fn unknown_method_is_error_and_connection_stays_open() {
    let mut st = fresh_state();
    let out = dispatch(&mut st, request(Some(2), "nope", RequestParams::Empty));
    match out.disposition {
        Disposition::Reply(resp) => {
            assert_eq!(resp.id, 2);
            assert!(matches!(resp.outcome, Err(RpcError::MethodNotFound)));
        }
        _ => panic!("unknown method must reply inline"),
    }
    // A subsequent ping on the same state still succeeds.
    let out = dispatch(&mut st, request(Some(3), "ping", RequestParams::Empty));
    match out.disposition {
        Disposition::Reply(resp) => {
            assert_eq!(resp.id, 3);
            assert!(matches!(resp.outcome, Ok(RpcResult::Empty)));
        }
        _ => panic!("connection must stay open"),
    }
}

#[test]
fn notification_produces_no_reply() {
    let mut st = fresh_state();
    let out = dispatch(&mut st, request(None, "ping", RequestParams::Empty));
    assert!(matches!(out.disposition, Disposition::NoReply));
    // Even for an unknown method.
    let out = dispatch(&mut st, request(None, "nope", RequestParams::Empty));
    assert!(matches!(out.disposition, Disposition::NoReply));
}

#[test]
fn malformed_params_yield_invalid_rpc_data() {
    let mut st = fresh_state();
    let out = dispatch(&mut st, request(Some(9), "serve", RequestParams::Malformed));
    match out.disposition {
        Disposition::Reply(resp) => {
            assert_eq!(resp.id, 9);
            assert!(matches!(resp.outcome, Err(RpcError::InvalidRpcData(_))));
        }
        _ => panic!("bad params must reply inline"),
    }
}

#[test]
fn async_methods_become_tasks_with_the_request_id() {
    let mut st = fresh_state();
    let p = UpdateParams { do_update: false };
    let out = dispatch(&mut st, request(Some(5), "update", RequestParams::Update(p)));
    match out.disposition {
        Disposition::Task(t) => {
            assert_eq!(t.id, Some(5));
            assert!(matches!(t.work, TaskKind::Update(_)));
        }
        _ => panic!("update must start a task"),
    }
    let p = ServeParams {
        commit_id: None,
        quality: None,
        extensions: vec!["ext".to_string()],
        use_local_download: true,
        socket_id: 7,
        compress: false,
    };
    let out = dispatch(&mut st, request(Some(6), "serve", RequestParams::Serve(p)));
    assert!(matches!(
        out.disposition,
        Disposition::Task(t) if t.id == Some(6) && matches!(t.work, TaskKind::Serve(_))
    ));
}

#[test]
fn complete_task_answers_exactly_the_given_id() {
    let r = complete_task(Some(42), Ok(RpcResult::Empty)).expect("id given");
    assert_eq!(r.id, 42);
    assert!(complete_task(None, Ok(RpcResult::Empty)).is_none());
}

#[test]
fn servermsg_unattached_then_attached() {
    let mut st = fresh_state();
    // No bridge yet: NoAttachedServer.
    let p = ServerMessageParams { i: 7, body: b"x".to_vec() };
    let out = dispatch(&mut st, request(Some(1), "servermsg", RequestParams::ServerMessage(p)));
    match out.disposition {
        Disposition::Reply(resp) => {
            assert!(matches!(resp.outcome, Err(RpcError::NoAttachedServer)));
        }
        _ => panic!("servermsg is sync"),
    }
    assert!(out.effect.is_none());

    // Attach a plain bridge under socket id 7 and send again.
    let sid = attach_server_bridge(&mut st.multiplexer, 7, false);
    assert_eq!(sid, 7);
    let p = ServerMessageParams { i: 7, body: b"hello".to_vec() };
    let out = dispatch(&mut st, request(Some(2), "servermsg", RequestParams::ServerMessage(p)));
    match out.disposition {
        Disposition::Reply(resp) => assert!(matches!(resp.outcome, Ok(RpcResult::Empty))),
        _ => panic!("servermsg is sync"),
    }
    match out.effect {
        Some(Effect::DeliverToEditor { socket_id, bytes }) => {
            assert_eq!(socket_id, 7);
            assert_eq!(bytes, b"hello".to_vec());
        }
        _ => panic!("the body must go to the editor socket"),
    }
}

#[test]
fn compressed_bridge_keeps_delivery_order() {
    let mut st = fresh_state();
    attach_server_bridge(&mut st.multiplexer, 3, true);
    let mut delivered = Vec::new();
    for body in [b"part one".to_vec(), b"part two".to_vec(), b"part three".to_vec()] {
        let p = ServerMessageParams { i: 3, body: body.clone() };
        let out =
            dispatch(&mut st, request(Some(1), "servermsg", RequestParams::ServerMessage(p)));
        match out.effect {
            Some(Effect::DeliverToEditor { socket_id, bytes }) => {
                assert_eq!(socket_id, 3);
                delivered.push(bytes);
            }
            _ => panic!("attached bridge must deliver"),
        }
    }
    assert_eq!(
        delivered,
        vec![b"part one".to_vec(), b"part two".to_vec(), b"part three".to_vec()]
    );
}

#[test]
fn delegated_http_round_trip() {
    // The agent asks for a GET; the client answers over httpheaders and
    // httpbody; the body assembles to b"ok" and the entry is gone.
    let mut st = fresh_state();
    let mut writer = ConnWriter::new();
    let action = writer.write_step(
        &mut st.http_requests,
        WriteEvent::DelegatedRequest {
            url: "https://example.invalid/manifest".to_string(),
            method: "GET".to_string(),
        },
    );
    let req_id = match action {
        WriteAction::Emit(push) => {
            assert!(push.id.is_none());
            match push.params {
                ClientRequestMethod::makehttpreq(q) => {
                    assert_eq!(q.url, "https://example.invalid/manifest");
                    assert_eq!(q.method, "GET");
                    q.req_id
                }
                _ => panic!("expected a makehttpreq push"),
            }
        }
        _ => panic!("a delegated request must emit a push"),
    };
    assert!(st.http_requests.contains(req_id));

    let p = HttpHeadersParams { req_id, status_code: 200, headers: Vec::new() };
    let out = dispatch(&mut st, request(Some(1), "httpheaders", RequestParams::HttpHeaders(p)));
    match out.effect {
        Some(Effect::HttpInitial { req_id: rid, headers }) => {
            assert_eq!(rid, req_id);
            assert_eq!(headers.status_code, 200);
        }
        _ => panic!("headers must reach the awaiter"),
    }

    let mut body = Vec::new();
    let p = HttpBodyParams { req_id, segment: b"ok".to_vec(), complete: true };
    let out = dispatch(&mut st, request(Some(2), "httpbody", RequestParams::HttpBody(p)));
    match out.effect {
        Some(Effect::HttpBody { req_id: rid, segment }) => {
            assert_eq!(rid, req_id);
            body.extend_from_slice(&segment.segment);
            assert!(segment.complete);
        }
        _ => panic!("the segment must reach the awaiter"),
    }
    assert_eq!(body, b"ok".to_vec());
    // Completion removed the pending entry.
    assert!(!st.http_requests.contains(req_id));
}

#[test]
fn httpbody_for_unknown_id_is_ignored() {
    let mut st = fresh_state();
    let p = HttpBodyParams { req_id: 99, segment: b"late".to_vec(), complete: true };
    let out = dispatch(&mut st, request(Some(1), "httpbody", RequestParams::HttpBody(p)));
    assert!(out.effect.is_none());
    match out.disposition {
        Disposition::Reply(resp) => assert!(matches!(resp.outcome, Ok(RpcResult::Empty))),
        _ => panic!("httpbody is sync"),
    }
}

#[test]
fn delegated_collision_drops_stale_entry() {
    let mut http = DelegatedHttp::new();
    let mut writer = ConnWriter::new();
    let a = writer.write_step(
        &mut http,
        WriteEvent::DelegatedRequest { url: "u1".to_string(), method: "GET".to_string() },
    );
    assert!(matches!(a, WriteAction::Emit(_)));
    // Force the counter back around to reuse the same id.
    writer.msg_counter = 0;
    let a = writer.write_step(
        &mut http,
        WriteEvent::DelegatedRequest { url: "u2".to_string(), method: "GET".to_string() },
    );
    match a {
        WriteAction::Emit(push) => match push.params {
            ClientRequestMethod::makehttpreq(q) => assert_eq!(q.url, "u2"),
            _ => panic!("expected a makehttpreq push"),
        },
        _ => panic!("expected an emit"),
    }
    assert!(http.contains(0));
}

#[test]
fn editor_bytes_frame_as_servermsg_in_read_order() {
    // Bytes written by the editor server appear toward the client as
    // servermsg pushes carrying the session's socket id, in read order.
    let mut bridge = tunnel_control::multiplexer::Bridge::new(7, false);
    let mut seen = Vec::new();
    for chunk in [b"alpha".to_vec(), b"beta".to_vec()] {
        let push = bridge.emit(chunk.clone());
        assert!(push.id.is_none());
        match push.params {
            ClientRequestMethod::servermsg(m) => {
                assert_eq!(m.i, 7);
                seen.push(m.body);
            }
            _ => panic!("expected a servermsg push"),
        }
    }
    assert_eq!(seen, vec![b"alpha".to_vec(), b"beta".to_vec()]);
}


#[test]
fn spawn_registers_three_stdio_streams() {
    let mut st = fresh_state();
    let p = SpawnParams {
        command: "true".to_string(),
        args: Vec::new(),
        env: Vec::new(),
    };
    let out = dispatch(&mut st, request(Some(4), "spawn", RequestParams::Spawn(p)));
    let ids = match out.disposition {
        Disposition::Task(t) => {
            assert_eq!(t.id, Some(4));
            match t.work {
                TaskKind::Spawn(sp, ids) => {
                    assert_eq!(sp.command, "true");
                    ids
                }
                _ => panic!("spawn must start a spawn task"),
            }
        }
        _ => panic!("spawn is a duplex task"),
    };
    assert_ne!(ids.stdin, ids.stdout);
    assert_ne!(ids.stdin, ids.stderr);
    assert_ne!(ids.stdout, ids.stderr);
    assert!(st.streams.contains(ids.stdin));
    assert!(st.streams.contains(ids.stdout));
    assert!(st.streams.contains(ids.stderr));

    // Frames carrying a registered stream id route into it, in order.
    let d = st.streams.route(ids.stdin, b"line one\n".to_vec(), false).expect("open stream");
    assert_eq!(d, b"line one\n".to_vec());
    let d = st.streams.route(ids.stdin, b"line two\n".to_vec(), false).expect("open stream");
    assert_eq!(d, b"line two\n".to_vec());
    // A frame for an unknown stream is dropped.
    assert!(st.streams.route(9999, b"x".to_vec(), false).is_none());
    // The end frame closes the stream.
    st.streams.route(ids.stdin, Vec::new(), true).expect("open stream");
    assert!(!st.streams.contains(ids.stdin));
    assert!(st.streams.route(ids.stdin, b"late".to_vec(), false).is_none());
}
