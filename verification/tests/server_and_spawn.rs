use tunnel_control::cli::{choose_cli_release, CliReleaseChoice, TargetKind};
use tunnel_control::hostname::handle_get_hostname;
use tunnel_control::http::DelegatedHttp;
use tunnel_control::multiplexer::{handle_server_message, ServerMultiplexer};
use tunnel_control::protocol::{RpcError, ServerMessageParams};
use tunnel_control::runtime::{accept_step, teardown, AcceptAction, AcceptEvent, Next};
use tunnel_control::streams::StreamTable;
use tunnel_control::server::{
    adoption_matches, attach_server_bridge, fill_slot, handle_prune, merge_extensions,
    server_http_precheck, server_http_target, slot_probe, CodeServerArgs, CodeServerSlot,
    PrunedServer, RunningServer, ServerHandle,
};
use tunnel_control::spawn::{spawn_failure, stdio_mode, SpawnShepherd, StdioMode};
use tunnel_control::update::{
    update_finish, update_precheck, update_resolve, DidUpdate, UpdateDecision, UpdatePhase,
};

fn handle(path: &str) -> ServerHandle {
    ServerHandle {
        commit_id: Some("abc123".to_string()),
        quality: Some("stable".to_string()),
        socket_path: path.to_string(),
    }
}

#[test]
fn extensions_merge_after_existing_without_touching_cache() {
    let cached = CodeServerArgs { install_extensions: vec!["a".to_string()] };
    let merged = merge_extensions(&cached, vec!["b".to_string(), "c".to_string()]);
    assert_eq!(merged.install_extensions, vec!["a", "b", "c"]);
    // The cached arguments are unchanged: a second request starts from
    // the same base and does not see the first request's extensions.
    assert_eq!(cached.install_extensions, vec!["a"]);
    let merged2 = merge_extensions(&cached, vec!["d".to_string()]);
    assert_eq!(merged2.install_extensions, vec!["a", "d"]);
}

#[test]
fn slot_fills_once_and_reuses() {
    let mut slot = CodeServerSlot::Empty;
    assert!(slot_probe(&slot).is_none());
    fill_slot(&mut slot, RunningServer::Socket(handle("/tmp/sock")), None).expect("adopt");
    let h = slot_probe(&slot).expect("active slot");
    assert_eq!(h.socket_path, "/tmp/sock");
    // A second serve observes the same handle.
    let h2 = slot_probe(&slot).expect("active slot");
    assert_eq!(h2.socket_path, "/tmp/sock");
}

#[test]
fn mismatched_launch_mode_leaves_slot_empty_for_retry() {
    let mut slot = CodeServerSlot::Empty;
    let e = fill_slot(&mut slot, RunningServer::OtherMode, None).unwrap_err();
    assert!(matches!(e, RpcError::MismatchedLaunchMode));
    assert!(slot_probe(&slot).is_none());
    // The retry may succeed.
    fill_slot(&mut slot, RunningServer::NotRunning, Some(handle("/tmp/new"))).expect("setup");
    assert_eq!(slot_probe(&slot).expect("active").socket_path, "/tmp/new");
}

#[test]
fn bridge_attaches_under_requested_id() {
    let mut mux = ServerMultiplexer::new();
    assert_eq!(attach_server_bridge(&mut mux, 7, false), 7);
    let out = handle_server_message(
        &mut mux,
        ServerMessageParams { i: 7, body: b"hi".to_vec() },
    )
    .expect("attached");
    assert_eq!(out, b"hi".to_vec());
    let err = handle_server_message(&mut mux, ServerMessageParams { i: 8, body: vec![] })
        .unwrap_err();
    assert!(matches!(err, RpcError::NoAttachedServer));
}

#[test]
fn prune_reports_each_directory() {
    let pruned = vec![
        PrunedServer { server_dir: "/cache/s1".to_string() },
        PrunedServer { server_dir: "/cache/s2".to_string() },
    ];
    let dirs = handle_prune(pruned).expect("prune succeeds");
    assert_eq!(dirs, vec!["/cache/s1", "/cache/s2"]);
    assert_eq!(handle_prune(Vec::new()).expect("empty ok"), Vec::<String>::new());
}

#[test]
fn adoption_requires_matching_handshake() {
    let h = handle("/tmp/s");
    // An unnamed commit and quality adopt anything.
    assert!(adoption_matches(&None, &None, &h));
    // A named one must match the running server's.
    assert!(adoption_matches(&Some("abc123".to_string()), &Some("stable".to_string()), &h));
    assert!(!adoption_matches(&Some("other".to_string()), &None, &h));
    assert!(!adoption_matches(&None, &Some("insiders".to_string()), &h));
}

#[test]
fn server_http_requires_attached_server() {
    let slot = CodeServerSlot::Empty;
    assert!(matches!(server_http_precheck(&slot).unwrap_err(), RpcError::NoAttachedServer));
    let slot = CodeServerSlot::Active(handle("/tmp/s"));
    assert_eq!(server_http_precheck(&slot).expect("active").socket_path, "/tmp/s");
    assert_eq!(server_http_target("/healthz"), "http://127.0.0.1/healthz");
}

#[test]
fn cli_release_choice() {
    match choose_cli_release(
        "Some Product",
        "linux-x64".to_string(),
        "stable".to_string(),
        Some("deadbeef".to_string()),
    ) {
        CliReleaseChoice::Chosen(rel) => {
            assert_eq!(rel.name, "Some Product CLI");
            assert_eq!(rel.commit, "deadbeef");
            assert_eq!(rel.platform, "linux-x64");
            assert_eq!(rel.quality, "stable");
            assert!(matches!(rel.target, TargetKind::Cli));
        }
        _ => panic!("a given commit fixes the release"),
    }
    assert!(matches!(
        choose_cli_release("P", "p".to_string(), "q".to_string(), None),
        CliReleaseChoice::NeedLatest
    ));
}

#[test]
fn hostname_always_answers() {
    let r = handle_get_hostname().expect("total");
    // The value is machine-dependent; only the success is promised.
    let _ = r.value;
}

#[test]
fn stdio_piped_only_when_stream_present() {
    assert!(matches!(stdio_mode(true), StdioMode::Piped));
    assert!(matches!(stdio_mode(false), StdioMode::Null));
}

#[test]
fn spawn_failure_keeps_message() {
    match spawn_failure("no such file".to_string()) {
        RpcError::ProcessSpawnFailed(m) => assert_eq!(m, "no such file"),
        _ => panic!("wrong error kind"),
    }
}

#[test]
fn shepherd_flushes_before_finish() {
    let mut sh = SpawnShepherd::new(2);
    sh.child_exited(Some(3));
    sh.copy_done();
    sh.copy_done();
    let r = sh.finish("exit status: 3".to_string());
    assert_eq!(r.exit_code, 3);
    assert_eq!(r.message, "exit status: 3");
}

#[test]
fn missing_exit_code_maps_to_minus_one() {
    let mut sh = SpawnShepherd::new(0);
    sh.child_exited(None);
    let r = sh.finish("killed".to_string());
    assert_eq!(r.exit_code, -1);
}

#[test]
fn update_precheck_short_circuits() {
    let did = DidUpdate::new();
    match update_precheck(true, &did) {
        UpdatePhase::Done(u) => {
            assert!(u.up_to_date);
            assert!(!u.did_update);
        }
        _ => panic!("integrated CLI never self-updates"),
    }
    assert!(matches!(update_precheck(false, &did), UpdatePhase::CheckLatest));
    let mut did = DidUpdate::new();
    assert!(did.try_set());
    assert!(matches!(update_precheck(false, &did), UpdatePhase::Done(_)));
}

#[test]
fn update_resolve_branches() {
    let mut did = DidUpdate::new();
    match update_resolve(&mut did, false, false) {
        UpdateDecision::Done(u) => {
            assert!(!u.up_to_date);
            assert!(!u.did_update);
        }
        _ => panic!("no update requested"),
    }
    assert!(!did.load());
    match update_resolve(&mut did, true, true) {
        UpdateDecision::Done(u) => assert!(u.up_to_date && !u.did_update),
        _ => panic!("already up to date"),
    }
    assert!(matches!(update_resolve(&mut did, true, false), UpdateDecision::Perform));
    assert!(did.load());
    // A second resolve observes the earlier update.
    match update_resolve(&mut did, true, false) {
        UpdateDecision::Done(u) => assert!(u.up_to_date && u.did_update),
        _ => panic!("the flag was already claimed"),
    }
    let done = update_finish();
    assert!(done.up_to_date && done.did_update);
}

#[test]
fn respawn_follows_update() {
    // An update sets the flag; the flag never goes back; teardown asks for
    // a respawn; the accept loop terminates with Respawn.
    let mut state = tunnel_control::dispatch::ConnState::new(CodeServerArgs {
        install_extensions: Vec::new(),
    });
    match update_precheck(false, &state.did_update) {
        UpdatePhase::CheckLatest => {}
        _ => panic!("fresh connection"),
    }
    assert!(matches!(
        update_resolve(&mut state.did_update, true, false),
        UpdateDecision::Perform
    ));
    let _ = update_finish();
    assert!(state.did_update.load());
    let mut http = DelegatedHttp::new();
    let mut mux = ServerMultiplexer::new();
    let mut streams = StreamTable::new();
    let report = teardown(&state.did_update, &mut mux, &mut http, &mut streams);
    assert!(report.respawn);
    assert!(matches!(
        accept_step(AcceptEvent::RespawnRequested),
        AcceptAction::Terminate(Next::Respawn)
    ));
}
