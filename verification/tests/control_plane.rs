use rex_daemon::adapters::{StreamInferenceResponse};
use rex_daemon::broker::{finish_list_dir, BrokerDirEntry, BrokerError, ShellResult};
use rex_daemon::daemon::{
    gateway_start_outcome, idle_watch_enabled, listen_log_line, shutdown_log_line,
    sidecar_start_needed, sidecar_start_outcome, DaemonRuntimeError, ShutdownReason,
};
use rex_daemon::desktop::{
    desktop_menu, harness_session_id, map_fetch_response, playwright_socket_path, web_trace_id,
    MenuEntry,
};
use rex_daemon::gateway_supervisor::{gateway_needs_restart, gateway_restart_error, GatewaySupervisorError};
use rex_daemon::plugins::{collected_doc, doc_entry_action, DocEntryAction};
use rex_daemon::read_api::{
    error_body, health_body, instrument_list, pair_lookup, parse_i64_text, parse_query,
    non_loopback_error, query_filter, rollup_filter, route_request, sse_event_frame,
    stream_error_body, stream_params, ReadApiError, ReadApiRoute,
};
use rex_daemon::service::{
    ack_response, broker_deny_log_line, broker_message_count, exec_shell_response,
    list_dir_response, read_file_response, system_status,
};
use rex_daemon::session_store::{
    event_from_chunk, operator_prompt_chunk, page_events, HarnessSessionStore, SessionEvent,
    SessionStoreError,
};
use rex_daemon::settings::Settings;
use rex_daemon::sidecar_client::{map_run_turn_chunk, map_sidecar_to_inference_chunks, run_turn_request, RunTurnChunk};
use rex_daemon::sidecar_observability::{
    economics_snapshot, record_metric, register_metric, span_record, AppendSpanRequest,
    CustomMetricCatalog, EconomicsSummary, RegisterMetricRequest,
};
use rex_daemon::supervisor::{
    restart_next, sidecar_restart_error, sidecar_spawn_env, RestartAction, RestartEvent,
    RestartPhase, StartupFailure, SupervisorError,
};
use rex_daemon::tool_approval::{is_approved, new_store, register_pending, respond};
use rex_daemon::turn_correlation::build_turn_correlation;

fn settings_with_root(root: &str) -> Settings {
    let mut s = Settings::defaults();
    s.workspace_root = Some(root.to_string());
    s
}

/// The store's append path, kept in memory: plan the record, then keep it.
fn append(store: &HarnessSessionStore, log: &mut Vec<SessionEvent>, session: &str, chunk: &StreamInferenceResponse) {
    if let Some((_path, event)) = store.append_plan(session, log, chunk).expect("append") {
        log.push(event);
    }
}

fn chunk(event: &str, text: &str, turn: &str) -> StreamInferenceResponse {
    let mut c = StreamInferenceResponse::plain(text.to_string(), 0, false);
    c.event = event.to_string();
    c.turn_id = turn.to_string();
    c
}

#[test]
fn append_and_fetch_incremental() {
    let store = HarnessSessionStore::new(&settings_with_root("/tmp/ws"));
    let mut log = Vec::new();
    append(&store, &mut log, "hs-test", &operator_prompt_chunk("hello", "turn-1"));
    append(&store, &mut log, "hs-test", &chunk("chunk", "world", "turn-1"));
    let page = store.fetch_events("hs-test", &log, 0, 0, 10);
    assert_eq!(page.events.len(), 2);
    assert_eq!(page.head_sequence, 2);
    let inc = store.fetch_events("hs-test", &log, 0, 1, 10);
    assert_eq!(inc.events.len(), 1);
    assert!(!inc.has_more_after);
}

#[test]
fn retroactive_fetch_returns_older_events() {
    let store = HarnessSessionStore::new(&settings_with_root("/tmp/ws"));
    let mut log = Vec::new();
    for i in 1..=5 {
        append(&store, &mut log, "hs-retro", &operator_prompt_chunk(&format!("msg {i}"), &format!("t{i}")));
    }
    let page = store.fetch_events("hs-retro", &log, 4, 0, 2);
    assert_eq!(page.events.len(), 2);
    assert!(page.has_more_before);
    assert_eq!(page.events[0].sequence, 2);
}

#[test]
fn append_plan_targets_session_log_and_skips_blank_ids() {
    let store = HarnessSessionStore::new(&settings_with_root("/tmp/ws"));
    let log = vec![event_from_chunk(7, &chunk("chunk", "x", "t"))];
    let (path, event) = store.append_plan("hs-a", &log, &chunk("done", "", "t")).unwrap().unwrap();
    assert_eq!(path, "/tmp/ws/.rex/sessions/hs-a.jsonl");
    assert_eq!(event.sequence, 8);
    assert_eq!(event.event, "done");
    assert!(store.append_plan("  ", &log, &chunk("done", "", "t")).unwrap().is_none());
    assert_eq!(store.append_plan("bad/id", &log, &chunk("done", "", "t")).unwrap_err(), SessionStoreError::InvalidSessionId);
    let rootless = HarnessSessionStore::new(&Settings::defaults());
    assert_eq!(rootless.append_plan("hs-a", &log, &chunk("done", "", "t")).unwrap_err(), SessionStoreError::WorkspaceNotConfigured);
}

#[test]
fn desktop_maps_pages_and_names_sessions() {
    let events = vec![event_from_chunk(1, &chunk("operator_prompt", "hi", "t1"))];
    let page = page_events(&events, 0, 0, 10);
    let dto = map_fetch_response(&page);
    assert_eq!(dto.events.len(), 1);
    assert_eq!(dto.events[0].text, "hi");
    assert_eq!(dto.head_sequence, 1);
    assert_eq!(harness_session_id(42, 3, 1_000_000_000_000_000_000_000u128), "hs-42-3-1000000000000000000000");
    assert_eq!(web_trace_id("hs-1"), "web-hs-1");
    assert_eq!(playwright_socket_path(None), "/tmp/rex-playwright.sock");
    let menu = desktop_menu();
    assert_eq!(menu.len(), 4);
    assert!(matches!(&menu[1].entries[1], MenuEntry::Item { id, label } if id == "session_continue" && label == "Continue…"));
}

#[test]
fn run_turn_request_populates_correlation_fields() {
    let correlation = build_turn_correlation(3, "ctx-body", "ran", "extractive_query", 1, false, &Settings::defaults());
    let request = run_turn_request("hello", "ask", "model-a", &correlation);
    assert_eq!(request.turn_id, "turn-3");
    assert!(request.context_revision.starts_with("ctx-"));
}

#[test]
fn map_run_turn_chunk_passes_structured_event_fields() {
    let chunk = RunTurnChunk {
        text: String::new(),
        index: 2,
        done: false,
        event: "tool".to_string(),
        tool_name: "fs.read".to_string(),
        phase: "running".to_string(),
        summary: String::new(),
        detail: "src/lib.rs".to_string(),
    };
    let mapped = map_run_turn_chunk(chunk.clone());
    assert_eq!(mapped.event, "tool");
    assert_eq!(mapped.tool_name, "fs.read");
    assert_eq!(mapped.phase, "running");
    assert_eq!(mapped.detail, "src/lib.rs");
    let all = map_sidecar_to_inference_chunks(vec![chunk]);
    assert_eq!(all.len(), 1);
    assert_eq!(all[0].as_ref().unwrap().index, 2);
}

#[test]
fn register_and_respond_approval() {
    let mut store = new_store();
    let token = register_pending(&mut store, "fs.write", "a.txt", "call-1", 7, 1, 0);
    assert!(!is_approved(&store, &token));
    assert_eq!(respond(&mut store, &token, true, 0), Some(true));
    assert!(is_approved(&store, &token));
}

#[test]
fn stream_requires_cursor_query_param() {
    let err = stream_params(None).unwrap_err();
    assert_eq!(err, "obs.read_api.stream_invalid: cursor_commit_ms required");
    let body = stream_error_body(&err);
    let parsed: serde_json::Value = serde_json::from_str(&body).unwrap();
    assert_eq!(parsed["code"], "obs.read_api.stream_invalid");
    assert_eq!(parsed["error"], "obs.read_api.stream_invalid: cursor_commit_ms required");
}

#[test]
fn stream_params_parse_cursor_and_instruments() {
    let p = stream_params(Some("cursor_commit_ms=-12&instruments= a, ,b&&x")).unwrap();
    assert_eq!(p.cursor_commit_ms, -12);
    assert_eq!(p.instruments, Some(vec!["a".to_string(), "b".to_string()]));
    assert_eq!(
        stream_params(Some("cursor_commit_ms=1x")).unwrap_err(),
        "obs.read_api.stream_invalid: cursor_commit_ms must be integer"
    );
    assert!(stream_params(Some("cursor_commit_ms=5")).unwrap().instruments.is_none());
    assert_eq!(parse_i64_text("-9223372036854775808"), Some(i64::MIN));
    assert_eq!(parse_i64_text("9223372036854775808"), None);
    assert_eq!(parse_i64_text("-+1"), None);
    assert_eq!(parse_i64_text("+17"), Some(17));
    let pairs = parse_query(Some("a=1&b=2=3&a=4&c"));
    assert_eq!(pairs.len(), 3);
    assert_eq!(pair_lookup(&pairs, "a"), Some("4".to_string()));
    assert_eq!(pair_lookup(&pairs, "b"), Some("2=3".to_string()));
    assert_eq!(pair_lookup(&pairs, "c"), None);
    assert_eq!(instrument_list(""), Vec::<String>::new());
}

#[test]
fn read_api_routes_and_bodies() {
    assert_eq!(route_request("GET", "/health"), ReadApiRoute::Health);
    assert_eq!(route_request("POST", "/v1/metrics/query"), ReadApiRoute::MetricsQuery);
    assert_eq!(route_request("GET", "/v1/metrics/query"), ReadApiRoute::NotFound);
    assert_eq!(route_request("GET", "/v1/metrics/stream"), ReadApiRoute::MetricsStream);
    let health: serde_json::Value = serde_json::from_str(health_body()).unwrap();
    assert_eq!(health["service"], "rex-obs-read-api");
    assert_eq!(error_body("not \"found\""), r#"{"code":"obs.read_api.query_invalid","error":"not \"found\""}"#);
    assert_eq!(sse_event_frame("{}"), "data: {}\n\n");
    let labels = vec![("terminal".to_string(), "done".to_string()), ("decision".to_string(), "hit".to_string())];
    let f = query_filter(Some(1), None, &labels);
    assert_eq!(f.terminal.as_deref(), Some("done"));
    assert_eq!(f.cache_decision.as_deref(), Some("hit"));
    assert!(f.route.is_none());
    assert_eq!(rollup_filter(None, None, 0).unwrap_err(), "obs.read_api.query_invalid: group_by required");
    assert!(rollup_filter(Some(1), Some(2), 1).is_ok());
}

fn metric_request(name: &str, kind: &str) -> RegisterMetricRequest {
    RegisterMetricRequest {
        name: name.to_string(),
        kind: kind.to_string(),
        unit: "1".to_string(),
        description: String::new(),
        label_keys: vec!["k".to_string()],
    }
}

#[test]
fn custom_metrics_register_then_record() {
    let mut catalog = CustomMetricCatalog::new();
    let (resp, def) = register_metric(&mut catalog, false, metric_request("m", ""));
    assert!(!resp.ok);
    assert_eq!(resp.error, "custom_sidecar_metrics disabled");
    assert!(def.is_none());
    let (resp, _) = register_metric(&mut catalog, true, metric_request("  ", ""));
    assert_eq!(resp.error, "metric name required");
    assert_eq!(
        record_metric(&catalog, true, "m", 0, 5).unwrap_err(),
        "metric `m` not registered"
    );
    let (resp, def) = register_metric(&mut catalog, true, metric_request("m", ""));
    assert!(resp.ok);
    assert_eq!(resp.instrument_name, "rex.sidecar.custom.m");
    assert_eq!(def.unwrap().kind, "counter");
    let (_, _) = register_metric(&mut catalog, true, metric_request("m", "gauge"));
    assert_eq!(catalog.defs.len(), 1);
    assert_eq!(catalog.defs[0].kind, "gauge");
    let point = record_metric(&catalog, true, "m", 0, 5).unwrap();
    assert_eq!(point.timestamp_ms, 5);
    assert_eq!(point.time_unix_nano, "5000000");
    assert_eq!(point.instrument, "rex.sidecar.custom.m");
    let point = record_metric(&catalog, true, "m", i64::MAX, 5).unwrap();
    assert_eq!(point.time_unix_nano, i64::MAX.to_string());
}

fn summary(id: u64) -> EconomicsSummary {
    EconomicsSummary { request_id: id, trace_id: String::new(), terminal: "done".to_string(), created_at_ms: 0, route: String::new() }
}

#[test]
fn economics_snapshot_is_newest_first_and_clamped() {
    let rows: Vec<EconomicsSummary> = (1..=5).map(summary).collect();
    let ids: Vec<u64> = economics_snapshot(&rows, 3).iter().map(|s| s.request_id).collect();
    assert_eq!(ids, vec![5, 4, 3]);
    assert_eq!(economics_snapshot(&rows, 0).len(), 1);
    assert_eq!(economics_snapshot(&rows, 1000).len(), 5);
}

#[test]
fn span_record_requires_trace_and_name() {
    let req = |trace: &str, name: &str| AppendSpanRequest {
        trace_id: trace.to_string(),
        turn_id: "t".to_string(),
        span_name: name.to_string(),
        parent_span_id: String::new(),
        start_ms: 1,
        end_ms: 0,
    };
    assert_eq!(span_record(req(" ", "s"), "{}".to_string()).unwrap_err(), "trace_id and span_name required");
    let s = span_record(req("tr", "s"), "{}".to_string()).unwrap();
    assert!(s.parent_span_id.is_none());
    assert!(s.end_ms.is_none());
}

#[test]
fn restart_machine_walks_to_ready_or_times_out() {
    let (p, a) = restart_next(RestartPhase::Idle, RestartEvent::Begin, 8000, 100);
    assert_eq!((p, a), (RestartPhase::Stopping, RestartAction::Stop));
    let (p, a) = restart_next(p, RestartEvent::Stopped, 8000, 100);
    assert_eq!(a, RestartAction::CheckCommand);
    let (p, a) = restart_next(p, RestartEvent::CommandChecked { resolvable: true }, 8000, 100);
    assert_eq!(a, RestartAction::Spawn);
    let (p, a) = restart_next(p, RestartEvent::Spawned { result: Ok(()), now_ms: 1000 }, 8000, 100);
    assert_eq!((p, a), (RestartPhase::Polling { started_ms: 1000 }, RestartAction::CheckHealth));
    let (p2, a2) = restart_next(p, RestartEvent::HealthChecked { healthy: false, now_ms: 1500 }, 8000, 100);
    assert_eq!(a2, RestartAction::Sleep(100));
    let (_, a3) = restart_next(p2, RestartEvent::HealthChecked { healthy: false, now_ms: 9000 }, 8000, 100);
    assert_eq!(a3, RestartAction::Fail { stop_first: true, failure: StartupFailure::StartupTimeout });
    let (p4, a4) = restart_next(p2, RestartEvent::HealthChecked { healthy: true, now_ms: 9000 }, 8000, 100);
    assert_eq!((p4, a4), (RestartPhase::Ready, RestartAction::Succeed));
    let (_, a5) = restart_next(RestartPhase::Checking, RestartEvent::CommandChecked { resolvable: false }, 8000, 100);
    assert_eq!(a5, RestartAction::Fail { stop_first: false, failure: StartupFailure::CommandMissing });
    let (p6, a6) = restart_next(RestartPhase::Ready, RestartEvent::Stopped, 8000, 100);
    assert_eq!((p6, a6), (RestartPhase::Ready, RestartAction::Ignore));
}

#[test]
fn restart_failures_map_to_supervisor_errors() {
    match sidecar_restart_error("host", "/bin/sc", Some("install it"), StartupFailure::CommandMissing) {
        SupervisorError::BinaryMissing { path } => assert_eq!(path, "/bin/sc; install it"),
        other => panic!("unexpected {other:?}"),
    }
    match gateway_restart_error("litellm", StartupFailure::Spawn("denied".to_string())) {
        GatewaySupervisorError::Spawn(m) => assert_eq!(m, "denied"),
        other => panic!("unexpected {other:?}"),
    }
    assert!(gateway_needs_restart(true, false, true));
    assert!(!gateway_needs_restart(true, true, true));
    let env = sidecar_spawn_env("/r", "/r/proto/gen", "/s.sock", "/d.sock");
    assert_eq!(env[1], ("PYTHONPATH".to_string(), "/r/proto/gen".to_string()));
}

#[test]
fn daemon_start_failures_are_fatal_only_when_required() {
    let w = gateway_start_outcome(false, Err(GatewaySupervisorError::StartupTimeout)).unwrap();
    assert_eq!(
        w.as_deref(),
        Some("rex-daemon gateway optional start failed: gateway did not become healthy within startup budget")
    );
    let e = gateway_start_outcome(true, Err(GatewaySupervisorError::StartupTimeout)).unwrap_err();
    assert_eq!(
        e.message(),
        "inference gateway supervisor: gateway did not become healthy within startup budget"
    );
    let e = sidecar_start_outcome(true, Err(SupervisorError::StartupTimeout { name: "host".to_string() })).unwrap_err();
    assert!(matches!(e, DaemonRuntimeError::Sidecar(_)));
    assert!(sidecar_start_needed(false, true));
    assert!(!sidecar_start_needed(true, true));
    assert!(!idle_watch_enabled(0));
    assert_eq!(
        listen_log_line("/tmp/rex.sock", "mock", "0.1.0", 0, None),
        "rex-daemon event=listen socket=/tmp/rex.sock inference_runtime=mock daemon_version=0.1.0 idle_shutdown_secs=0 workspace.error=not_configured"
    );
    assert_eq!(
        shutdown_log_line("/tmp/rex.sock", ShutdownReason::IdleShutdown),
        "rex-daemon event=shutdown socket=/tmp/rex.sock reason=idle_shutdown"
    );
}

fn entry(name: &str) -> BrokerDirEntry {
    BrokerDirEntry { name: name.to_string(), is_dir: false }
}

#[test]
fn list_dir_sorts_by_lowercase_name_and_caps() {
    let read = vec![entry("b"), entry("A"), entry("a"), entry("C")];
    let names: Vec<String> = finish_list_dir(&read).into_iter().map(|e| e.name).collect();
    assert_eq!(names, vec!["A", "a", "b", "C"]);
    let many: Vec<BrokerDirEntry> = (0..300).map(|i| entry(&format!("f{i:03}"))).collect();
    let listed = finish_list_dir(&many);
    assert_eq!(listed.len(), 256);
    assert_eq!(listed[255].name, "f255");
}

#[test]
fn broker_answers_carry_results_or_error_text() {
    let ok = exec_shell_response(Ok(ShellResult { stdout: "o".to_string(), stderr: String::new() }));
    assert!(ok.ok);
    assert_eq!(ok.stdout, "o");
    let denied = || BrokerError::PolicyDenied { code: "mode".to_string(), message: "no".to_string() };
    let failed = ack_response(Err(denied()));
    assert!(!failed.ok);
    assert_eq!(failed.error, "access policy denied (mode): no");
    assert_eq!(
        broker_deny_log_line("fs.write", "ask", "a.txt", &denied()),
        "broker.access_policy=deny capability=fs.write mode=ask code=mode subject=a.txt error=no"
    );
    assert_eq!(
        broker_deny_log_line("fs.read", "ask", "x", &BrokerError::NotFound("x".to_string())),
        "broker.access_policy=deny capability=fs.read mode=ask subject=x error=path not found: x"
    );
    assert!(list_dir_response(Err(BrokerError::NoWorkspaceRoot)).entries.is_empty());
    assert_eq!(read_file_response(Ok("c".to_string())).content, "c");
    assert_eq!(broker_message_count(0, " hi "), 1);
    assert_eq!(broker_message_count(0, "  "), 0);
    assert_eq!(broker_message_count(3, ""), 3);
    let mut s = Settings::defaults();
    assert_eq!(system_status(9, &s).active_model_id, "mock-model-v0");
    s.inference_model = " m1 ".to_string();
    let st = system_status(9, &s);
    assert_eq!((st.active_model_id.as_str(), st.uptime_seconds), ("m1", 9));
}

#[test]
fn workspace_docs_entries_are_filtered() {
    assert_eq!(doc_entry_action("src\\lib.rs", false, 10, 4096), DocEntryAction::Read("src/lib.rs".to_string()));
    assert_eq!(doc_entry_action("target/x.rs", false, 10, 4096), DocEntryAction::Skip);
    assert_eq!(doc_entry_action("docs", true, 0, 4096), DocEntryAction::Descend);
    assert_eq!(doc_entry_action("a.png", false, 10, 4096), DocEntryAction::Skip);
    assert_eq!(doc_entry_action("big.md", false, 5000, 4096), DocEntryAction::Skip);
    assert_eq!(collected_doc("a.md".to_string(), "héllo", 2), Some(("a.md".to_string(), "hé".to_string())));
    assert_eq!(collected_doc("a.md".to_string(), "", 2), None);
}

#[test]
fn read_api_errors_carry_their_prefixes() {
    assert_eq!(
        non_loopback_error("10.0.0.1").message(),
        "obs.read_api.bind_failed: obs.read_api.bind_failed: non-loopback address 10.0.0.1"
    );
    assert_eq!(
        ReadApiError::QueryInvalid("bad json".to_string()).message(),
        "obs.read_api.query_invalid: bad json"
    );
    assert_eq!(ReadApiError::Store("locked".to_string()).message(), "store error: locked");
    assert_eq!(ReadApiError::Config("missing".to_string()).message(), "config error: missing");
    assert_eq!(ReadApiError::Io("eof".to_string()).message(), "io error: eof");
    assert_eq!(ReadApiError::Http("reset".to_string()).message(), "http error: reset");
}

#[test]
fn error_body_escapes_like_json_strings() {
    assert_eq!(
        error_body("a\\b\tc\u{1}d\u{7f}\u{e9}/"),
        "{\"code\":\"obs.read_api.query_invalid\",\"error\":\"a\\\\b\\tc\\u0001d\u{7f}\u{e9}/\"}"
    );
}

#[test]
fn an_expired_approval_cannot_be_answered() {
    let mut store = new_store();
    let token = register_pending(&mut store, "fs.write", "a.txt", "call-9", 7, 9, 1_000);
    assert_eq!(respond(&mut store, &token, true, 1_000 + 300_000), None);
    assert!(!is_approved(&store, &token));
    let fresh = register_pending(&mut store, "fs.write", "b.txt", "call-10", 7, 10, 2_000);
    assert_eq!(respond(&mut store, &fresh, true, 2_000 + 299_999), Some(true));
    assert!(is_approved(&store, &fresh));
}
