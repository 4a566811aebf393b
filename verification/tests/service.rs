use rex_daemon::adapters::RpcCode;
use rex_daemon::approvals::ApprovalDecision;
use rex_daemon::desktop::{
    lifecycle_event, map_effect, phase_to_str, split_approval_detail, stream_end_event,
    DaemonLifecycleEvent, StreamEventDto, ToolCard, TurnPhase, UiEffect,
};
use rex_daemon::plugins::{BehaviorDecision, CacheStatus};
use rex_daemon::service::{
    ensure_workspace_configured, extract_trace_id, extract_turn_id, format_approval_decision,
    format_behavior_decision, format_cache_status, resolve_route_label_for, PromptDirectives,
};
use rex_daemon::settings::{is_initialized, reset_for_test, Settings, SettingsRegistry};
use rex_daemon::sidecar_config::{parse_harness_only, SidecarConfig, SidecarFleetConfig};

#[test]
fn prompt_directives_parse_cache_and_diagnostics() {
    let directives = PromptDirectives::from_prompt("[[diag: cargo test failed]]\n[[cache:bypass]]");
    assert_eq!(directives.diagnostics_hint.as_deref(), Some("cargo test failed"));
    assert!(directives.cache_bypass);
}

#[test]
fn prompt_directives_read_behavior_and_retrieval() {
    let d = PromptDirectives::from_prompt("hello\n [[behavior:focused]] \n[[retrieve:off]]\n[[diag:]]");
    assert_eq!(d.behavior_snapshot.typing_cadence_cpm, 500);
    assert!(d.retrieve_off);
    assert!(!d.cache_bypass);
    assert!(d.diagnostics_hint.is_none());
}

#[test]
fn cache_status_format_is_stable() {
    assert_eq!(format_cache_status(CacheStatus::Hit), "hit");
    assert_eq!(format_cache_status(CacheStatus::Bypass), "bypass");
}

#[test]
fn behavior_decision_format_is_stable() {
    assert_eq!(format_behavior_decision(&BehaviorDecision::Allow), "allow");
    assert_eq!(format_behavior_decision(&BehaviorDecision::Suppress { reason: "x" }), "suppress");
    assert_eq!(format_approval_decision(&ApprovalDecision::Allow), "allow");
    assert_eq!(format_approval_decision(&ApprovalDecision::Deny { reason: "x".to_string() }), "deny");
    assert_eq!(
        format_approval_decision(&ApprovalDecision::Checkpoint { reason: "y".to_string() }),
        "checkpoint"
    );
}

#[test]
fn resolve_route_label_sidecar_and_harness_modes() {
    assert_eq!(resolve_route_label_for("http-openai-compat", false, true), "sidecar+http-openai-compat");
    assert_eq!(resolve_route_label_for("mock", true, false), "harness_direct+mock");
    assert_eq!(resolve_route_label_for("mock", true, true), "harness_direct+mock");
    assert_eq!(resolve_route_label_for("mock", false, false), "daemon_direct+mock");
}

#[test]
fn trace_id_extraction_falls_back_to_request_id() {
    assert_eq!(extract_trace_id(None, 42), "request-42");
    assert_eq!(extract_trace_id(Some("  "), 42), "request-42");
    assert_eq!(extract_trace_id(Some(" t-1 "), 42), "t-1");
}

#[test]
fn extract_turn_id_reads_metadata() {
    assert_eq!(extract_turn_id(Some("turn-9")), "turn-9");
    assert_eq!(extract_turn_id(None), "");
}

#[test]
fn workspace_indexer_needs_a_root() {
    let s = Settings::defaults();
    let err = ensure_workspace_configured(&s).expect_err("no root");
    assert_eq!(err.code, RpcCode::FailedPrecondition);
    let mut seeded = Settings::defaults();
    seeded.workspace_indexer_mode = "Seeded".to_string();
    assert!(ensure_workspace_configured(&seeded).is_ok());
}

#[test]
fn settings_registry_answers_defaults_until_initialized() {
    let mut reg = SettingsRegistry::new();
    assert!(!is_initialized(&reg));
    let mut s = Settings::defaults();
    s.cache_bypass = true;
    reg.init(s);
    assert!(is_initialized(&reg));
    assert!(reg.get().cache_bypass);
    reset_for_test(&mut reg);
    assert!(!is_initialized(&reg));
    assert!(!reg.get().cache_bypass);
}

#[test]
fn sidecar_fleet_follows_configuration() {
    let s = Settings::defaults();
    let fleet = SidecarFleetConfig::from_config(&s);
    assert_eq!(fleet.host.name, "stub");
    assert!(!fleet.host.enabled);
    assert!(fleet.capabilities.is_empty());
    assert_eq!(parse_harness_only(&s), None);
    let mut direct = Settings::defaults();
    direct.sidecar_harness_direct = true;
    assert_eq!(parse_harness_only(&direct), Some("direct"));
    let host = SidecarConfig::from_process(&fleet.host);
    assert_eq!(host.socket_path, s.default_sidecar_socket);
}

#[test]
fn desktop_maps_stream_effects() {
    assert_eq!(phase_to_str(TurnPhase::ToolApproval), "tool_approval");
    assert_eq!(split_approval_detail("a|b|tap-1"), ("a|b".to_string(), "tap-1".to_string()));
    assert_eq!(split_approval_detail("a|x"), ("a|x".to_string(), String::new()));
    match map_effect(UiEffect::ToolUpdated(ToolCard {
        tool_call_id: "tc1".to_string(),
        name: "fs.write".to_string(),
        phase: "approval_required".to_string(),
        detail: "path|tap-9".to_string(),
    })) {
        Some(StreamEventDto::ApprovalRequired { tool_call_id, detail, approval_token, .. }) => {
            assert_eq!(tool_call_id, "tc1");
            assert_eq!(detail, "path");
            assert_eq!(approval_token, "tap-9");
        }
        other => panic!("unexpected {other:?}"),
    }
    match map_effect(UiEffect::TerminalError { code: "c".to_string(), message: "approval_required:tap-2".to_string() }) {
        Some(StreamEventDto::ApprovalRequired { approval_token, .. }) => assert_eq!(approval_token, "tap-2"),
        other => panic!("unexpected {other:?}"),
    }
    assert!(map_effect(UiEffect::Ignored).is_none());
    assert!(stream_end_event(TurnPhase::ToolApproval).is_none());
    assert!(matches!(stream_end_event(TurnPhase::Generating), Some(StreamEventDto::Error { .. })));
    assert!(matches!(lifecycle_event(Err("down".to_string())), DaemonLifecycleEvent::Unavailable { .. }));
}
