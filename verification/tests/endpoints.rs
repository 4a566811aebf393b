use rex_daemon::gateway_supervisor::{
    gateway_spawn_args, models_url, parse_env_file, uses_litellm_cli, GatewaySupervisorConfig,
    GatewaySupervisorError,
};
use rex_daemon::http_openai_compat::{
    build_tool_name_map, decode_tool_calls_from_provider, decode_tool_name_from_provider,
    encode_tool_name_for_provider, normalize_chat_completions_url, resolve_inference_model,
    truncate_body, HttpToolCall, HttpToolSpec,
};
use rex_daemon::ollama_capability::{
    derive_show_url, is_ollama_like_base_url, is_omlx_like_base_url, CapabilityCache,
};
use rex_daemon::omlx_supervisor::{health_url, omlx_spawn_args, OmlxSupervisorConfig};
use rex_daemon::otlp_metrics::{
    completion_estimate, otlp_service_name, otlp_transport, retrieval_duration_ms, OtlpTransport,
    TerminalOtlpContext,
};
use rex_daemon::supervisor::{binary_missing, sidecar_python_path, SupervisorError};

#[test]
fn models_url_appends_v1_models() {
    assert_eq!(models_url("http://127.0.0.1:4000/v1"), "http://127.0.0.1:4000/v1/models");
}

#[test]
fn models_url_adds_v1_for_bare_hosts() {
    assert_eq!(models_url("http://127.0.0.1:4000//"), "http://127.0.0.1:4000/v1/models");
}

#[test]
fn litellm_command_gets_config_and_port() {
    assert!(uses_litellm_cli("/usr/local/bin/LiteLLM"));
    assert!(uses_litellm_cli("C:\\tools\\litellm"));
    assert!(!uses_litellm_cli("gateway"));
    let cfg = GatewaySupervisorConfig {
        enabled: true,
        base_url: "http://127.0.0.1:4000/v1".to_string(),
        command: "litellm".to_string(),
        config_path: "/r/gateway.yaml".to_string(),
        port: 4000,
        startup_timeout_secs: 30,
        required: false,
        discovery_on_ready: true,
        rex_root: "/r".to_string(),
    };
    assert_eq!(
        gateway_spawn_args(&cfg),
        vec!["--config".to_string(), "/r/gateway.yaml".to_string(), "--port".to_string(), "4000".to_string()]
    );
    assert_eq!(
        GatewaySupervisorError::CommandMissing { command: "litellm".to_string() }.message(),
        "gateway command not found on PATH: litellm"
    );
}

#[test]
fn env_file_lines_become_variables() {
    let vars = parse_env_file("# comment\n\nKEY = \"value\"\nBAD\nA=b=c\n");
    assert_eq!(
        vars,
        vec![("KEY".to_string(), "value".to_string()), ("A".to_string(), "b=c".to_string())]
    );
}

#[test]
fn encodes_and_decodes_tool_names_for_provider_wire() {
    let tools = vec![
        HttpToolSpec { name: "fs.read".to_string(), description: String::new(), parameters_json: "{}".to_string() },
        HttpToolSpec { name: "web.search".to_string(), description: String::new(), parameters_json: "{}".to_string() },
    ];
    let map = build_tool_name_map(&tools);
    assert_eq!(encode_tool_name_for_provider("fs.read"), "fs_read");
    assert_eq!(encode_tool_name_for_provider("exec.shell"), "exec_shell");
    assert_eq!(decode_tool_name_from_provider("fs_read", &map), "fs.read");
    assert_eq!(decode_tool_name_from_provider("web_search", &map), "web.search");
    assert_eq!(decode_tool_name_from_provider("unknown_tool", &map), "unknown_tool");
}

#[test]
fn decodes_provider_tool_calls_to_canonical_names() {
    let tools = vec![HttpToolSpec {
        name: "fs.read".to_string(),
        description: String::new(),
        parameters_json: "{}".to_string(),
    }];
    let map = build_tool_name_map(&tools);
    let calls = decode_tool_calls_from_provider(
        vec![HttpToolCall {
            id: "call_1".to_string(),
            name: "fs_read".to_string(),
            arguments_json: r#"{"path":"x"}"#.to_string(),
        }],
        &map,
    );
    assert_eq!(calls[0].name, "fs.read");
    assert_eq!(calls[0].id, "call_1");
}

#[test]
fn resolves_model_override() {
    assert_eq!(resolve_inference_model("", "default-model"), "default-model");
    assert_eq!(resolve_inference_model("  custom-model  ", "default-model"), "custom-model");
}

#[test]
fn normalizes_base_urls() {
    assert_eq!(
        normalize_chat_completions_url("http://127.0.0.1:11434/v1"),
        "http://127.0.0.1:11434/v1/chat/completions"
    );
    assert_eq!(
        normalize_chat_completions_url("http://host/v1/chat/completions"),
        "http://host/v1/chat/completions"
    );
    assert_eq!(normalize_chat_completions_url("http://host/"), "http://host/v1/chat/completions");
}

#[test]
fn error_bodies_are_bounded() {
    assert_eq!(truncate_body("short", 10), "short");
    assert_eq!(truncate_body("abcdef", 3), "abc…");
}

#[test]
fn derives_show_url_from_v1_base() {
    assert_eq!(
        derive_show_url("http://127.0.0.1:11434/v1").as_deref(),
        Some("http://127.0.0.1:11434/api/show")
    );
}

#[test]
fn derives_show_url_from_other_shapes() {
    assert_eq!(
        derive_show_url(" http://h:1/v1/chat/completions/ ").as_deref(),
        Some("http://h:1/api/show")
    );
    assert_eq!(derive_show_url("http://h:1").as_deref(), Some("http://h:1/api/show"));
    assert_eq!(derive_show_url("   "), None);
}

#[test]
fn ollama_like_host_heuristic() {
    assert!(is_ollama_like_base_url("http://127.0.0.1:11434/v1"));
    assert!(!is_ollama_like_base_url("http://127.0.0.1:4000/v1"));
}

#[test]
fn omlx_like_host_heuristic() {
    assert!(is_omlx_like_base_url("http://127.0.0.1:8000/v1", None));
    assert!(is_omlx_like_base_url("http://127.0.0.1:9000/v1", Some(9000)));
    assert!(!is_omlx_like_base_url("http://127.0.0.1:11434/v1", None));
}

#[test]
fn capability_probe_results_are_remembered() {
    let mut cache = CapabilityCache::new();
    assert_eq!(cache.lookup("http://h/v1", "m"), None);
    cache.record(" http://h/v1 ", " m ", true);
    assert_eq!(cache.lookup("http://h/v1", "m"), Some(true));
    cache.record("http://h/v1", "m", false);
    assert_eq!(cache.lookup("http://h/v1", "m"), Some(false));
}

#[test]
fn health_url_appends_v1_models() {
    assert_eq!(
        health_url("http://127.0.0.1:8000/v1", "/v1/models"),
        "http://127.0.0.1:8000/v1/models"
    );
}

#[test]
fn health_url_handles_absolute_blank_and_relative_paths() {
    assert_eq!(health_url("http://h/v1", "https://x/health"), "https://x/health");
    assert_eq!(health_url("http://h/v1/", ""), "http://h/v1/models");
    assert_eq!(health_url("http://h", "health"), "http://h/health");
}

#[test]
fn omlx_is_started_with_port_and_model_dir() {
    let cfg = OmlxSupervisorConfig {
        enabled: true,
        base_url: "http://127.0.0.1:8000/v1".to_string(),
        command: "omlx".to_string(),
        model_dir: "/models".to_string(),
        port: 8000,
        health_path: "/v1/models".to_string(),
        startup_timeout_secs: 60,
        required: false,
        discovery_on_ready: true,
        rex_root: "/r".to_string(),
    };
    assert_eq!(
        omlx_spawn_args(&cfg),
        vec!["serve", "--port", "8000", "--model-dir", "/models"]
            .into_iter()
            .map(String::from)
            .collect::<Vec<_>>()
    );
}

#[test]
fn terminal_context_defaults_are_empty() {
    let ctx = TerminalOtlpContext::default();
    assert!(ctx.ttft_ms.is_none());
    assert!(ctx.approval_outcome.is_none());
}

#[test]
fn otlp_settings_and_derived_values() {
    assert_eq!(otlp_transport(" HTTP/Protobuf "), OtlpTransport::HttpProtobuf);
    assert_eq!(otlp_transport("grpc"), OtlpTransport::Grpc);
    assert_eq!(otlp_service_name("  ", "rex-daemon"), "rex-daemon");
    assert_eq!(otlp_service_name(" svc ", "rex-daemon"), "svc");
    assert_eq!(completion_estimate(3), 96);
    assert_eq!(completion_estimate(u64::MAX), u64::MAX);
    assert_eq!(retrieval_duration_ms("skipped", 9), 0);
    assert_eq!(retrieval_duration_ms("ran", 4), 8);
}

#[test]
fn sidecar_supervision_messages() {
    assert_eq!(
        binary_missing("rex-sidecar", Some("install it")).message(),
        "sidecar binary not found at rex-sidecar; install it"
    );
    assert_eq!(
        SupervisorError::StartupTimeout { name: "host".to_string() }.message(),
        "sidecar host did not become healthy within startup budget"
    );
    assert_eq!(sidecar_python_path("/r/proto/gen", Some("/x")), "/r/proto/gen:/x");
    assert_eq!(sidecar_python_path("/r/proto/gen", None), "/r/proto/gen");
}
