use rex_daemon::adapters::{
    cursor_chunks, cursor_exit_outcome, cursor_timed_out, extract_cursor_text, replace_all_vec,
    CursorCliRuntime, MockInferenceRuntime, RpcCode, RpcStatus, RuntimeKind, StreamInferenceResponse,
};
use rex_daemon::approvals::{
    approval_gate_from_config, ApprovalContext, ApprovalDecision, ApprovalGate,
    EnforceWithoutContext, ENFORCEMENT_DENY_REASON,
};
use rex_daemon::broker::{format_delimited_tool_result, TRUNCATION_MARKER};
use rex_daemon::broker_inference::{
    map_completion_to_response, normalize_messages, plan_broker_inference,
    should_forward_native_tools, BrokerInferenceRequest, ChatMessage, ToolSpec,
};
use rex_daemon::http_openai_compat::{
    completion_chunks, completion_request_body, completion_text, decide_attach_tools,
    finish_broker_inference, finish_completion, needs_capability_probe, status_failure,
    timeout_status, BrokerCompletionResult, HttpChatMessage, HttpOpenAiCompatRuntime,
    HttpToolCall, HttpToolSpec, InferenceProtocol, SseAssemblyState, ToolCallDelta,
};
use rex_daemon::ollama_capability::show_response_supports_tools;
use rex_daemon::otlp_metrics::{
    otlp_export_plan, stream_metric_points, MetricInstrument, MetricValue, OtlpTransport,
    TerminalOtlpContext,
};
use rex_daemon::observability::StreamEconomicsRecord;
use rex_daemon::plugins::{
    BehaviorSnapshot, ContextPipeline, ContextRequest, ContextSources, LexicalWorkspaceIndexer,
    TokenBudget,
};
use rex_daemon::adapters::AdapterCapabilities;
use rex_daemon::knowledge::KnowledgeResult;
use rex_daemon::routing::decide_route;
use rex_daemon::settings::{NativeToolsMode, Settings};

fn ctx(mode: &str, approval_id: Option<&str>) -> ApprovalContext {
    ApprovalContext {
        mode: mode.to_string(),
        runtime: RuntimeKind::Mock,
        approval_id: approval_id.map(|s| s.to_string()),
    }
}

#[test]
fn extracts_text_from_json_and_plain_lines() {
    let raw = r#"{"text":"hello"}
{"delta":{"text":"world"}}
plain line"#;
    assert_eq!(extract_cursor_text(raw), "hello\nworld\nplain line");
}

#[test]
fn cursor_text_reads_content_and_reports_empty_output() {
    assert_eq!(extract_cursor_text("{\"content\":\"c\"}\n\n  \n"), "c");
    assert_eq!(extract_cursor_text("  \n\n"), "[empty response]");
    assert_eq!(extract_cursor_text("{\"text\":\"\"}"), "[empty response]");
}

#[test]
fn cursor_command_renders_template_or_cli_flags() {
    let rt = CursorCliRuntime::with_command_template("echo {prompt} && echo {prompt}", 5);
    let cmd = rt.command_for("it's");
    assert_eq!(cmd.program, "sh");
    assert_eq!(cmd.args, vec!["-lc".to_string(), "echo 'it'\"'\"'s' && echo 'it'\"'\"'s'".to_string()]);
    let plain = CursorCliRuntime::from_env_values(None, Some(" /bin/agent "), Some("7"));
    let cmd = plain.command_for("hi");
    assert_eq!(cmd.program, "/bin/agent");
    assert_eq!(cmd.args, vec!["-p", "hi", "--output-format", "json"]);
    assert_eq!(plain.timeout_secs, 7);
}

#[test]
fn replace_all_is_left_to_right_and_non_overlapping() {
    let s: Vec<char> = "aaaa".chars().collect();
    let pat: Vec<char> = "aa".chars().collect();
    let with: Vec<char> = "b".chars().collect();
    let r: String = replace_all_vec(&s, &pat, &with).into_iter().collect();
    assert_eq!(r, "bb");
}

#[test]
fn cursor_outcomes_map_failures() {
    let err = cursor_exit_outcome(false, "exit status: 2", "out".to_string(), "  boom \n").unwrap_err();
    assert_eq!(err.code, RpcCode::Unavailable);
    assert_eq!(err.message, "cursor runtime failed: status=exit status: 2; stderr=boom");
    assert_eq!(cursor_exit_outcome(true, "", "out".to_string(), "").unwrap(), "out");
    let t = cursor_timed_out(20);
    assert_eq!(t.code, RpcCode::DeadlineExceeded);
    assert_eq!(t.message, "cursor runtime timed out after 20s");
    let chunks = cursor_chunks(Ok("{\"text\":\"hello world\"}".to_string()));
    assert_eq!(chunks.len(), 3);
    assert_eq!(chunks[0].as_ref().unwrap().text, "hello wo");
    assert!(chunks[2].as_ref().unwrap().done);
}

#[test]
fn approval_gate_from_config_defaults_to_always_allow() {
    let settings = Settings::defaults();
    let gate = approval_gate_from_config(&settings);
    assert_eq!(gate.check(&ctx("agent", None)), ApprovalDecision::Allow);
}

#[test]
fn enforce_allows_when_approval_id_present() {
    let gate = EnforceWithoutContext;
    assert_eq!(gate.check(&ctx("agent", Some("apr-test-1"))), ApprovalDecision::Allow);
}

#[test]
fn approval_gate_from_config_selects_enforcement_when_enabled() {
    let mut settings = Settings::defaults();
    settings.approvals_enabled = true;
    let gate = approval_gate_from_config(&settings);
    assert_eq!(
        gate.check(&ctx("agent", None)),
        ApprovalDecision::Deny { reason: ENFORCEMENT_DENY_REASON.to_string() }
    );
}

#[test]
fn approval_gate_from_config_keeps_always_allow_when_disabled() {
    let mut settings = Settings::defaults();
    settings.approvals_enabled = false;
    let gate = approval_gate_from_config(&settings);
    assert_eq!(gate.check(&ctx("agent", None)), ApprovalDecision::Allow);
}

#[test]
fn truncates_large_read_content_at_line_boundary() {
    let mut settings = Settings::defaults();
    settings.broker_max_tool_result_bytes = 64;
    let long = "line-one\nline-two\nline-three\nline-four";
    let out = format_delimited_tool_result("fs.read", long, &settings);
    assert!(out.contains("<<TOOL_RESULT:fs.read>>"));
    assert!(out.contains("<<END>>"));
    assert!(out.len() <= 64);
    assert!(!out.contains("line-three"));
}

#[test]
fn delimited_result_respects_utf8_byte_budget() {
    let mut settings = Settings::defaults();
    settings.broker_max_tool_result_bytes = 96;
    let body = format!("café\n{}", "second-line\n".repeat(8));
    let out = format_delimited_tool_result("fs.read", &body, &settings);
    assert!(out.len() <= 96);
    assert!(out.contains("<<TOOL_RESULT:fs.read>>"));
    assert!(out.contains(TRUNCATION_MARKER) || !out.contains("second-line\nsecond-line"));
}

fn broker_request(prompt: &str, messages: Vec<ChatMessage>, tools: Vec<ToolSpec>) -> BrokerInferenceRequest {
    BrokerInferenceRequest {
        prompt: prompt.to_string(),
        mode: "plan".to_string(),
        model: String::new(),
        messages,
        tools,
    }
}

fn fs_read_tool() -> ToolSpec {
    ToolSpec { name: "fs.read".to_string(), description: String::new(), parameters_json: "{}".to_string() }
}

#[test]
fn normalizes_prompt_fallback() {
    let req = BrokerInferenceRequest {
        prompt: "hello".to_string(),
        mode: "ask".to_string(),
        model: String::new(),
        messages: Vec::new(),
        tools: Vec::new(),
    };
    let msgs = normalize_messages(&req);
    assert_eq!(msgs.len(), 1);
    assert_eq!(msgs[0].role, "user");
    assert_eq!(msgs[0].content, "hello");
}

#[test]
fn mock_runtime_blocks_tool_forward() {
    let req = broker_request(
        "",
        vec![ChatMessage { role: "user".to_string(), content: "x".to_string() }],
        vec![fs_read_tool()],
    );
    assert!(!should_forward_native_tools(
        &req,
        NativeToolsMode::Auto,
        RuntimeKind::Mock,
        "http://127.0.0.1:11434/v1"
    ));
}

#[test]
fn broker_plan_refuses_empty_requests_and_forwards_tools_to_http() {
    let settings = Settings::defaults();
    let empty = plan_broker_inference(&broker_request("   ", Vec::new(), Vec::new()), &settings);
    let resp = empty.unwrap_err();
    assert!(!resp.ok);
    assert_eq!(resp.error, "broker inference requires prompt or messages");
    assert_eq!(resp.protocol, InferenceProtocol::Interim);

    let mut http = Settings::defaults();
    http.inference_runtime = "http-openai-compat".to_string();
    let plan = plan_broker_inference(&broker_request("hi", Vec::new(), vec![fs_read_tool()]), &http).unwrap();
    assert!(plan.forward_tools);
    assert_eq!(plan.tools.len(), 1);
    assert_eq!(plan.runtime, RuntimeKind::HttpOpenAiCompat);

    let plan = plan_broker_inference(&broker_request("hi", Vec::new(), vec![fs_read_tool()]), &settings).unwrap();
    assert!(!plan.forward_tools);
    assert!(plan.tools.is_empty());
}

#[test]
fn parses_sse_delta() {
    let mut state = SseAssemblyState::new();
    state.ingest_line(r#"data: {"choices":[{"delta":{"content":"hi"}}]}"#);
    assert_eq!(state.content, "hi");
}

#[test]
fn assembles_tool_calls_from_sse_fragments() {
    let mut state = SseAssemblyState::new();
    state.ingest_line(
        r#"data: {"choices":[{"delta":{"tool_calls":[{"index":0,"id":"call_1","function":{"name":"fs.read","arguments":"{\"path\""}}]}}]}"#,
    );
    state.ingest_line(
        r#"data: {"choices":[{"delta":{"tool_calls":[{"index":0,"function":{"arguments":"\":\"x\"}"}}]}}]}"#,
    );
    let calls = state.finish_tool_calls();
    assert_eq!(calls.len(), 1);
    assert_eq!(calls[0].name, "fs.read");
    assert_eq!(calls[0].id, "call_1");
    assert!(calls[0].arguments_json.contains("path"));
}

#[test]
fn sse_ignores_other_lines_and_orders_calls_by_index() {
    let mut state = SseAssemblyState::new();
    state.ingest_line("event: ping");
    state.ingest_line("data: [DONE]");
    state.ingest_line("data: not json");
    state.ingest_line(r#"data: {"choices":[{"message":{"content":"whole"}}]}"#);
    state.ingest_line(
        r#"data: {"choices":[{"delta":{"tool_calls":[{"index":2,"function":{"name":"b","arguments":"2"}},{"index":1,"id":"x","function":{"name":"a"}}]}}]}"#,
    );
    state.ingest_line(r#"data: {"choices":[{"delta":{"tool_calls":[{"index":3,"function":{"arguments":"{}"}}]}}]}"#);
    assert_eq!(state.content, "whole");
    let calls = state.finish_tool_calls();
    assert_eq!(calls.len(), 2);
    assert_eq!((calls[0].id.as_str(), calls[0].name.as_str()), ("x", "a"));
    assert_eq!((calls[1].name.as_str(), calls[1].arguments_json.as_str()), ("b", "2"));
    assert_eq!(state.tool_parts.len(), 3);
}

#[test]
fn apply_event_appends_text_and_fragments() {
    let mut state = SseAssemblyState::new();
    state.apply_event(
        Some("ab".to_string()),
        &vec![ToolCallDelta { index: 4, id: Some(String::new()), name: Some("n".to_string()), arguments: None }],
    );
    state.apply_event(None, &vec![ToolCallDelta { index: 4, id: Some("id".to_string()), name: Some(String::new()), arguments: Some("z".to_string()) }]);
    assert_eq!(state.content, "ab");
    assert_eq!(state.tool_parts.len(), 1);
    assert_eq!(state.tool_parts[0].id, "id");
    assert_eq!(state.tool_parts[0].name, "n");
    assert_eq!(state.tool_parts[0].arguments, "z");
}

fn runtime_with(headers: Vec<(&str, &str)>, api_key: Option<&str>) -> HttpOpenAiCompatRuntime {
    let mut settings = Settings::defaults();
    settings.openai_compat.base_url = " http://127.0.0.1:9/ ".to_string();
    settings.openai_compat.api_key = api_key.map(|s| s.to_string());
    settings.openai_compat.headers = headers.into_iter().map(|(k, v)| (k.to_string(), v.to_string())).collect();
    HttpOpenAiCompatRuntime::from_config(&settings).expect("runtime")
}

#[test]
fn api_key_skipped_when_authorization_header_configured() {
    let rt = runtime_with(vec![("Authorization", "Custom scheme")], Some("should-not-apply"));
    let headers = rt.request_headers();
    let auth: Vec<&(String, String)> =
        headers.iter().filter(|(k, _)| k.eq_ignore_ascii_case("authorization")).collect();
    assert_eq!(auth.len(), 1);
    assert_eq!(auth[0].1, "Custom scheme");
}

#[test]
fn runtime_from_config_defaults_and_bearer_key() {
    let rt = runtime_with(vec![("X-Api-Key", "t")], Some("  k1 "));
    assert_eq!(rt.chat_completions_url, "http://127.0.0.1:9/v1/chat/completions");
    assert_eq!(rt.model, "gpt-4o-mini");
    assert_eq!(rt.timeout_secs, 120);
    assert_eq!(
        rt.request_headers(),
        vec![
            ("X-Api-Key".to_string(), "t".to_string()),
            ("authorization".to_string(), "Bearer k1".to_string()),
            ("content-type".to_string(), "application/json".to_string()),
        ]
    );
    let err = HttpOpenAiCompatRuntime::from_config(&Settings::defaults()).unwrap_err();
    assert_eq!(err, "HTTP inference requires inference.openai_compat.base_url (see docs/CONFIGURATION.md)");
}

#[test]
fn request_body_is_compact_json_with_wire_tool_names() {
    let messages = vec![HttpChatMessage { role: "user".to_string(), content: "say \"hi\"".to_string() }];
    let tools = vec![HttpToolSpec {
        name: "fs.read".to_string(),
        description: "read".to_string(),
        parameters_json: "{ \"type\": \"object\" }".to_string(),
    }];
    let body = completion_request_body(&messages, &tools, "m", true);
    assert_eq!(
        body,
        r#"{"messages":[{"content":"say \"hi\"","role":"user"}],"model":"m","stream":true,"tool_choice":"auto","tools":[{"function":{"description":"read","name":"fs_read","parameters":{"type":"object"}},"type":"function"}]}"#
    );
    let parsed: serde_json::Value = serde_json::from_str(&body).unwrap();
    assert_eq!(parsed["tools"][0]["function"]["name"], "fs_read");
    let plain = completion_request_body(&messages, &tools, "m", false);
    assert_eq!(plain, r#"{"messages":[{"content":"say \"hi\"","role":"user"}],"model":"m","stream":true}"#);
    let bad = vec![HttpToolSpec { name: "t".to_string(), description: String::new(), parameters_json: "nope".to_string() }];
    let body = completion_request_body(&Vec::new(), &bad, "m", true);
    assert!(body.contains(r#""parameters":{"properties":{},"type":"object"}"#));
}

#[test]
fn completion_outcomes_follow_status_and_tools() {
    let fallback = status_failure(404, "404 Not Found", "nope", true).unwrap();
    assert_eq!(fallback.protocol, InferenceProtocol::InterimFallback);
    assert_eq!(fallback.error.as_deref(), Some("native_tools_unsupported: http status=404 Not Found body=nope"));
    let err = status_failure(500, "500 Internal Server Error", "x", true).unwrap_err();
    assert_eq!(err.code, RpcCode::Unavailable);
    assert_eq!(err.message, "http inference failed: status=500 Internal Server Error body=x");
    assert_eq!(timeout_status(120).message, "http inference timed out after 120s (adjust inference.openai_compat.timeout_secs)");

    let rt = runtime_with(vec![], None);
    let tools = vec![HttpToolSpec { name: "fs.read".to_string(), description: String::new(), parameters_json: "{}".to_string() }];
    let req = rt.prepare_completion(&Vec::new(), &tools, "", true);
    assert!(req.native);
    let mut state = SseAssemblyState::new();
    state.ingest_line(r#"data: {"choices":[{"delta":{"tool_calls":[{"index":0,"id":"c","function":{"name":"fs_read","arguments":"{}"}}]}}]}"#);
    let result = finish_completion(&state, &req);
    assert_eq!(result.tool_calls[0].name, "fs.read");
    assert_eq!(result.protocol, InferenceProtocol::Native);
}

fn completion(content: &str, calls: usize, protocol: InferenceProtocol) -> BrokerCompletionResult {
    BrokerCompletionResult {
        content: content.to_string(),
        tool_calls: (0..calls)
            .map(|i| HttpToolCall { id: format!("c{i}"), name: "fs.read".to_string(), arguments_json: "{}".to_string() })
            .collect(),
        protocol,
        error: None,
    }
}

#[test]
fn broker_inference_falls_back_when_native_tools_unused() {
    let r = finish_broker_inference(completion("", 0, InferenceProtocol::Native), true, true);
    assert_eq!(r.protocol, InferenceProtocol::InterimFallback);
    assert_eq!(r.error.as_deref(), Some("native_tools_unsupported: provider returned no tool_calls or content"));
    let r = finish_broker_inference(completion("prose", 0, InferenceProtocol::Native), true, true);
    assert_eq!(r.content, "prose");
    assert_eq!(r.error.as_deref(), Some("native_tools_unsupported: provider returned prose-only after tools sent"));
    let r = finish_broker_inference(completion("", 1, InferenceProtocol::Interim), true, true);
    assert_eq!(r.protocol, InferenceProtocol::Native);
    let r = finish_broker_inference(completion("x", 0, InferenceProtocol::Interim), true, false);
    assert_eq!(r.protocol, InferenceProtocol::Interim);
    assert!(r.error.is_none());

    let resp = map_completion_to_response(completion("text", 1, InferenceProtocol::Native));
    assert!(resp.ok);
    assert_eq!(resp.text, "");
    assert_eq!(resp.content, "text");
    assert_eq!(resp.tool_calls.len(), 1);
}

#[test]
fn attach_tools_needs_probe_support_for_ollama_auto() {
    let ollama = "http://127.0.0.1:11434/v1";
    assert!(needs_capability_probe(true, 1, NativeToolsMode::Auto, ollama));
    assert!(!needs_capability_probe(true, 1, NativeToolsMode::True, ollama));
    assert!(!decide_attach_tools(true, 1, NativeToolsMode::Auto, RuntimeKind::HttpOpenAiCompat, ollama, false));
    assert!(decide_attach_tools(true, 1, NativeToolsMode::Auto, RuntimeKind::HttpOpenAiCompat, ollama, true));
    assert!(decide_attach_tools(true, 1, NativeToolsMode::True, RuntimeKind::HttpOpenAiCompat, "http://h/v1", false));
    assert!(!decide_attach_tools(true, 1, NativeToolsMode::False, RuntimeKind::HttpOpenAiCompat, "http://h/v1", true));
    assert!(!decide_attach_tools(true, 1, NativeToolsMode::True, RuntimeKind::CursorCli, "http://h/v1", true));
}

#[test]
fn completion_text_and_chunks() {
    let err = completion_text(completion("  ", 0, InferenceProtocol::Interim)).unwrap_err();
    assert_eq!(err.message, "http inference returned empty completion");
    assert_eq!(completion_text(completion("hello stub", 0, InferenceProtocol::Interim)).unwrap(), "hello stub");
    let chunks = completion_chunks(Ok("hello stub".to_string()));
    assert_eq!(chunks.len(), 3);
    assert!(chunks.last().unwrap().as_ref().unwrap().done);
    let failed = completion_chunks(Err(RpcStatus { code: RpcCode::Unavailable, message: "x".to_string() }));
    assert_eq!(failed.len(), 1);
    assert!(failed[0].is_err());
}

#[test]
fn detects_tools_capability() {
    let body = r#"{"capabilities":["completion","tools","embeddings"]}"#;
    assert!(show_response_supports_tools(body));
    assert!(!show_response_supports_tools(r#"{"capabilities":["completion"]}"#));
}

#[test]
fn missing_endpoint_logs_degraded_without_panic() {
    let plan = otlp_export_plan("", "", "", "rex-daemon");
    assert_eq!(plan.unwrap_err(), "missing_endpoint");
    let plan = otlp_export_plan(" http://c:4318 ", "HTTP/protobuf", " ", "rex-daemon").unwrap();
    assert_eq!(plan.endpoint, "http://c:4318");
    assert_eq!(plan.transport, OtlpTransport::HttpProtobuf);
    assert_eq!(plan.service_name, "rex-daemon");
    assert_eq!(plan.export_interval_secs, 5);
}

fn record() -> StreamEconomicsRecord {
    StreamEconomicsRecord {
        snapshot_id: "snap".to_string(),
        request_id: 1,
        trace_id: "trace-1".to_string(),
        turn_id: String::new(),
        terminal: "done".to_string(),
        route: "sidecar+mock".to_string(),
        cache_decision: "miss_stored".to_string(),
        decision_id: "dec-1".to_string(),
        inference_runtime: "mock".to_string(),
        mode: "ask".to_string(),
        model: "gpt-4o-mini".to_string(),
        elapsed_ms: 42,
        chunks_sent: 2,
        prompt_tokens: 10,
        context_tokens: 5,
        context_candidates: 3,
        context_selected: 1,
        context_truncated: false,
        retrieval: "ran".to_string(),
        compression_strategy: "none".to_string(),
        cached_tokens: Some(4),
        prefix_hash: None,
        parse_retries: None,
    }
}

#[test]
fn stream_metric_points_cover_every_instrument_in_order() {
    let mut ctx = TerminalOtlpContext::default();
    ctx.ttft_ms = Some(7);
    ctx.approval_outcome = Some("allow".to_string());
    let points = stream_metric_points(&record(), &ctx);
    let kinds: Vec<MetricInstrument> = points.iter().map(|p| p.instrument).collect();
    assert_eq!(
        kinds,
        vec![
            MetricInstrument::StreamRequests,
            MetricInstrument::StreamDuration,
            MetricInstrument::CacheDecisions,
            MetricInstrument::PromptTokens,
            MetricInstrument::ContextTokens,
            MetricInstrument::OperationDuration,
            MetricInstrument::TokenUsage,
            MetricInstrument::TokenUsage,
            MetricInstrument::TimeToFirstChunk,
            MetricInstrument::RetrievalDuration,
            MetricInstrument::CompressionRatio,
            MetricInstrument::ApprovalDecisions,
            MetricInstrument::TokenUsage,
        ]
    );
    assert_eq!(points[7].value, MetricValue::Count(64));
    assert_eq!(points[9].value, MetricValue::Count(6));
    assert_eq!(points[10].value, MetricValue::Ratio(5, 10));
    assert_eq!(points[12].attributes[0], ("gen_ai.token.type".to_string(), "cached_input".to_string()));
    assert_eq!(points[5].attributes[2], ("error.type".to_string(), String::new()));
    assert_eq!(MetricInstrument::TimeToFirstChunk.spec().0, "gen_ai.client.operation.time_to_first_chunk");
}

fn context_request(prompt: String) -> ContextRequest {
    ContextRequest {
        prompt,
        diagnostics_hint: None,
        cache_bypass: true,
        behavior_snapshot: BehaviorSnapshot::default(),
        retrieve_off: true,
        active_file_path: None,
        harness_session_id: String::new(),
    }
}

#[test]
fn token_budget_from_config_overrides_defaults() {
    let mut settings = Settings::defaults();
    settings.max_prompt_tokens = 64;
    let budget = TokenBudget::from_config(&settings);
    assert_eq!(budget.max_prompt_tokens, 64);
}

#[test]
fn prompt_budget_truncates_when_config_limits_tokens() {
    let mut settings = Settings::defaults();
    settings.max_prompt_tokens = 4;
    let mut pipeline = ContextPipeline::with_indexer(LexicalWorkspaceIndexer::default_seeded(), &settings);
    let long = "a".repeat(200);
    let sources = ContextSources {
        context_paths: Vec::new(),
        context_paths_budget: 0,
        advisory_paths_count: 0,
        advisory: Vec::new(),
        knowledge: KnowledgeResult { text: String::new(), tokens: 0, status: "off" },
    };
    let result = pipeline.prepare(
        &context_request(long),
        AdapterCapabilities::for_runtime(RuntimeKind::Mock),
        &settings,
        &sources,
        0,
    );
    assert!(result.effective_prompt.chars().count() <= 16);
}

#[test]
fn route_follows_config_inference_runtime() {
    let mut settings = Settings::defaults();
    settings.inference_runtime = "mock".to_string();
    let decision = decide_route("ask", "", &settings);
    assert_eq!(decision.runtime, RuntimeKind::Mock);
    assert_eq!(decision.label, "mock");
}

#[test]
fn runtime_kind_reads_http_setting() {
    assert_eq!(RuntimeKind::from_setting(" HTTP-OpenAI-Compat "), RuntimeKind::HttpOpenAiCompat);
    assert_eq!(RuntimeKind::HttpOpenAiCompat.log_label(), "http-openai-compat");
}

#[test]
fn stream_chunks_end_with_done_marker() {
    let chunks = MockInferenceRuntime.build_chunks("ping");
    assert!(chunks.len() >= 3);
    let first = chunks[0].as_ref().expect("first chunk should be ok");
    assert!(!first.done);
    assert!(!first.text.is_empty());
    for (index, chunk) in chunks.iter().enumerate() {
        let chunk = chunk.as_ref().expect("chunk should be ok");
        assert_eq!(chunk.index, index as u64);
        if index < chunks.len() - 1 {
            assert!(!chunk.done);
            assert!(!chunk.text.is_empty());
        }
    }
    let last = chunks[chunks.len() - 1].as_ref().expect("last chunk should be ok");
    assert!(last.done);
    assert_eq!(last.text, "");
}

#[test]
fn stream_response_fields_are_plain() {
    let r = StreamInferenceResponse::plain("x".to_string(), 3, true);
    assert_eq!((r.text.as_str(), r.index, r.done), ("x", 3, true));
}
