use std::sync::{Arc, Mutex};

use rex_daemon::adapters::{stream_chunks_with_done, RpcCode, StreamInferenceResponse};
use rex_daemon::approvals::{AlwaysAllow, ApprovalContext, ApprovalDecision, ApprovalGate};
use rex_daemon::domain::{build_mock_output, chunk_output};
use rex_daemon::knowledge::KnowledgeResult;
use rex_daemon::l1_cache::L1Key;
use rex_daemon::plugins::{ContextPipeline, ContextSources, LexicalWorkspaceIndexer};
use rex_daemon::policy::{PolicyEngine, ResponseCache};
use rex_daemon::service::{ChunkSource, StreamRequest, StreamService};
use rex_daemon::settings::Settings;

/// Records the order of cache calls and always misses.
struct OrderingCache {
    events: Arc<Mutex<Vec<String>>>,
}

impl ResponseCache for OrderingCache {
    fn get(&mut self, key: &L1Key) -> Option<Vec<StreamInferenceResponse>> {
        self.events.lock().expect("mutex").push(format!("get:{}", key.mode));
        None
    }

    fn put(&mut self, key: L1Key, _value: Vec<StreamInferenceResponse>) {
        self.events.lock().expect("mutex").push(format!("put:{}", key.mode));
    }
}

/// Counts its calls and answers with a fixed decision.
struct RecordingGate {
    calls: Arc<Mutex<usize>>,
    decision: ApprovalDecision,
}

impl ApprovalGate for RecordingGate {
    fn check(&self, _ctx: &ApprovalContext) -> ApprovalDecision {
        *self.calls.lock().expect("mutex") += 1;
        self.decision.clone()
    }
}

fn stream_settings() -> Settings {
    let mut s = Settings::defaults();
    s.workspace_root = Some("/tmp/rex-stream-test".to_string());
    s
}

fn no_sources() -> ContextSources {
    ContextSources {
        context_paths: Vec::new(),
        context_paths_budget: 0,
        advisory_paths_count: 0,
        advisory: Vec::new(),
        knowledge: KnowledgeResult { text: String::new(), tokens: 0, status: "off" },
    }
}

fn request(prompt: &str, mode: &str) -> StreamRequest {
    StreamRequest {
        prompt: prompt.to_string(),
        model: String::new(),
        mode: mode.to_string(),
        approval_id: String::new(),
        client_hints: None,
        harness_session_id: String::new(),
        trace_header: None,
    }
}

fn service<G: ApprovalGate>(gate: G, events: Arc<Mutex<Vec<String>>>, settings: &Settings) -> StreamService<G, OrderingCache> {
    StreamService {
        pipeline: ContextPipeline::with_indexer(LexicalWorkspaceIndexer::default_seeded(), settings),
        next_request_id: 0,
        policy_engine: PolicyEngine::new(OrderingCache { events }),
        gate,
        sidecar_enabled: false,
    }
}

#[test]
fn ask_stream_looks_up_the_cache_then_stores_the_runtime_result() {
    let settings = stream_settings();
    let events = Arc::new(Mutex::new(Vec::new()));
    let calls = Arc::new(Mutex::new(0));
    let gate = RecordingGate { calls: calls.clone(), decision: ApprovalDecision::Allow };
    let mut svc = service(gate, events.clone(), &settings);
    let setup = svc.begin_stream(&request("hello cache", "ask"), &settings, &no_sources(), 0).expect("stream starts");
    assert!(matches!(setup.source, ChunkSource::Runtime { store_under: Some(_) }));
    let built = stream_chunks_with_done(chunk_output(&build_mock_output(&setup.pipeline.effective_prompt), 16));
    assert!(built.iter().all(|r| r.is_ok()));
    assert!(built.last().unwrap().as_ref().unwrap().done);
    svc.store_built(&setup, &built);
    assert_eq!(*events.lock().unwrap(), vec!["get:ask".to_string(), "put:ask".to_string()]);
    assert_eq!(*calls.lock().unwrap(), 0, "ask mode never consults the approval gate");
}

#[test]
fn agent_and_bypass_streams_leave_the_cache_alone() {
    let settings = stream_settings();
    let events = Arc::new(Mutex::new(Vec::new()));
    let calls = Arc::new(Mutex::new(0));
    let gate = RecordingGate { calls: calls.clone(), decision: ApprovalDecision::Allow };
    let mut svc = service(gate, events.clone(), &settings);
    let setup = svc.begin_stream(&request("skip-me", "agent"), &settings, &no_sources(), 0).expect("gate allows");
    assert_eq!(setup.approval_outcome.as_deref(), Some("allow"));
    svc.store_built(&setup, &stream_chunks_with_done(vec!["x".to_string()]));
    assert_eq!(*calls.lock().unwrap(), 1);
    svc.begin_stream(&request("[[cache:bypass]]\nhello", "ask"), &settings, &no_sources(), 0).expect("stream starts");
    assert!(events.lock().unwrap().is_empty(), "agent mode and bypass must not touch the cache");
}

#[test]
fn gate_denial_and_checkpoint_stop_an_agent_stream() {
    let settings = stream_settings();
    let events = Arc::new(Mutex::new(Vec::new()));
    let deny = RecordingGate {
        calls: Arc::new(Mutex::new(0)),
        decision: ApprovalDecision::Deny { reason: "manual approval required".to_string() },
    };
    let mut svc = service(deny, events.clone(), &settings);
    let err = svc.begin_stream(&request("agent path", "agent"), &settings, &no_sources(), 0).err().expect("denied");
    assert_eq!(err.code, RpcCode::FailedPrecondition);
    assert_eq!(err.message, "agent execution denied by approval gate: manual approval required");
    let checkpoint = RecordingGate {
        calls: Arc::new(Mutex::new(0)),
        decision: ApprovalDecision::Checkpoint { reason: "needs review".to_string() },
    };
    let mut svc = service(checkpoint, events.clone(), &settings);
    let err = svc.begin_stream(&request("agent path", "agent"), &settings, &no_sources(), 0).err().expect("blocked");
    assert!(err.message.contains("checkpoint required"));
    let mut svc = service(AlwaysAllow, events.clone(), &settings);
    assert!(svc.begin_stream(&request("agent path", "agent"), &settings, &no_sources(), 0).is_ok());
}
