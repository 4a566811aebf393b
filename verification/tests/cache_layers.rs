use std::sync::{Arc, Mutex};

use rex_daemon::adapters::{RuntimeKind, StreamInferenceResponse};
use rex_daemon::l1_cache::L1Key;
use rex_daemon::policy::{decide, CacheDecision, LayeredCache, PolicyEngine, PolicyRequest, ResponseCache};

fn req<'a>(runtime: RuntimeKind, mode: &'a str, cache_bypass: bool) -> PolicyRequest<'a> {
    PolicyRequest { runtime, model: "", mode, effective_prompt: "ping", cache_bypass, workspace: None }
}

fn lookup_key() -> L1Key {
    match decide(&req(RuntimeKind::Mock, "ask", false)) {
        CacheDecision::Lookup(k) => k,
        other => panic!("expected Lookup, got {other:?}"),
    }
}

/// Records every cache access so a test can see whether the cache was touched.
#[derive(Default)]
struct RecordingCache {
    events: Arc<Mutex<Vec<String>>>,
}

impl ResponseCache for RecordingCache {
    fn get(&mut self, key: &L1Key) -> Option<Vec<StreamInferenceResponse>> {
        self.events.lock().expect("recording cache mutex").push(format!("get:{}:{}", key.adapter, key.mode));
        None
    }

    fn put(&mut self, key: L1Key, _value: Vec<StreamInferenceResponse>) {
        self.events.lock().expect("recording cache mutex").push(format!("put:{}:{}", key.adapter, key.mode));
    }
}

#[test]
fn decide_does_not_touch_cache() {
    let events = Arc::new(Mutex::new(Vec::new()));
    let engine = PolicyEngine::new(RecordingCache { events: events.clone() });
    let _ = engine.decide(&req(RuntimeKind::Mock, "ask", false));
    let _ = engine.decide(&req(RuntimeKind::Mock, "agent", false));
    let _ = engine.decide(&req(RuntimeKind::Mock, "ask", true));
    assert!(events.lock().expect("mutex").is_empty(), "decide must be pure: no cache I/O permitted");
}

#[test]
fn engine_routes_get_put_to_underlying_cache() {
    let events = Arc::new(Mutex::new(Vec::new()));
    let mut engine = PolicyEngine::new(RecordingCache { events: events.clone() });
    let key = match engine.decide(&req(RuntimeKind::Mock, "ask", false)) {
        CacheDecision::Lookup(k) => k,
        other => panic!("expected Lookup, got {other:?}"),
    };
    assert!(engine.get(&key).is_none());
    engine.put(key.clone(), vec![]);
    let events = events.lock().expect("mutex").clone();
    assert_eq!(events, vec!["get:mock:ask".to_string(), "put:mock:ask".to_string()]);
}

/// Records layer accesses under a tag, and answers reads with a primed value.
struct TaggedRecorder {
    tag: &'static str,
    shared: Arc<Mutex<Vec<String>>>,
    respond_with: Option<Vec<StreamInferenceResponse>>,
}

impl TaggedRecorder {
    fn new(tag: &'static str, shared: Arc<Mutex<Vec<String>>>) -> Self {
        Self { tag, shared, respond_with: None }
    }

    fn primed(tag: &'static str, shared: Arc<Mutex<Vec<String>>>, value: Vec<StreamInferenceResponse>) -> Self {
        Self { tag, shared, respond_with: Some(value) }
    }
}

impl ResponseCache for TaggedRecorder {
    fn get(&mut self, _key: &L1Key) -> Option<Vec<StreamInferenceResponse>> {
        self.shared.lock().expect("tagged recorder mutex").push(format!("{}.get", self.tag));
        self.respond_with.clone()
    }

    fn put(&mut self, _key: L1Key, _value: Vec<StreamInferenceResponse>) {
        self.shared.lock().expect("tagged recorder mutex").push(format!("{}.put", self.tag));
    }
}

fn done_chunk(text: &str) -> StreamInferenceResponse {
    StreamInferenceResponse::plain(text.to_string(), 0, true)
}

#[test]
fn layered_get_walks_layers_in_order_and_returns_first_hit() {
    let key = lookup_key();
    let events = Arc::new(Mutex::new(Vec::<String>::new()));
    let primed = vec![done_chunk("")];
    let mut layered = LayeredCache::new(vec![
        TaggedRecorder::new("l1", events.clone()),
        TaggedRecorder::primed("l2", events.clone(), primed.clone()),
    ]);
    assert_eq!(layered.get(&key), Some(primed));
    let log = events.lock().expect("events mutex").clone();
    assert_eq!(log, vec!["l1.get".to_string(), "l2.get".to_string()]);
}

#[test]
fn layered_get_short_circuits_on_first_hit() {
    let key = lookup_key();
    let events = Arc::new(Mutex::new(Vec::<String>::new()));
    let primed = vec![done_chunk("")];
    let mut layered = LayeredCache::new(vec![
        TaggedRecorder::primed("l1", events.clone(), primed.clone()),
        TaggedRecorder::new("l2", events.clone()),
    ]);
    assert_eq!(layered.get(&key), Some(primed));
    let log = events.lock().expect("events mutex").clone();
    assert_eq!(log, vec!["l1.get".to_string()], "L1 hit must skip L2");
}

#[test]
fn layered_put_writes_through_every_layer_in_order() {
    let key = lookup_key();
    let events = Arc::new(Mutex::new(Vec::<String>::new()));
    let mut layered = LayeredCache::new(vec![
        TaggedRecorder::new("l1", events.clone()),
        TaggedRecorder::new("l2", events.clone()),
    ]);
    layered.put(key, vec![]);
    let log = events.lock().expect("events mutex").clone();
    assert_eq!(log, vec!["l1.put".to_string(), "l2.put".to_string()]);
}

#[test]
fn default_l1_l2_stack_serves_misses_and_round_trips_through_l1() {
    let mut stack = LayeredCache::default_l1_l2();
    let key = lookup_key();
    assert!(stack.get(&key).is_none(), "fresh stack must miss");
    let payload = vec![done_chunk("x")];
    stack.put(key.clone(), payload.clone());
    assert_eq!(stack.get(&key), Some(payload));
}

#[test]
fn default_engine_round_trips() {
    let mut engine = PolicyEngine::with_default_layers();
    let key = lookup_key();
    assert!(engine.get(&key).is_none());
    engine.put(key.clone(), vec![done_chunk("y")]);
    assert_eq!(engine.get(&key).map(|v| v.len()), Some(1));
}
