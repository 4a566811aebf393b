use rex_daemon::adapters::{RuntimeKind, StreamInferenceResponse};
use rex_daemon::domain::ACTIVE_MODEL_ID;
use rex_daemon::l1_cache::{
    l1_cachable_responses, normalize_mode, normalize_prompt_for_l1, workspace_fingerprint,
    L1Key, L1ResponseCache,
};
use rex_daemon::policy::{decide, CacheDecision, CacheDecisionState, NullL2, PolicyRequest, ResponseCache, UncacheableReason};

fn req<'a>(runtime: RuntimeKind, mode: &'a str, cache_bypass: bool) -> PolicyRequest<'a> {
    PolicyRequest { runtime, model: "", mode, effective_prompt: "ping", cache_bypass, workspace: None }
}

#[test]
fn normalize_mode_defaults_empty_to_ask() {
    assert_eq!(normalize_mode(""), "ask");
    assert_eq!(normalize_mode("  ASK  "), "ask");
}

#[test]
fn ask_mode_creates_key() {
    let k = L1Key::try_new(RuntimeKind::Mock, "", "ask", "hello", false, None).expect("ask should cache under L1");
    assert_eq!(k.model, ACTIVE_MODEL_ID);
    assert_eq!(k.mode, "ask");
    assert_eq!(k.adapter, "mock");
    assert_eq!(k.workspace, "default");
}

#[test]
fn agent_mode_skips_l1() {
    assert!(L1Key::try_new(RuntimeKind::Mock, "", "agent", "x", false, None).is_none());
}

#[test]
fn cache_bypass_skips() {
    assert!(L1Key::try_new(RuntimeKind::Mock, "", "ask", "x", true, None).is_none());
}

#[test]
fn key_hash_ignores_line_ending_and_trailing_space_differences() {
    assert_eq!(normalize_prompt_for_l1("  a  \r\nb \n\n"), "a\nb");
    let a = L1Key::try_new(RuntimeKind::CursorCli, " m ", "ask", "a\r\nb", false, Some(" /w ")).expect("key");
    let b = L1Key::try_new(RuntimeKind::CursorCli, "m", "ASK", "a  \nb", false, Some("/w")).expect("key");
    assert_eq!(a, b);
    assert_eq!(a.adapter, "cursor-cli");
    assert_eq!(a.workspace, "/w");
    assert_eq!(workspace_fingerprint(Some("  ")), "default");
}

#[test]
fn cachable_responses_require_done() {
    let a = vec![Ok(StreamInferenceResponse::plain("a".to_string(), 0, false))];
    assert!(l1_cachable_responses(&a).is_none());
    let b = vec![
        Ok(StreamInferenceResponse::plain("a".to_string(), 0, false)),
        Ok(StreamInferenceResponse::plain(String::new(), 1, true)),
    ];
    assert_eq!(l1_cachable_responses(&b).expect("cachable").len(), 2);
    assert!(l1_cachable_responses(&Vec::new()).is_none());
}

#[test]
fn l1_put_get_round_trip() {
    let mut cache = L1ResponseCache::new();
    let key = L1Key::try_new(RuntimeKind::Mock, "", "ask", "ping", false, None).expect("key");
    assert!(cache.get(&key).is_none());
    let v = vec![
        StreamInferenceResponse::plain("x".to_string(), 0, false),
        StreamInferenceResponse::plain(String::new(), 1, true),
    ];
    cache.put(key.clone(), v.clone());
    assert_eq!(cache.get(&key), Some(v));
}

#[test]
fn ask_mode_resolves_to_lookup_for_each_runtime() {
    for runtime in [RuntimeKind::Mock, RuntimeKind::CursorCli] {
        let decision = decide(&req(runtime, "ask", false));
        match decision {
            CacheDecision::Lookup(_) => {}
            other => panic!("expected Lookup for ask/{runtime:?}, got {other:?}"),
        }
    }
}

#[test]
fn bypass_overrides_mode() {
    for mode in ["ask", "plan", "agent", "AGENT", " ask "] {
        assert_eq!(
            decide(&req(RuntimeKind::Mock, mode, true)),
            CacheDecision::Bypass,
            "bypass should win regardless of mode={mode}"
        );
    }
}

#[test]
fn non_ask_modes_are_uncacheable() {
    for mode in ["plan", "agent", "PLAN", "  AGENT  ", "unknown"] {
        assert_eq!(
            decide(&req(RuntimeKind::Mock, mode, false)),
            CacheDecision::Uncacheable { reason: UncacheableReason::NonAskMode },
            "expected NonAskMode for mode={mode}"
        );
    }
}

#[test]
fn empty_mode_normalizes_to_ask_and_caches() {
    assert!(matches!(decide(&req(RuntimeKind::Mock, "", false)), CacheDecision::Lookup(_)));
}

#[test]
fn cache_decision_state_labels_match_docs_caching() {
    assert_eq!(CacheDecisionState::Hit.label(), "hit");
    assert_eq!(CacheDecisionState::MissStored.label(), "miss_stored");
    assert_eq!(CacheDecisionState::Bypass.label(), "bypass");
    assert_eq!(CacheDecisionState::UncacheableMode.label(), "uncacheable_mode");
}

#[test]
fn cache_decision_state_maps_each_decision_branch() {
    let lookup_key = match decide(&req(RuntimeKind::Mock, "ask", false)) {
        CacheDecision::Lookup(k) => k,
        other => panic!("expected Lookup, got {other:?}"),
    };
    let lookup = CacheDecision::Lookup(lookup_key);
    assert_eq!(CacheDecisionState::from_outcome(&lookup, true), CacheDecisionState::Hit);
    assert_eq!(CacheDecisionState::from_outcome(&lookup, false), CacheDecisionState::MissStored);
    assert_eq!(CacheDecisionState::from_outcome(&CacheDecision::Bypass, false), CacheDecisionState::Bypass);
    assert_eq!(
        CacheDecisionState::from_outcome(
            &CacheDecision::Uncacheable { reason: UncacheableReason::NonAskMode },
            false,
        ),
        CacheDecisionState::UncacheableMode
    );
}

#[test]
fn null_l2_always_misses_and_swallows_puts() {
    let mut l2 = NullL2;
    let key = match decide(&req(RuntimeKind::Mock, "ask", false)) {
        CacheDecision::Lookup(k) => k,
        other => panic!("expected Lookup, got {other:?}"),
    };
    assert!(l2.get(&key).is_none());
    l2.put(key.clone(), vec![]);
    assert!(l2.get(&key).is_none(), "null L2 must remain a miss even after put");
}

#[test]
fn l1_full_cache_evicts_the_least_recently_used() {
    let mut cache = L1ResponseCache::new();
    let key = |i: usize| L1Key::try_new(RuntimeKind::Mock, "", "ask", &format!("prompt {i}"), false, None).expect("key");
    let value = |i: usize| vec![StreamInferenceResponse::plain(format!("v{i}"), 0, true)];
    for i in 0..256 {
        cache.put(key(i), value(i));
    }
    assert_eq!(cache.get(&key(0)), Some(value(0)));
    cache.put(key(256), value(256));
    assert_eq!(cache.get(&key(1)), None, "the least recently used entry leaves");
    assert_eq!(cache.get(&key(0)), Some(value(0)), "a read keeps an entry fresh");
    assert_eq!(cache.get(&key(256)), Some(value(256)));
    assert_eq!(cache.get(&key(2)), Some(value(2)));
}
