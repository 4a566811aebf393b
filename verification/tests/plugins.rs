use rex_daemon::adapters::{AdapterCapabilities, RuntimeKind};
use rex_daemon::knowledge::KnowledgeResult;
use rex_daemon::plugins::{
    apply_prompt_budget, boost_active_file_candidate, build_injected_files_manifest,
    estimate_tokens, join_prompt_and_context, load_path_bundle, normalized_terms,
    score_terms, should_skip_retrieval, stable_prefix_key, BehaviorDecision, BehaviorSnapshot,
    BehavioralPrefilter, CacheStatus, ContextChunk, ContextPathSource, ContextPipeline,
    ContextRequest, ContextSources, ExactPrefixCache, ExtractiveContextCompressor,
    LexicalWorkspaceIndexer, RetrievalDecision, TokenBudget,
};
use rex_daemon::settings::Settings;

fn test_pipeline(settings: &Settings) -> ContextPipeline {
    ContextPipeline::with_indexer(LexicalWorkspaceIndexer::default_seeded(), settings)
}

fn no_sources() -> ContextSources {
    ContextSources {
        context_paths: Vec::new(),
        context_paths_budget: 0,
        advisory_paths_count: 0,
        advisory: Vec::new(),
        knowledge: KnowledgeResult { text: String::new(), tokens: 0, status: "off" },
    }
}

fn request(prompt: &str, cache_bypass: bool, retrieve_off: bool, session: &str) -> ContextRequest {
    ContextRequest {
        prompt: prompt.to_string(),
        diagnostics_hint: None,
        cache_bypass,
        behavior_snapshot: BehaviorSnapshot::default(),
        retrieve_off,
        active_file_path: None,
        harness_session_id: session.to_string(),
    }
}

const LONG_PROMPT: &str = "status stream retry integration tests daemon lifecycle";

#[test]
fn build_injected_files_manifest_includes_active_file_and_readme() {
    let manifest = build_injected_files_manifest(
        Some("src/main.rs"),
        "[context]\n<<tool_result:fs.read>> README.md\n# rex",
        &vec!["docs/AGENTS.md".to_string()],
    );
    assert_eq!(
        manifest,
        vec!["README.md".to_string(), "docs/AGENTS.md".to_string(), "src/main.rs".to_string()]
    );
}

#[test]
fn manifest_sorts_and_removes_repeats() {
    let manifest = build_injected_files_manifest(
        Some("  "),
        "nothing here",
        &vec!["b".to_string(), "a".to_string(), "b".to_string()],
    );
    assert_eq!(manifest, vec!["a".to_string(), "b".to_string()]);
}

#[test]
fn extractive_compressor_prefers_query_overlapping_lines() {
    let compressor = ExtractiveContextCompressor;
    let chunks = vec![
        ContextChunk { source: "low.rs".to_string(), text: "unrelated module documentation".to_string() },
        ContextChunk { source: "high.rs".to_string(), text: "socket retry daemon lifecycle".to_string() },
    ];
    let (packed, _, _) = compressor.compress("socket retry", &chunks, 512);
    let high_pos = packed.find("high.rs").expect("high.rs line");
    let low_pos = packed.find("low.rs").expect("low.rs line");
    assert!(high_pos < low_pos, "expected query-relevant chunk first: {packed}");
}

#[test]
fn compressor_stops_at_the_budget() {
    let compressor = ExtractiveContextCompressor;
    let chunks = vec![
        ContextChunk { source: "a".to_string(), text: "x".repeat(40) },
        ContextChunk { source: "b".to_string(), text: "y".to_string() },
    ];
    let (packed, used, truncated) = compressor.compress("zzz", &chunks, 5);
    assert_eq!(packed, "");
    assert_eq!(used, 0);
    assert!(truncated);
    let (packed, used, truncated) = compressor.compress("zzz", &chunks, 0);
    assert_eq!((packed.as_str(), used, truncated), ("", 0, true));
}

#[test]
fn lexical_index_returns_deterministic_ranked_results() {
    let index = LexicalWorkspaceIndexer::with_seed_docs(vec![
        ("b.rs".to_string(), "socket retry logic".to_string()),
        ("a.rs".to_string(), "socket retry logic".to_string()),
    ]);
    let hits = index.search("socket retry", 10);
    let ordered_sources = hits.into_iter().map(|chunk| chunk.source).collect::<Vec<_>>();
    assert_eq!(ordered_sources, vec!["a.rs".to_string(), "b.rs".to_string()]);
}

#[test]
fn lexical_index_ranks_by_overlap_and_drops_ignored_paths() {
    let index = LexicalWorkspaceIndexer::with_seed_docs(vec![
        ("one.rs".to_string(), "socket".to_string()),
        ("two.rs".to_string(), "socket retry".to_string()),
        ("target/x.rs".to_string(), "socket retry".to_string()),
        ("".to_string(), "socket retry".to_string()),
    ]);
    let hits = index.search("Socket-RETRY", 1);
    assert_eq!(hits, vec![ContextChunk { source: "two.rs".to_string(), text: "socket retry".to_string() }]);
    assert!(index.search("!!!", 5).is_empty());
    assert!(index.search("socket", 0).is_empty());
}

#[test]
fn terms_and_scores() {
    let q = normalized_terms("Socket_retry, TIMEOUT!");
    assert_eq!(q, vec!["socket_retry".chars().collect::<Vec<_>>(), "timeout".chars().collect::<Vec<_>>()]);
    let d = normalized_terms("timeout timeout other");
    assert_eq!(score_terms(&q, &d), 1);
    assert_eq!(estimate_tokens("abcde"), 2);
    assert_eq!(estimate_tokens(""), 0);
}

#[test]
fn should_skip_retrieval_false_for_short_advisory_prompt() {
    let settings = Settings::defaults();
    let req = request("What should we do next?", false, false, "");
    assert!(!should_skip_retrieval(&req, &settings));
}

#[test]
fn cache_key_uses_stable_prompt_prefix() {
    let a = stable_prefix_key("", "abcdef");
    let b = stable_prefix_key("", "abcdef and more");
    assert!(b.starts_with(&a));
}

#[test]
fn cache_key_is_scoped_by_session() {
    assert_eq!(stable_prefix_key(" s1 ", "p"), "s1:p");
    assert_eq!(stable_prefix_key("", &"x".repeat(200)).len(), 96);
}

#[test]
fn prefix_cache_expires_entries() {
    let mut cache = ExactPrefixCache::new(1_000);
    cache.put("k".to_string(), "v".to_string(), 10_000);
    assert_eq!(cache.get("k", 10_500), Some("v".to_string()));
    assert_eq!(cache.get("other", 10_500), None);
    assert_eq!(cache.get("k", 11_001), None);
}

#[test]
fn prefix_cache_isolated_by_harness_session() {
    let settings = Settings::defaults();
    let mut pipeline = test_pipeline(&settings);
    let caps = AdapterCapabilities::for_runtime(RuntimeKind::Mock);
    let sources = no_sources();
    let a = request(LONG_PROMPT, false, false, "session-a");
    let b = request(LONG_PROMPT, false, false, "session-b");
    assert_eq!(pipeline.prepare(&a, caps, &settings, &sources, 1_000).metrics.cache_status, CacheStatus::MissStored);
    assert_eq!(pipeline.prepare(&b, caps, &settings, &sources, 1_000).metrics.cache_status, CacheStatus::MissStored);
}

#[test]
fn pipeline_reports_cache_hit_after_first_request() {
    let settings = Settings::defaults();
    let mut pipeline = test_pipeline(&settings);
    let caps = AdapterCapabilities::for_runtime(RuntimeKind::Mock);
    let sources = no_sources();
    let req = request(LONG_PROMPT, false, false, "");
    let first = pipeline.prepare(&req, caps, &settings, &sources, 1_000);
    assert_eq!(first.metrics.cache_status, CacheStatus::MissStored);
    let second = pipeline.prepare(&req, caps, &settings, &sources, 2_000);
    assert_eq!(second.metrics.cache_status, CacheStatus::Hit);
    assert_eq!(second.injected_context, first.injected_context);
    let later = pipeline.prepare(&req, caps, &settings, &sources, 1_000 + 600_001);
    assert_eq!(later.metrics.cache_status, CacheStatus::MissStored);
}

#[test]
fn pipeline_can_bypass_cache() {
    let settings = Settings::defaults();
    let mut pipeline = test_pipeline(&settings);
    let req = request(LONG_PROMPT, true, false, "");
    let result = pipeline.prepare(&req, AdapterCapabilities::for_runtime(RuntimeKind::Mock), &settings, &no_sources(), 0);
    assert_eq!(result.metrics.cache_status, CacheStatus::Bypass);
}

#[test]
fn mock_profile_attaches_context_when_indexer_hits() {
    let settings = Settings::defaults();
    let mut pipeline = test_pipeline(&settings);
    let req = request(LONG_PROMPT, true, false, "");
    let result = pipeline.prepare(&req, AdapterCapabilities::for_runtime(RuntimeKind::Mock), &settings, &no_sources(), 0);
    assert!(result.effective_prompt.contains("[context]"));
    assert_eq!(result.metrics.retrieval, RetrievalDecision::Ran);
    assert_eq!(result.metrics.compression_strategy, "extractive_query");
}

#[test]
fn cursor_profile_skips_context_attachment() {
    let settings = Settings::defaults();
    let mut pipeline = test_pipeline(&settings);
    let req = request(LONG_PROMPT, true, false, "");
    let result = pipeline.prepare(&req, AdapterCapabilities::for_runtime(RuntimeKind::CursorCli), &settings, &no_sources(), 0);
    assert!(!result.effective_prompt.contains("[context]"));
}

#[test]
fn retrieval_skipped_for_short_prompt() {
    let settings = Settings::defaults();
    let mut pipeline = test_pipeline(&settings);
    let req = request("hi", true, false, "");
    let result = pipeline.prepare(&req, AdapterCapabilities::for_runtime(RuntimeKind::Mock), &settings, &no_sources(), 0);
    assert_eq!(result.metrics.retrieval, RetrievalDecision::Skipped);
    assert_eq!(result.metrics.context_candidates, 0);
}

#[test]
fn retrieval_off_directive_skips_indexer() {
    let settings = Settings::defaults();
    let mut pipeline = test_pipeline(&settings);
    let req = request("status stream retry integration tests", true, true, "");
    let result = pipeline.prepare(&req, AdapterCapabilities::for_runtime(RuntimeKind::Mock), &settings, &no_sources(), 0);
    assert_eq!(result.metrics.retrieval, RetrievalDecision::Skipped);
}

#[test]
fn c1_strip_removes_extension_trailer_before_retrieval() {
    let settings = Settings::defaults();
    let mut pipeline = test_pipeline(&settings);
    let prompt = "status stream retry integration tests daemon lifecycle\n\n---\nFile: src/main.rs\nLanguage: rust";
    let req = request(prompt, true, false, "");
    let result = pipeline.prepare(&req, AdapterCapabilities::for_runtime(RuntimeKind::Mock), &settings, &no_sources(), 0);
    assert!(result.c1_stripped);
    assert!(!result.effective_prompt.contains("File: src/main.rs"));
    assert_eq!(result.metrics.retrieval, RetrievalDecision::Ran);
}

#[test]
fn behavior_filter_can_suppress_when_user_is_in_focus_flow() {
    let settings = Settings::defaults();
    let mut pipeline = test_pipeline(&settings);
    let mut req = request("complete this helper", false, false, "");
    req.behavior_snapshot = BehaviorSnapshot { typing_cadence_cpm: 500, pause_events_last_minute: 0 };
    let result = pipeline.prepare(&req, AdapterCapabilities::for_runtime(RuntimeKind::Mock), &settings, &no_sources(), 0);
    assert!(matches!(result.metrics.behavior_decision, BehaviorDecision::Suppress { .. }));
    assert!(matches!(
        BehavioralPrefilter::evaluate(BehaviorSnapshot { typing_cadence_cpm: 500, pause_events_last_minute: 1 }),
        BehaviorDecision::Allow
    ));
}

#[test]
fn context_paths_and_knowledge_join_the_context() {
    let mut settings = Settings::defaults();
    settings.knowledge_enabled = true;
    let mut pipeline = test_pipeline(&settings);
    let sources = ContextSources {
        context_paths: vec![
            ContextPathSource { rel: "docs/A.md".to_string(), text: Some("alpha".to_string()), is_file: true },
            ContextPathSource { rel: "docs/missing.md".to_string(), text: None, is_file: false },
        ],
        context_paths_budget: 57,
        advisory_paths_count: 0,
        advisory: Vec::new(),
        knowledge: KnowledgeResult { text: "<<KNOWLEDGE:rex-docs-v1>>\n[k] v".to_string(), tokens: 9, status: "hit" },
    };
    let req = request("hi", true, false, "");
    let result = pipeline.prepare(&req, AdapterCapabilities::for_runtime(RuntimeKind::Mock), &settings, &sources, 0);
    assert_eq!(result.injected_context, "[docs/A.md] alpha\n<<KNOWLEDGE:rex-docs-v1>>\n[k] v");
    assert_eq!(result.injected_paths, vec!["docs/A.md".to_string()]);
    assert_eq!(result.metrics.compression_strategy, "context_paths");
    assert_eq!(result.metrics.knowledge_status, "hit");
    assert_eq!(result.metrics.context_selected, 3);
    assert_eq!(result.metrics.selected_context_tokens, 5 + 9);
}

#[test]
fn advisory_prompt_loads_the_bundle() {
    let settings = Settings::defaults();
    let mut pipeline = test_pipeline(&settings);
    let sources = ContextSources {
        context_paths: Vec::new(),
        context_paths_budget: 0,
        advisory_paths_count: 3,
        advisory: vec![("docs/ROADMAP.md".to_string(), Some("# Roadmap\nPriorities here.".to_string()))],
        knowledge: KnowledgeResult { text: String::new(), tokens: 0, status: "off" },
    };
    let req = request("What should we do next?", true, false, "");
    let result = pipeline.prepare(&req, AdapterCapabilities::for_runtime(RuntimeKind::Mock), &settings, &sources, 0);
    assert_eq!(result.metrics.retrieval, RetrievalDecision::AdvisoryBundle);
    assert_eq!(result.metrics.context_candidates, 3);
    assert!(result.injected_context.contains("Priorities here"));
}

#[test]
fn prompt_helpers() {
    assert_eq!(apply_prompt_budget(&"a".repeat(200), 4).len(), 16);
    assert_eq!(apply_prompt_budget("abc", usize::MAX), "abc");
    assert_eq!(join_prompt_and_context("p", ""), "p");
    assert_eq!(join_prompt_and_context("p", "c"), "p\n\n[context]\nc");
    let budget = TokenBudget::default();
    assert_eq!((budget.max_prompt_tokens, budget.max_context_tokens), (512, 192));
    let mut s = Settings::defaults();
    s.max_prompt_tokens = 0;
    s.max_context_tokens = 64;
    let b = TokenBudget::from_config(&s);
    assert_eq!((b.max_prompt_tokens, b.max_context_tokens), (1, 64));
}

#[test]
fn active_file_moves_to_the_front() {
    let mut c = vec![
        ContextChunk { source: "a.rs".to_string(), text: "1".to_string() },
        ContextChunk { source: "src/b.rs".to_string(), text: "2".to_string() },
    ];
    boost_active_file_candidate(&mut c, "C:\\repo\\src\\b.rs");
    assert_eq!(c[0].source, "src/b.rs");
    assert_eq!(c[1].source, "a.rs");
}

#[test]
fn path_bundle_skips_unreadable_files() {
    let sources = vec![
        ("a".to_string(), None),
        ("b".to_string(), Some("text".to_string())),
    ];
    assert_eq!(load_path_bundle(&sources, 100), ("[b] text".to_string(), 2, false));
    assert_eq!(load_path_bundle(&sources, 1), (String::new(), 0, true));
}
