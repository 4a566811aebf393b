use rex_daemon::advisory_intent::{context_has_priority_markers, matches_advisory_intent};
use rex_daemon::session_title::{sanitize_title, should_run_title_fallback, MAX_TITLE_LEN};
use rex_daemon::settings::Settings;
use rex_daemon::turn_correlation::{
    build_turn_correlation, compute_context_revision, issue_turn_id, strip_extension_context_blocks,
};

#[test]
fn matches_short_advisory_prompt() {
    assert!(matches_advisory_intent("What should we do next?"));
}

#[test]
fn skips_unrelated_short_prompt() {
    assert!(!matches_advisory_intent("hello"));
}

#[test]
fn advisory_intent_reads_roadmap_and_priorities() {
    assert!(matches_advisory_intent("Show me the ROADMAP"));
    assert!(matches_advisory_intent("what are the priorities"));
    assert!(context_has_priority_markers("## Current Focus\n- ship"));
    assert!(!context_has_priority_markers("plain notes"));
}

#[test]
fn sanitize_clamps_long_titles() {
    let long = "a".repeat(60);
    let out = sanitize_title(&long);
    assert!(out.len() <= MAX_TITLE_LEN + 3);
}

#[test]
fn fallback_cadence_every_n_completed_turns() {
    assert!(!should_run_title_fallback(0, 3));
    assert!(!should_run_title_fallback(1, 3));
    assert!(!should_run_title_fallback(2, 3));
    assert!(should_run_title_fallback(3, 3));
    assert!(should_run_title_fallback(6, 3));
}

#[test]
fn issue_turn_id_matches_request_id() {
    assert_eq!(issue_turn_id(7), "turn-7");
}

#[test]
fn context_revision_empty_when_no_context_stages() {
    let settings = Settings::defaults();
    assert!(compute_context_revision("", "skipped", "none", 0, false, &settings).is_empty());
}

#[test]
fn context_revision_is_a_stable_hex_digest() {
    let settings = Settings::defaults();
    let a = compute_context_revision("ctx", "ran", "extractive_query", 1, false, &settings);
    let b = compute_context_revision("ctx", "ran", "extractive_query", 1, false, &settings);
    assert_eq!(a, b);
    assert!(a.starts_with("ctx-"));
    assert_eq!(a.len(), 20);
    let t = build_turn_correlation(9, "ctx", "ran", "extractive_query", 1, false, &settings);
    assert_eq!(t.turn_id, "turn-9");
    assert_eq!(t.context_revision, a);
}

#[test]
fn strip_removes_extension_file_selection_trailer() {
    let prompt = "fix the bug\n\n---\nFile: src/main.rs\nLanguage: rust";
    let (stripped, applied) = strip_extension_context_blocks(prompt);
    assert!(applied);
    assert_eq!(stripped, "fix the bug");
}

#[test]
fn strip_keeps_prompts_without_a_file_trailer() {
    let (stripped, applied) = strip_extension_context_blocks("a\n---\nnot a file");
    assert!(!applied);
    assert_eq!(stripped, "a\n---\nnot a file");
}

#[test]
fn sanitizing_twice_changes_nothing() {
    for raw in [
        "  spaced \t out\n title  ".to_string(),
        "a".repeat(60),
        format!("{} tail", "word ".repeat(12)),
        "é".repeat(40),
        String::new(),
    ] {
        let once = sanitize_title(&raw);
        assert_eq!(sanitize_title(&once), once);
    }
}
