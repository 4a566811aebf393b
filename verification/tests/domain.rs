use rex_daemon::adapters::{
    parse_u64_text,
    shell_single_quote, stream_chunks_with_done, AdapterCapabilities, CursorCliRuntime,
    MockInferenceRuntime, RuntimeKind,
};
use rex_daemon::domain::{build_mock_output, chunk_output};

#[test]
fn uses_empty_prompt_marker_for_blank_input() {
    assert_eq!(build_mock_output("   "), "[empty prompt]");
}

#[test]
fn prefixes_non_empty_prompt() {
    assert_eq!(build_mock_output("hello"), "mock: hello");
}

#[test]
fn chunks_output_into_contiguous_segments() {
    let chunks = chunk_output("mock: hello world", 5);
    assert_eq!(chunks, vec!["mock:", " hell", "o wor", "ld"]);
}

#[test]
fn uses_minimum_chunk_size_of_one() {
    let chunks = chunk_output("abc", 0);
    assert_eq!(chunks, vec!["a", "b", "c"]);
}

#[test]
fn chunking_counts_characters_not_bytes() {
    assert_eq!(chunk_output("héllo", 2), vec!["hé", "ll", "o"]);
    assert!(chunk_output("", 3).is_empty());
}

#[test]
fn runtime_kind_defaults_to_mock() {
    assert_eq!(RuntimeKind::from_setting(""), RuntimeKind::Mock);
}

#[test]
fn runtime_kind_uses_cursor_when_requested() {
    assert_eq!(RuntimeKind::from_setting("cursor-cli"), RuntimeKind::CursorCli);
}

#[test]
fn runtime_kind_parsing_trims_and_lowercases() {
    assert_eq!(RuntimeKind::from_setting("  CURSOR "), RuntimeKind::CursorCli);
    assert_eq!(RuntimeKind::from_setting("http"), RuntimeKind::Mock);
    assert_eq!(RuntimeKind::Mock.log_label(), "mock");
    assert_eq!(RuntimeKind::CursorCli.log_label(), "cursor-cli");
}

#[test]
fn shell_quote_escapes_single_quotes() {
    assert_eq!(shell_single_quote("a'b"), "'a'\"'\"'b'");
}

#[test]
fn shell_quote_of_empty_value() {
    assert_eq!(shell_single_quote(""), "''");
}

#[test]
fn adapter_capabilities_per_runtime() {
    let mock = AdapterCapabilities::for_runtime(RuntimeKind::Mock);
    assert!(mock.attach_context && mock.truncate_prompt);
    let cursor = AdapterCapabilities::for_runtime(RuntimeKind::CursorCli);
    assert!(!cursor.attach_context && !cursor.truncate_prompt);
}

#[test]
fn done_stream_indexes_chunks_and_ends_with_done() {
    let chunks = stream_chunks_with_done(vec!["ab".to_string(), "c".to_string()]);
    assert_eq!(chunks.len(), 3);
    let last = chunks[2].as_ref().unwrap();
    assert!(last.done);
    assert_eq!(last.index, 2);
    assert_eq!(last.text, "");
    let first = chunks[0].as_ref().unwrap();
    assert_eq!((first.text.as_str(), first.index, first.done), ("ab", 0, false));
}

#[test]
fn mock_runtime_streams_mock_reply() {
    let chunks = MockInferenceRuntime.build_chunks("hello");
    let text: String = chunks
        .iter()
        .map(|c| c.as_ref().unwrap().text.clone())
        .collect();
    assert_eq!(text, "mock: hello");
    assert!(chunks.last().unwrap().as_ref().unwrap().done);
    assert_eq!(chunks.len(), 3);
}

#[test]
fn cursor_runtime_config_from_environment_values() {
    let rt = CursorCliRuntime::from_env_values(Some("  "), None, Some("45"));
    assert!(rt.command_template.is_none());
    assert_eq!(rt.command_path, "cursor-agent");
    assert_eq!(rt.timeout_secs, 45);
    let rt = CursorCliRuntime::from_env_values(Some(" run {prompt} "), Some(" /bin/agent "), Some("x"));
    assert_eq!(rt.command_template.as_deref(), Some("run {prompt}"));
    assert_eq!(rt.command_path, "/bin/agent");
    assert_eq!(rt.timeout_secs, 20);
    let rt = CursorCliRuntime::with_command_template("sleep 2", 1);
    assert_eq!(rt.timeout_secs, 1);
}

#[test]
fn parse_u64_text_matches_std() {
    for s in ["0", "+7", "18446744073709551615", "18446744073709551616", "", "+", "-1", "1a", " 1"] {
        assert_eq!(parse_u64_text(s), s.parse::<u64>().ok(), "input {s:?}");
    }
}
