use rex_daemon::broker::{
    broker_web_search, broker_workspace_search, confirm_within_workspace, finish_exec_shell,
    format_delimited_tool_result, format_shell_result_body, is_searchable_extension,
    plan_exec_shell, plan_list_dir, plan_read_file, plan_save_plan, plan_write_file,
    shell_allowlist, truncate_tool_result_at_line_boundary, workspace_root_from_config,
    BrokerError, SearchStep, WorkspaceSearchKind, TRUNCATION_MARKER,
};
use rex_daemon::settings::Settings;

fn settings_with_root(root: &str) -> Settings {
    let mut s = Settings::defaults();
    s.workspace_root = Some(root.to_string());
    s
}

#[test]
fn truncate_at_line_boundary_never_splits_line() {
    let body = format!("abcdefgh\n{}", "y".repeat(50));
    let out = truncate_tool_result_at_line_boundary(&body, 9 + TRUNCATION_MARKER.len());
    assert_eq!(out, format!("abcdefgh{TRUNCATION_MARKER}"));
}

#[test]
fn truncate_keeps_text_that_fits() {
    assert_eq!(truncate_tool_result_at_line_boundary("short", 100), "short");
    assert_eq!(truncate_tool_result_at_line_boundary("long text", 3), TRUNCATION_MARKER);
}

#[test]
fn truncate_counts_utf8_bytes() {
    let body = "café\nzzzzzzzzzzzzzzzzzzzzzzzzzzzzzzzzzzzzzzzzz";
    let out = truncate_tool_result_at_line_boundary(body, 6 + TRUNCATION_MARKER.len());
    assert_eq!(out, format!("café{TRUNCATION_MARKER}"));
}

#[test]
fn delimited_result_respects_budget() {
    let mut settings = Settings::defaults();
    settings.broker_max_tool_result_bytes = 64;
    let long = "line-one\nline-two\nline-three\nline-four";
    let out = format_delimited_tool_result("fs.read", long, &settings);
    assert!(out.starts_with("<<TOOL_RESULT:fs.read>>\n"));
    assert!(out.ends_with("\n<<END>>"));
    assert!(out.len() <= 64);
    assert!(!out.contains("line-three"));
}

#[test]
fn delimited_result_keeps_short_body_whole() {
    let settings = Settings::defaults();
    let out = format_delimited_tool_result("fs.read", "hello", &settings);
    assert_eq!(out, "<<TOOL_RESULT:fs.read>>\nhello\n<<END>>");
}

#[test]
fn workspace_root_must_be_configured() {
    assert_eq!(workspace_root_from_config(&Settings::defaults()), Err(BrokerError::NoWorkspaceRoot));
    assert_eq!(workspace_root_from_config(&settings_with_root("/w")), Ok("/w".to_string()));
}

#[test]
fn read_plan_resolves_under_root() {
    let s = settings_with_root("/w");
    let p = plan_read_file(" ./src//main.rs ", "ask", &s).expect("plan");
    assert_eq!(p.root, "/w");
    assert_eq!(p.relative, "src/main.rs");
}

#[test]
fn read_plan_rejects_parent_traversal_and_absolute_paths() {
    let s = settings_with_root("/w");
    assert_eq!(
        plan_read_file("../etc/passwd", "ask", &s),
        Err(BrokerError::EscapesWorkspace("../etc/passwd".to_string()))
    );
    assert_eq!(
        plan_read_file("/etc/passwd", "ask", &s),
        Err(BrokerError::EscapesWorkspace("/etc/passwd".to_string()))
    );
}

#[test]
fn read_plan_denies_protected_paths_and_needs_root() {
    let s = settings_with_root("/w");
    match plan_read_file(".env", "ask", &s) {
        Err(BrokerError::PolicyDenied { code, .. }) => assert_eq!(code, "protected_path"),
        other => panic!("expected policy denial, got {other:?}"),
    }
    assert_eq!(
        plan_read_file("README.md", "ask", &Settings::defaults()),
        Err(BrokerError::NoWorkspaceRoot)
    );
}

#[test]
fn list_plan_uses_root_for_empty_path() {
    let s = settings_with_root("/w");
    let p = plan_list_dir("  ", "plan", &s).expect("plan");
    assert_eq!(p.relative, "");
    let q = plan_list_dir(" docs/ ", "plan", &s).expect("plan");
    assert_eq!(q.relative, "docs");
}

#[test]
fn write_plan_caps_size_and_mode() {
    let s = settings_with_root("/w");
    let big = "x".repeat(70_000);
    assert_eq!(
        plan_write_file("a.txt", &big, "agent", &s),
        Err(BrokerError::WriteTooLarge(70_000, 65_536))
    );
    match plan_write_file("a.txt", "hi", "ask", &s) {
        Err(BrokerError::PolicyDenied { code, .. }) => assert_eq!(code, "mode_denied"),
        other => panic!("expected mode denial, got {other:?}"),
    }
    let p = plan_write_file("notes/a.txt", "hi", "agent", &s).expect("plan");
    assert_eq!(p.relative, "notes/a.txt");
}

#[test]
fn save_plan_goes_under_plans_dir() {
    let s = settings_with_root("/w");
    let p = plan_save_plan("design.md", "# plan", "plan", &s).expect("plan");
    assert_eq!(p.relative, ".rex/plans/design.md");
    assert_eq!(
        plan_save_plan("design.md", &"x".repeat(65_537), "plan", &s),
        Err(BrokerError::PlanTooLarge(65_537, 65_536))
    );
}

#[test]
fn canonical_paths_must_stay_under_root() {
    assert!(confirm_within_workspace("/w", "/w/src/a.rs", "src/a.rs").is_ok());
    assert_eq!(
        confirm_within_workspace("/w", "/etc/passwd", "link"),
        Err(BrokerError::EscapesWorkspace("link".to_string()))
    );
    assert!(confirm_within_workspace("/w", "/wx/a", "a").is_err());
}

#[test]
fn shell_plan_checks_allowlist() {
    let s = settings_with_root("/w");
    let c = plan_exec_shell("  ECHO hello   world ", "agent", &s).expect("plan");
    assert_eq!(c.program, "ECHO");
    assert_eq!(c.args, vec!["hello".to_string(), "world".to_string()]);
    assert_eq!(c.cwd, "/w");
    assert_eq!(
        plan_exec_shell("rm -rf /", "agent", &s),
        Err(BrokerError::CommandNotAllowed("rm".to_string()))
    );
    assert_eq!(
        plan_exec_shell("   ", "agent", &s),
        Err(BrokerError::CommandNotAllowed("(empty)".to_string()))
    );
    assert!(matches!(plan_exec_shell("echo", "ask", &s), Err(BrokerError::PolicyDenied { .. })));
}

#[test]
fn allowlist_is_trimmed_and_lowercased() {
    let mut s = Settings::defaults();
    s.broker_shell_allowlist = vec![" Echo ".to_string(), "".to_string(), "LS".to_string()];
    assert_eq!(shell_allowlist(&s), vec!["echo".to_string(), "ls".to_string()]);
}

#[test]
fn shell_outcome_is_framed_or_reported() {
    let s = Settings::defaults();
    assert_eq!(format_shell_result_body("", ""), "");
    assert_eq!(format_shell_result_body("out", ""), "out");
    assert_eq!(format_shell_result_body("", "err"), "stderr:\nerr");
    assert_eq!(format_shell_result_body("o", "e"), "stdout:\no\n---\nstderr:\ne");
    let ok = finish_exec_shell(true, Some(0), "hello\n", "", &s).expect("ok");
    assert_eq!(ok.stdout, "<<TOOL_RESULT:exec.shell>>\nhello\n\n<<END>>");
    assert_eq!(ok.stderr, "");
    assert_eq!(
        finish_exec_shell(false, Some(-2), "", "", &s),
        Err(BrokerError::ShellFailed("exit=Some(-2)".to_string()))
    );
    assert_eq!(
        finish_exec_shell(false, None, "", "", &s),
        Err(BrokerError::ShellFailed("exit=None".to_string()))
    );
}

#[test]
fn web_search_uses_mock_provider() {
    let mut s = Settings::defaults();
    s.search_enabled = true;
    let hits = broker_web_search("  rust  ", "ask", &s).expect("hits");
    assert_eq!(hits.len(), 1);
    assert_eq!(hits[0].title, "Mock result for \"rust\"");
    assert_eq!(hits[0].url, "https://example.com/mock");
    assert_eq!(hits[0].snippet, "provider=mock max_results=5");
    assert_eq!(
        broker_web_search(" ", "ask", &s),
        Err(BrokerError::Io("query must not be empty".to_string()))
    );
    s.search_provider = "other".to_string();
    assert!(matches!(broker_web_search("x", "ask", &s), Err(BrokerError::Io(_))));
    let disabled = Settings::defaults();
    assert!(matches!(
        broker_web_search("x", "ask", &disabled),
        Err(BrokerError::PolicyDenied { .. })
    ));
}

#[test]
fn error_messages_match_operator_text() {
    assert_eq!(BrokerError::WriteTooLarge(5, 4).message(), "write too large: 5 bytes (max 4)");
    assert_eq!(BrokerError::NotFound("a".to_string()).message(), "path not found: a");
}

#[test]
fn workspace_search_finds_basename_match() {
    let s = settings_with_root("/w");
    let mut search =
        broker_workspace_search("roadmap", WorkspaceSearchKind::Basename, "ask", 10, &s).expect("search");
    assert_eq!(search.limit, 8);
    let (dir, depth) = search.next_dir().expect("root");
    assert_eq!(dir, "");
    assert_eq!(search.visit_entry(&dir, depth, ".git", true), SearchStep::Skip);
    assert_eq!(search.visit_entry(&dir, depth, "docs", true), SearchStep::Descend);
    let (dir, depth) = search.next_dir().expect("docs");
    assert_eq!(dir, "docs");
    assert_eq!(search.visit_entry(&dir, depth, "ROADMAP.md", false), SearchStep::Matched);
    assert!(search.next_dir().is_none());
    let out = search.finish(&s);
    assert!(out.contains("docs/ROADMAP.md"));
}

#[test]
fn workspace_content_search_reports_line_numbers() {
    let s = settings_with_root("/w");
    let mut search =
        broker_workspace_search("Retry", WorkspaceSearchKind::Content, "ask", 0, &s).expect("search");
    assert_eq!(search.limit, 1);
    let (dir, depth) = search.next_dir().expect("root");
    assert_eq!(search.visit_entry(&dir, depth, "image.png", false), SearchStep::Skip);
    assert_eq!(
        search.visit_entry(&dir, depth, "a.rs", false),
        SearchStep::ReadFile("a.rs".to_string())
    );
    search.record_content("a.rs", "fn main() {}\n// retry here\n");
    assert_eq!(search.matches, vec!["a.rs:2".to_string()]);
    assert_eq!(search.visit_entry(&dir, depth, "b.rs", false), SearchStep::StopDir);
    assert!(is_searchable_extension("X.TOML"));
    assert!(!is_searchable_extension("x.png"));
}

#[test]
fn workspace_search_rejects_empty_query() {
    let s = settings_with_root("/w");
    assert!(matches!(
        broker_workspace_search("  ", WorkspaceSearchKind::Basename, "ask", 3, &s),
        Err(BrokerError::Io(_))
    ));
    let empty = broker_workspace_search("none", WorkspaceSearchKind::Basename, "ask", 3, &s).expect("s");
    assert_eq!(empty.finish(&s), "<<TOOL_RESULT:workspace.search>>\nno matches\n<<END>>");
}

#[test]
fn delimited_result_cuts_before_a_line_break() {
    let mut settings = Settings::defaults();
    settings.broker_max_tool_result_bytes = 79;
    let body = format!("line-one\nline-two\nline-three\nline-four\n{}", "x".repeat(40));
    let out = format_delimited_tool_result("fs.read", &body, &settings);
    assert_eq!(
        out,
        format!("<<TOOL_RESULT:fs.read>>\nline-one\nline-two{TRUNCATION_MARKER}\n<<END>>")
    );
    assert!(out.len() <= 79);
}
