use rex_daemon::access_policy::{
    evaluate_broker, evaluate_exec_shell, evaluate_fs_list, evaluate_fs_read, evaluate_fs_write,
    evaluate_plan_save, normalize_plan_save_path, AccessDecision, BrokerCapability,
};
use rex_daemon::settings::Settings;

fn deny_code(d: AccessDecision) -> &'static str {
    match d {
        AccessDecision::Deny(d) => d.code,
        AccessDecision::Allow => panic!("expected deny"),
    }
}

#[test]
fn allows_workspace_relative_path() {
    assert_eq!(evaluate_fs_read("src/main.rs", "agent"), AccessDecision::Allow);
}

#[test]
fn denies_env_file() {
    assert_eq!(deny_code(evaluate_fs_read(".env", "agent")), "protected_path");
}

#[test]
fn denies_env_list() {
    assert_eq!(deny_code(evaluate_fs_list(".env", "ask")), "protected_path");
}

#[test]
fn allows_list_workspace_root() {
    assert_eq!(evaluate_fs_list("", "ask"), AccessDecision::Allow);
}

#[test]
fn denies_git_config() {
    assert_eq!(deny_code(evaluate_fs_read(".git/config", "agent")), "protected_path");
}

#[test]
fn access_policy_ask_mode_denies_write() {
    assert_eq!(deny_code(evaluate_fs_write("out.txt", "ask")), "mode_denied");
}

#[test]
fn plan_mode_denies_write() {
    assert_eq!(deny_code(evaluate_fs_write("out.txt", "plan")), "mode_denied");
}

#[test]
fn agent_mode_allows_write() {
    assert_eq!(evaluate_fs_write("out.txt", "agent"), AccessDecision::Allow);
}

#[test]
fn agent_mode_denies_protected_write() {
    assert_eq!(deny_code(evaluate_fs_write(".env", "agent")), "protected_path");
}

#[test]
fn access_policy_ask_mode_denies_exec() {
    assert_eq!(deny_code(evaluate_exec_shell("ask")), "mode_denied");
}

#[test]
fn agent_mode_allows_exec() {
    assert_eq!(evaluate_exec_shell("agent"), AccessDecision::Allow);
}

#[test]
fn read_allowed_in_plan_mode() {
    assert_eq!(evaluate_fs_read("src/main.rs", "plan"), AccessDecision::Allow);
}

#[test]
fn plan_save_allowed_in_plan_mode() {
    assert_eq!(evaluate_plan_save(".rex/plans/feature.md", "plan"), AccessDecision::Allow);
}

#[test]
fn plan_save_denied_in_agent_mode() {
    assert_eq!(deny_code(evaluate_plan_save(".rex/plans/feature.md", "agent")), "plan_save_denied");
}

#[test]
fn plan_save_rejects_path_outside_plans_dir() {
    assert_eq!(deny_code(evaluate_plan_save("out.txt", "plan")), "plan_path_invalid");
}

// Further cases.

#[test]
fn deny_messages_name_capability_and_mode() {
    match evaluate_fs_write("out.txt", "  ASK ") {
        AccessDecision::Deny(d) => assert_eq!(d.message, "fs.write denied for mode ask"),
        _ => panic!("expected deny"),
    }
    match evaluate_fs_read(".env", "agent") {
        AccessDecision::Deny(d) => assert_eq!(d.message, "read denied for protected path: .env"),
        _ => panic!("expected deny"),
    }
}

#[test]
fn empty_read_and_write_paths_are_denied() {
    assert_eq!(deny_code(evaluate_fs_read("   ", "agent")), "path_empty");
    assert_eq!(deny_code(evaluate_fs_write("", "agent")), "path_empty");
}

#[test]
fn protected_path_detection_normalizes_components_and_case() {
    assert_eq!(deny_code(evaluate_fs_read(".git//config", "ask")), "protected_path");
    assert_eq!(deny_code(evaluate_fs_read("./.git/./config", "ask")), "protected_path");
    assert_eq!(deny_code(evaluate_fs_read("certs/SERVER.PEM", "ask")), "protected_path");
    assert_eq!(deny_code(evaluate_fs_read("home/.ssh/id_rsa", "ask")), "protected_path");
    assert_eq!(deny_code(evaluate_fs_read(".ssh/known_hosts", "ask")), "protected_path");
    assert_eq!(deny_code(evaluate_fs_read("keys/deploy.key", "ask")), "protected_path");
    assert_eq!(evaluate_fs_read("docs/environment.md", "ask"), AccessDecision::Allow);
}

#[test]
fn plan_save_path_rules() {
    assert_eq!(normalize_plan_save_path("  /feature.md "), ".rex/plans/feature.md");
    assert_eq!(normalize_plan_save_path(".rex/plans/a.md"), ".rex/plans/a.md");
    assert_eq!(deny_code(evaluate_plan_save("", "plan")), "plan_path_invalid");
    assert_eq!(deny_code(evaluate_plan_save("../x.md", "plan")), "plan_path_invalid");
    assert_eq!(deny_code(evaluate_plan_save(".env.md", "plan")), "protected_path");
}

#[test]
fn web_search_needs_ask_mode_and_enabled_search() {
    let mut settings = Settings::defaults();
    assert_eq!(
        deny_code(evaluate_broker(BrokerCapability::WebSearch, "ask", None, &settings)),
        "mode_denied"
    );
    settings.search_enabled = true;
    assert_eq!(
        evaluate_broker(BrokerCapability::WebSearch, "ask", None, &settings),
        AccessDecision::Allow
    );
    assert_eq!(
        deny_code(evaluate_broker(BrokerCapability::WebSearch, "agent", None, &settings)),
        "mode_denied"
    );
}

#[test]
fn capability_names_are_stable() {
    assert_eq!(BrokerCapability::FsRead.as_str(), "fs.read");
    assert_eq!(BrokerCapability::FsList.as_str(), "fs.list");
    assert_eq!(BrokerCapability::FsWrite.as_str(), "fs.write");
    assert_eq!(BrokerCapability::PlanSave.as_str(), "plan.save");
    assert_eq!(BrokerCapability::ExecShell.as_str(), "exec.shell");
    assert_eq!(BrokerCapability::WebSearch.as_str(), "web.search");
}
