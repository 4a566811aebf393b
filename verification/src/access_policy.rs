//! Centralized access policy for brokered sidecar tool requests: the mode
//! matrix and the protected-path rules, evaluated before any host execution.
use vstd::prelude::*;

use crate::l1_cache::{mode_spec, normalize_mode};
use crate::path::{normalize_path, normalize_path_vec};
use crate::settings::Settings;
use crate::text::{
    chars_of, concat_vec, contains, contains_vec, ends_with, ends_with_vec, lower, lower_vec,
    starts_with, starts_with_vec, string_of, trim, trim_vec,
};

verus! {

/// Stable deny code and message for logs and broker responses.
#[derive(Debug, Clone, PartialEq, Eq)]
pub struct PolicyDeny {
    pub code: &'static str,
    pub message: String,
}

#[derive(Debug, Clone, PartialEq, Eq)]
pub enum AccessDecision {
    Allow,
    Deny(PolicyDeny),
}

/// Broker capability evaluated before host execution.
#[derive(Debug, Clone, Copy, PartialEq, Eq, Structural)]
pub enum BrokerCapability {
    FsRead,
    FsList,
    FsWrite,
    PlanSave,
    ExecShell,
    WebSearch,
}

/// Stable name of a capability.
pub open spec fn capability_name(c: BrokerCapability) -> Seq<char> {
    match c {
        BrokerCapability::FsRead => "fs.read"@,
        BrokerCapability::FsList => "fs.list"@,
        BrokerCapability::FsWrite => "fs.write"@,
        BrokerCapability::PlanSave => "plan.save"@,
        BrokerCapability::ExecShell => "exec.shell"@,
        BrokerCapability::WebSearch => "web.search"@,
    }
}

impl BrokerCapability {
    pub fn as_str(self) -> (s: &'static str)
        ensures
            s@ == capability_name(self),
    {
        match self {
            BrokerCapability::FsRead => "fs.read",
            BrokerCapability::FsList => "fs.list",
            BrokerCapability::FsWrite => "fs.write",
            BrokerCapability::PlanSave => "plan.save",
            BrokerCapability::ExecShell => "exec.shell",
            BrokerCapability::WebSearch => "web.search",
        }
    }
}

/// The text of an optional path (absent means empty).
pub open spec fn opt_text(p: Option<&str>) -> Seq<char> {
    match p {
        Some(s) => s@,
        None => Seq::<char>::empty(),
    }
}

/// The mode matrix: which capability each (normalized) mode may use.
pub open spec fn capability_allowed(c: BrokerCapability, mode: Seq<char>, search_enabled: bool) -> bool {
    match c {
        BrokerCapability::FsRead | BrokerCapability::FsList => true,
        BrokerCapability::FsWrite | BrokerCapability::ExecShell => mode == "agent"@,
        BrokerCapability::PlanSave => mode == "plan"@,
        BrokerCapability::WebSearch => mode == "ask"@ && search_enabled,
    }
}

/// Protected paths: git config, env files, key material, ssh directories
/// (matched on the lower-cased, component-normalized, trimmed path).
pub open spec fn is_protected(p: Seq<char>) -> bool {
    let l = lower(normalize_path(trim(p)));
    ||| contains(l, ".git/config"@)
    ||| ends_with(l, ".git/config"@)
    ||| contains(l, ".env"@)
    ||| ends_with(l, ".pem"@)
    ||| ends_with(l, ".key"@)
    ||| starts_with(l, ".ssh/"@)
    ||| contains(l, "/.ssh/"@)
}

/// `normalize_plan_save_path`: trimmed, leading `/` removed, placed under `.rex/plans/`.
pub open spec fn strip_leading_slashes(s: Seq<char>) -> Seq<char>
    decreases s.len(),
{
    if s.len() > 0 && s[0] == '/' {
        strip_leading_slashes(s.drop_first())
    } else {
        s
    }
}

pub open spec fn plan_save_path(p: Seq<char>) -> Seq<char> {
    let t = strip_leading_slashes(trim(p));
    if starts_with(t, ".rex/plans/"@) {
        t
    } else {
        ".rex/plans/"@ + t
    }
}

/// Deny for a protected path, with the operation named in the message.
pub open spec fn protected_deny(t: Seq<char>, operation: Seq<char>) -> Option<(Seq<char>, Seq<char>)> {
    if is_protected(t) {
        Some(("protected_path"@, operation + " denied for protected path: "@ + t))
    } else {
        None
    }
}

/// The outcome of checking a `plan.save` target path (`None` = allowed).
pub open spec fn plan_path_deny(p: Seq<char>) -> Option<(Seq<char>, Seq<char>)> {
    let t = trim(p);
    if t.len() == 0 {
        Some(("plan_path_invalid"@, "plan.save path must not be empty"@))
    } else {
        let n = plan_save_path(t);
        if !starts_with(n, ".rex/plans/"@) || !ends_with(n, ".md"@) {
            Some(("plan_path_invalid"@, "plan.save path must be under .rex/plans/ and end with .md"@))
        } else if contains(n, ".."@) {
            Some(("plan_path_invalid"@, "plan.save path must not contain .."@))
        } else {
            protected_deny(n, "plan.save"@)
        }
    }
}

/// The full broker decision: `None` allows, `Some((code, message))` denies.
pub open spec fn broker_deny(
    c: BrokerCapability,
    raw_mode: Seq<char>,
    path: Seq<char>,
    search_enabled: bool,
) -> Option<(Seq<char>, Seq<char>)> {
    let mode = mode_spec(raw_mode);
    if !capability_allowed(c, mode, search_enabled) {
        Some(
            (
                if c == BrokerCapability::PlanSave {
                    "plan_save_denied"@
                } else {
                    "mode_denied"@
                },
                capability_name(c) + " denied for mode "@ + mode,
            ),
        )
    } else {
        match c {
            BrokerCapability::FsRead => {
                let t = trim(path);
                if t.len() == 0 {
                    Some(("path_empty"@, "path must not be empty"@))
                } else {
                    protected_deny(t, "read"@)
                }
            },
            BrokerCapability::FsList => {
                let t = trim(path);
                if t.len() == 0 {
                    None
                } else {
                    protected_deny(t, "list"@)
                }
            },
            BrokerCapability::FsWrite => {
                let t = trim(path);
                if t.len() == 0 {
                    Some(("path_empty"@, "path must not be empty"@))
                } else {
                    protected_deny(t, "write"@)
                }
            },
            BrokerCapability::PlanSave => plan_path_deny(path),
            _ => None,
        }
    }
}

/// `d` is the decision that `spec` describes.
pub open spec fn decision_matches(d: AccessDecision, spec: Option<(Seq<char>, Seq<char>)>) -> bool {
    match d {
        AccessDecision::Allow => spec is None,
        AccessDecision::Deny(deny) => match spec {
            Some((code, message)) => deny.code@ == code && deny.message@ == message,
            None => false,
        },
    }
}

/// The deny code of a decision description (empty when it allows).
pub open spec fn deny_code(spec: Option<(Seq<char>, Seq<char>)>) -> Seq<char> {
    match spec {
        Some((code, _)) => code,
        None => Seq::<char>::empty(),
    }
}

fn deny(code: &'static str, message: String) -> (d: AccessDecision)
    ensures
        d == AccessDecision::Deny(PolicyDeny { code, message }),
{
    AccessDecision::Deny(PolicyDeny { code, message })
}

fn capability_allowed_in_mode(capability: BrokerCapability, mode: &Vec<char>, search_enabled: bool) -> (b: bool)
    ensures
        b == capability_allowed(capability, mode@, search_enabled),
{
    match capability {
        BrokerCapability::FsRead | BrokerCapability::FsList => true,
        BrokerCapability::FsWrite | BrokerCapability::ExecShell => crate::text::eq_vec(
            mode,
            &chars_of("agent"),
        ),
        BrokerCapability::PlanSave => crate::text::eq_vec(mode, &chars_of("plan")),
        BrokerCapability::WebSearch => search_enabled && crate::text::eq_vec(
            mode,
            &chars_of("ask"),
        ),
    }
}

fn evaluate_with(
    capability: BrokerCapability,
    mode: &str,
    relative_path: Option<&str>,
    search_enabled: bool,
) -> (d: AccessDecision)
    ensures
        decision_matches(d, broker_deny(capability, mode@, opt_text(relative_path), search_enabled)),
{
    let mode_n = normalize_mode(mode);
    let mode_v = chars_of(mode_n.as_str());
    if !capability_allowed_in_mode(capability, &mode_v, search_enabled) {
        let code = if capability == BrokerCapability::PlanSave {
            "plan_save_denied"
        } else {
            "mode_denied"
        };
        let msg = concat_vec(
            &concat_vec(&chars_of(capability.as_str()), &chars_of(" denied for mode ")),
            &mode_v,
        );
        return deny(code, string_of(&msg));
    }
    let path_v = match relative_path {
        Some(p) => chars_of(p),
        None => Vec::new(),
    };
    assert(path_v@ == opt_text(relative_path));
    let t = trim_vec(&path_v);
    match capability {
        BrokerCapability::FsRead => {
            if t.len() == 0 {
                return deny("path_empty", String::from_str("path must not be empty"));
            }
            evaluate_path_protected(&t, "read")
        },
        BrokerCapability::FsList => {
            if t.len() == 0 {
                return AccessDecision::Allow;
            }
            evaluate_path_protected(&t, "list")
        },
        BrokerCapability::FsWrite => {
            if t.len() == 0 {
                return deny("path_empty", String::from_str("path must not be empty"));
            }
            evaluate_path_protected(&t, "write")
        },
        BrokerCapability::PlanSave => evaluate_plan_save_path(&path_v),
        BrokerCapability::ExecShell => AccessDecision::Allow,
        BrokerCapability::WebSearch => AccessDecision::Allow,
    }
}

/// Evaluate a broker tool request (mode matrix + protected paths).
pub fn evaluate_broker(
    capability: BrokerCapability,
    mode: &str,
    relative_path: Option<&str>,
    settings: &Settings,
) -> (d: AccessDecision)
    ensures
        decision_matches(
            d,
            broker_deny(capability, mode@, opt_text(relative_path), settings.search_enabled),
        ),
{
    evaluate_with(capability, mode, relative_path, settings.search_enabled)
}

/// Exec form of [`strip_leading_slashes`].
fn strip_leading_slashes_vec(v: &Vec<char>) -> (r: Vec<char>)
    ensures
        r@ == strip_leading_slashes(v@),
{
    let mut i: usize = 0;
    assert(v@.skip(0) =~= v@);
    while i < v.len() && v[i] == '/'
        invariant
            i <= v.len(),
            strip_leading_slashes(v@) == strip_leading_slashes(v@.skip(i as int)),
        decreases v.len() - i,
    {
        assert(v@.skip(i as int).drop_first() =~= v@.skip(i + 1));
        i = i + 1;
    }
    crate::text::slice_vec(v, i, v.len())
}

fn plan_save_path_vec(v: &Vec<char>) -> (r: Vec<char>)
    ensures
        r@ == plan_save_path(v@),
{
    let t = strip_leading_slashes_vec(&trim_vec(v));
    let prefix = chars_of(".rex/plans/");
    if starts_with_vec(&t, &prefix) {
        t
    } else {
        concat_vec(&prefix, &t)
    }
}

/// Place a plan path under `.rex/plans/` (trimmed, leading `/` removed).
pub fn normalize_plan_save_path(relative_path: &str) -> (s: String)
    ensures
        s@ == plan_save_path(relative_path@),
{
    string_of(&plan_save_path_vec(&chars_of(relative_path)))
}

fn evaluate_plan_save_path(relative_path: &Vec<char>) -> (d: AccessDecision)
    ensures
        decision_matches(d, plan_path_deny(relative_path@)),
{
    let t = trim_vec(relative_path);
    if t.len() == 0 {
        return deny("plan_path_invalid", String::from_str("plan.save path must not be empty"));
    }
    let normalized = plan_save_path_vec(&t);
    if !starts_with_vec(&normalized, &chars_of(".rex/plans/")) || !ends_with_vec(
        &normalized,
        &chars_of(".md"),
    ) {
        return deny(
            "plan_path_invalid",
            String::from_str("plan.save path must be under .rex/plans/ and end with .md"),
        );
    }
    if contains_vec(&normalized, &chars_of("..")) {
        return deny("plan_path_invalid", String::from_str("plan.save path must not contain .."));
    }
    evaluate_path_protected(&normalized, "plan.save")
}

fn evaluate_path_protected(trimmed: &Vec<char>, operation: &str) -> (d: AccessDecision)
    ensures
        decision_matches(d, protected_deny(trimmed@, operation@)),
{
    if is_protected_path(trimmed) {
        let msg = concat_vec(
            &concat_vec(&chars_of(operation), &chars_of(" denied for protected path: ")),
            trimmed,
        );
        return deny("protected_path", string_of(&msg));
    }
    AccessDecision::Allow
}

/// Evaluate `fs.read` before host execution.
pub fn evaluate_fs_read(relative_path: &str, mode: &str) -> (d: AccessDecision)
    ensures
        decision_matches(d, broker_deny(BrokerCapability::FsRead, mode@, relative_path@, false)),
{
    evaluate_with(BrokerCapability::FsRead, mode, Some(relative_path), false)
}

/// Evaluate `fs.list` before host execution.
pub fn evaluate_fs_list(relative_path: &str, mode: &str) -> (d: AccessDecision)
    ensures
        decision_matches(d, broker_deny(BrokerCapability::FsList, mode@, relative_path@, false)),
{
    evaluate_with(BrokerCapability::FsList, mode, Some(relative_path), false)
}

/// Evaluate `fs.write` before host execution.
pub fn evaluate_fs_write(relative_path: &str, mode: &str) -> (d: AccessDecision)
    ensures
        decision_matches(d, broker_deny(BrokerCapability::FsWrite, mode@, relative_path@, false)),
{
    evaluate_with(BrokerCapability::FsWrite, mode, Some(relative_path), false)
}

/// Evaluate `exec.shell` before host execution.
pub fn evaluate_exec_shell(mode: &str) -> (d: AccessDecision)
    ensures
        decision_matches(
            d,
            broker_deny(BrokerCapability::ExecShell, mode@, Seq::<char>::empty(), false),
        ),
{
    evaluate_with(BrokerCapability::ExecShell, mode, None, false)
}

/// Evaluate `plan.save` before host execution.
pub fn evaluate_plan_save(relative_path: &str, mode: &str) -> (d: AccessDecision)
    ensures
        decision_matches(d, broker_deny(BrokerCapability::PlanSave, mode@, relative_path@, false)),
{
    evaluate_with(BrokerCapability::PlanSave, mode, Some(relative_path), false)
}

/// Evaluate `workspace.search` before host execution: a read-only capability,
/// open to every mode. This is this crate's own rule: the search reads only
/// names and contents under the workspace root, as `fs.read` and `fs.list`
/// do, and those are open in every mode; the broker still confines the search
/// to the configured workspace.
pub fn evaluate_workspace_search(mode: &str) -> (d: AccessDecision)
    ensures
        d == AccessDecision::Allow,
{
    AccessDecision::Allow
}

fn is_protected_path(relative_path: &Vec<char>) -> (b: bool)
    ensures
        b == is_protected(relative_path@),
{
    let t = trim_vec(relative_path);
    let l = lower_vec(&normalize_path_vec(&t));
    contains_vec(&l, &chars_of(".git/config")) || ends_with_vec(&l, &chars_of(".git/config"))
        || contains_vec(&l, &chars_of(".env")) || ends_with_vec(&l, &chars_of(".pem"))
        || ends_with_vec(&l, &chars_of(".key")) || starts_with_vec(&l, &chars_of(".ssh/"))
        || contains_vec(&l, &chars_of("/.ssh/"))
}

// ---------------------------------------------------------------------------
// Laws
// ---------------------------------------------------------------------------

/// Writing files and running shell commands are denied in every mode other
/// than `agent`, whatever the path.
pub proof fn law_mutation_requires_agent_mode(
    c: BrokerCapability,
    mode: Seq<char>,
    path: Seq<char>,
    search_enabled: bool,
)
    requires
        c == BrokerCapability::FsWrite || c == BrokerCapability::ExecShell,
        mode_spec(mode) != "agent"@,
    ensures
        broker_deny(c, mode, path, search_enabled) is Some,
        deny_code(broker_deny(c, mode, path, search_enabled)) == "mode_denied"@,
{
}

/// A protected path is never read, listed or written, in any mode.
pub proof fn law_protected_paths_always_denied(
    c: BrokerCapability,
    mode: Seq<char>,
    path: Seq<char>,
    search_enabled: bool,
)
    requires
        c == BrokerCapability::FsRead || c == BrokerCapability::FsList || c
            == BrokerCapability::FsWrite,
        is_protected(trim(path)),
    ensures
        broker_deny(c, mode, path, search_enabled) is Some,
{
    if trim(path).len() == 0 {
        assert(trim(path) =~= Seq::<char>::empty());
        lemma_empty_not_protected();
    }
}

proof fn lemma_empty_not_protected()
    ensures
        !is_protected(Seq::<char>::empty()),
{
    lemma_normalize_empty();
    reveal_strlit(".git/config");
    reveal_strlit(".env");
    reveal_strlit(".pem");
    reveal_strlit(".key");
    reveal_strlit(".ssh/");
    reveal_strlit("/.ssh/");
}

proof fn lemma_normalize_empty()
    ensures
        lower(normalize_path(trim(Seq::<char>::empty()))).len() == 0,
{
    reveal_with_fuel(crate::text::trim_start, 2);
    reveal_with_fuel(crate::text::trim_end, 2);
    assert(trim(Seq::<char>::empty()) =~= Seq::<char>::empty());
    reveal_with_fuel(crate::path::split_char, 2);
    assert(crate::path::split_char(Seq::<char>::empty(), '/') =~= seq![Seq::<char>::empty()]);
    reveal_with_fuel(crate::path::kept_segments, 3);
    assert(crate::path::kept_segments(seq![Seq::<char>::empty()]) =~= Seq::<Seq<char>>::empty());
    assert(crate::path::path_components(Seq::<char>::empty()) =~= Seq::<Seq<char>>::empty());
}

/// A `plan.save` that is allowed targets a Markdown file under `.rex/plans/`
/// whose path holds no `..`, and only in `plan` mode.
pub proof fn law_allowed_plan_save_stays_in_plans_dir(
    mode: Seq<char>,
    path: Seq<char>,
    search_enabled: bool,
)
    requires
        broker_deny(BrokerCapability::PlanSave, mode, path, search_enabled) is None,
    ensures
        mode_spec(mode) == "plan"@,
        starts_with(plan_save_path(trim(path)), ".rex/plans/"@),
        ends_with(plan_save_path(trim(path)), ".md"@),
        !contains(plan_save_path(trim(path)), ".."@),
        !is_protected(plan_save_path(trim(path))),
{
}

/// Reading and listing are open in every mode for unprotected, non-empty paths.
pub proof fn law_reads_open_in_every_mode(mode: Seq<char>, path: Seq<char>, search_enabled: bool)
    requires
        trim(path).len() > 0,
        !is_protected(trim(path)),
    ensures
        broker_deny(BrokerCapability::FsRead, mode, path, search_enabled) is None,
        broker_deny(BrokerCapability::FsList, mode, path, search_enabled) is None,
{
}


/// A plan path is normalized under `.rex/plans/`, and normalizing it again
/// changes nothing.
pub proof fn law_plan_save_path_normalized(p: Seq<char>)
    ensures
        starts_with(plan_save_path(p), ".rex/plans/"@),
        plan_save_path(plan_save_path(p)) == plan_save_path(p),
{
    let pre = ".rex/plans/"@;
    reveal_strlit(".rex/plans/");
    let t = strip_leading_slashes(trim(p));
    lemma_strip_slashes_suffix(trim(p));
    crate::text::lemma_trim_ends(p);
    let r = plan_save_path(p);
    if !starts_with(t, pre) {
        assert((pre + t).take(pre.len() as int) =~= pre);
    }
    if starts_with(t, pre) {
        assert(t[0] == t.take(pre.len() as int)[0]);
    } else {
        assert(r[0] == pre[0]);
    }
    assert(r[0] == '.');
    assert(r.len() > 0 && !crate::text::is_ws(r.last())) by {
        if starts_with(t, pre) {
            assert(r == t);
        } else if t.len() == 0 {
            assert(r =~= pre);
        } else {
            assert(r.last() == t.last());
        }
    }
    crate::text::lemma_trim_ends(r);
    assert(strip_leading_slashes(r) == r);
}

/// Stripping leading slashes keeps a suffix of the text with the same last
/// character when anything is left, and no white space is added.
proof fn lemma_strip_slashes_suffix(s: Seq<char>)
    ensures
        strip_leading_slashes(s).len() <= s.len(),
        strip_leading_slashes(s).len() > 0 ==> strip_leading_slashes(s).last() == s.last(),
        strip_leading_slashes(s).len() > 0 ==> strip_leading_slashes(s)[0] != '/',
    decreases s.len(),
{
    if s.len() > 0 && s[0] == '/' {
        lemma_strip_slashes_suffix(s.drop_first());
    }
}

/// The broker's mode rules: writes and shell commands only in `agent` mode,
/// plan saves only in `plan` mode, web search only in `ask` mode with search
/// enabled, each refused with its code and `"<capability> denied for mode
/// <mode>"`; reads and listings are never refused for the mode.
pub proof fn law_broker_mode_rules(c: BrokerCapability, raw_mode: Seq<char>, path: Seq<char>, search_enabled: bool)
    ensures
        ({
            let m = mode_spec(raw_mode);
            let d = broker_deny(c, raw_mode, path, search_enabled);
            &&& (c == BrokerCapability::FsWrite || c == BrokerCapability::ExecShell) && m != "agent"@ ==> d
                == Some(("mode_denied"@, capability_name(c) + " denied for mode "@ + m))
            &&& c == BrokerCapability::PlanSave && m != "plan"@ ==> d == Some(
                ("plan_save_denied"@, capability_name(c) + " denied for mode "@ + m),
            )
            &&& c == BrokerCapability::WebSearch ==> (d is None <==> m == "ask"@ && search_enabled)
            &&& c == BrokerCapability::WebSearch && !(m == "ask"@ && search_enabled) ==> d == Some(
                ("mode_denied"@, capability_name(c) + " denied for mode "@ + m),
            )
            &&& c == BrokerCapability::FsRead || c == BrokerCapability::FsList ==> deny_code(d)
                != "mode_denied"@ && deny_code(d) != "plan_save_denied"@
        }),
{
    reveal_strlit("mode_denied");
    reveal_strlit("plan_save_denied");
    reveal_strlit("path_empty");
    reveal_strlit("protected_path");
    reveal_strlit("");
    assert("protected_path"@[0] != "mode_denied"@[0]);
    assert("path_empty"@[0] != "mode_denied"@[0]);
    assert("protected_path"@[1] != "plan_save_denied"@[1]);
    assert("path_empty"@[1] != "plan_save_denied"@[1]);
    assert(Seq::<char>::empty().len() != "mode_denied"@.len());
    assert(Seq::<char>::empty().len() != "plan_save_denied"@.len());
}

/// Where the mode permits a read, listing or write, the path decides: an
/// empty path is refused (`path_empty`) except for a listing of the root, a
/// protected path is refused (`protected_path`), any other path is allowed.
pub proof fn law_broker_path_rules(c: BrokerCapability, raw_mode: Seq<char>, path: Seq<char>, search_enabled: bool)
    requires
        c == BrokerCapability::FsRead || c == BrokerCapability::FsList || (c == BrokerCapability::FsWrite
            && mode_spec(raw_mode) == "agent"@),
    ensures
        ({
            let t = trim(path);
            let d = broker_deny(c, raw_mode, path, search_enabled);
            &&& t.len() == 0 ==> d == (if c == BrokerCapability::FsList {
                None
            } else {
                Some(("path_empty"@, "path must not be empty"@))
            })
            &&& t.len() > 0 ==> (deny_code(d) == "protected_path"@ <==> is_protected(t))
            &&& t.len() > 0 && !is_protected(t) ==> d is None
        }),
{
    reveal_strlit("protected_path");
    reveal_strlit("");
}

} // verus!
