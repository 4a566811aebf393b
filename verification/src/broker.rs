//! Host capability broker: workspace file access, directory listing, plan
//! saving, allowlisted shell commands, web search and workspace search, each
//! behind the access policy, with tool results framed and size-bounded.
//!
//! The file-system and process work itself happens at the edge of the program;
//! this module decides what may be done, where, and what is answered.
use vstd::prelude::*;

use crate::access_policy::{
    broker_deny, evaluate_broker, evaluate_exec_shell, evaluate_fs_list, evaluate_fs_read,
    evaluate_fs_write, evaluate_plan_save, evaluate_workspace_search, plan_save_path, AccessDecision,
    BrokerCapability, PolicyDeny,
};
use crate::settings::Settings;
use crate::text::{
    byte_len, chars_of, chars_within_bytes, concat_vec, decimal, lower, string_of, trim,
    trim_vec,
};

verus! {

#[derive(Debug, PartialEq, Eq)]
pub enum BrokerError {
    NoWorkspaceRoot,
    PolicyDenied { code: String, message: String },
    EscapesWorkspace(String),
    NotFound(String),
    Io(String),
    WriteTooLarge(usize, usize),
    PlanTooLarge(usize, usize),
    CommandNotAllowed(String),
    ShellFailed(String),
}

/// Operator-facing text of a broker error.
pub open spec fn broker_error_message(e: BrokerError) -> Seq<char> {
    match e {
        BrokerError::NoWorkspaceRoot => "workspace root not configured"@,
        BrokerError::PolicyDenied { code, message } => "access policy denied ("@ + code@ + "): "@
            + message@,
        BrokerError::EscapesWorkspace(p) => "path escapes workspace: "@ + p@,
        BrokerError::NotFound(p) => "path not found: "@ + p@,
        BrokerError::Io(m) => "read failed: "@ + m@,
        BrokerError::WriteTooLarge(a, b) => "write too large: "@ + decimal(a as nat) + " bytes (max "@
            + decimal(b as nat) + ")"@,
        BrokerError::PlanTooLarge(a, b) => "plan_too_large: "@ + decimal(a as nat) + " bytes (max "@
            + decimal(b as nat) + ")"@,
        BrokerError::CommandNotAllowed(c) => "command not allowlisted: "@ + c@,
        BrokerError::ShellFailed(m) => "shell execution failed: "@ + m@,
    }
}

fn size_message(prefix: &str, a: usize, b: usize) -> (s: String)
    ensures
        s@ == prefix@ + decimal(a as nat) + " bytes (max "@ + decimal(b as nat) + ")"@,
{
    let mut v = chars_of(prefix);
    crate::text::append_vec(&mut v, &crate::text::decimal_vec(a as u64));
    crate::text::append_vec(&mut v, &chars_of(" bytes (max "));
    crate::text::append_vec(&mut v, &crate::text::decimal_vec(b as u64));
    crate::text::append_vec(&mut v, &chars_of(")"));
    string_of(&v)
}

impl BrokerError {
    /// Operator-facing text of the error.
    pub fn message(&self) -> (s: String)
        ensures
            s@ == broker_error_message(*self),
    {
        match self {
            BrokerError::NoWorkspaceRoot => String::from_str("workspace root not configured"),
            BrokerError::PolicyDenied { code, message } => String::from_str(
                "access policy denied (",
            ).concat(code.as_str()).concat("): ").concat(message.as_str()),
            BrokerError::EscapesWorkspace(p) => String::from_str("path escapes workspace: ").concat(
                p.as_str(),
            ),
            BrokerError::NotFound(p) => String::from_str("path not found: ").concat(p.as_str()),
            BrokerError::Io(m) => String::from_str("read failed: ").concat(m.as_str()),
            BrokerError::WriteTooLarge(a, b) => size_message("write too large: ", *a, *b),
            BrokerError::PlanTooLarge(a, b) => size_message("plan_too_large: ", *a, *b),
            BrokerError::CommandNotAllowed(c) => String::from_str("command not allowlisted: ").concat(
                c.as_str(),
            ),
            BrokerError::ShellFailed(m) => String::from_str("shell execution failed: ").concat(
                m.as_str(),
            ),
        }
    }

    /// The broker error for an access-policy denial.
    pub fn from_deny(deny: PolicyDeny) -> (e: BrokerError)
        ensures
            e matches BrokerError::PolicyDenied { code, message } && code@ == deny.code@ && message
                == deny.message,
    {
        BrokerError::PolicyDenied { code: String::from_str(deny.code), message: deny.message }
    }
}

pub const MAX_WRITE_BYTES: usize = 65_536;
pub const MAX_LIST_DIR_ENTRIES: usize = 256;
pub const TRUNCATION_MARKER: &'static str = " [rex: tool output truncated]";
pub const TOOL_RESULT_CLOSE: &'static str = "\n<<END>>";

#[derive(Debug, Clone, PartialEq, Eq)]
pub struct BrokerDirEntry {
    pub name: String,
    pub is_dir: bool,
}

#[derive(Debug, Clone, PartialEq, Eq)]
pub struct ShellResult {
    pub stdout: String,
    pub stderr: String,
}

#[derive(Debug, Clone, PartialEq, Eq)]
pub struct WebSearchHit {
    pub title: String,
    pub url: String,
    pub snippet: String,
}

#[derive(Debug, Clone, Copy, PartialEq, Eq, Structural)]
pub enum WorkspaceSearchKind {
    Basename,
    Content,
}

/// The configured workspace root.
pub fn workspace_root_from_config(settings: &Settings) -> (r: Result<String, BrokerError>)
    ensures
        settings.workspace_root is None ==> r == Err::<String, BrokerError>(
            BrokerError::NoWorkspaceRoot,
        ),
        settings.workspace_root is Some ==> r is Ok && r->Ok_0@ == settings.workspace_root->0@,
{
    match &settings.workspace_root {
        Some(root) => Ok(root.clone()),
        None => Err(BrokerError::NoWorkspaceRoot),
    }
}

// ---------------------------------------------------------------------------
// Tool result framing
// ---------------------------------------------------------------------------

/// Position of the last `c` in `s` (`-1` when absent).
pub open spec fn last_index_of(s: Seq<char>, c: char) -> int
    decreases s.len(),
{
    if s.len() == 0 {
        -1
    } else if s.last() == c {
        s.len() - 1
    } else {
        last_index_of(s.drop_last(), c)
    }
}

proof fn lemma_last_index_bounds(s: Seq<char>, c: char)
    ensures
        -1 <= last_index_of(s, c) < s.len(),
        last_index_of(s, c) >= 0 ==> s[last_index_of(s, c)] == c,
    decreases s.len(),
{
    if s.len() > 0 && s.last() != c {
        lemma_last_index_bounds(s.drop_last(), c);
    }
}

fn last_index_of_vec(v: &Vec<char>, c: char) -> (r: Option<usize>)
    ensures
        r is None <==> last_index_of(v@, c) == -1,
        r is Some ==> r->0 as int == last_index_of(v@, c),
{
    let mut i: usize = v.len();
    assert(v@.take(i as int) =~= v@);
    while i > 0
        invariant
            i <= v.len(),
            last_index_of(v@, c) == last_index_of(v@.take(i as int), c),
        decreases i,
    {
        assert(v@.take(i as int).drop_last() =~= v@.take(i - 1));
        if v[i - 1] == c {
            return Some(i - 1);
        }
        i = i - 1;
    }
    None
}

/// `text` cut to fit `max_body_bytes` at a line boundary, with the truncation
/// marker appended when anything was cut. A budget that leaves no room beside
/// the 29-byte marker turns an over-long text into the marker alone, which
/// then exceeds the budget.
pub open spec fn truncated_result(text: Seq<char>, max_body_bytes: nat) -> Seq<char> {
    let marker = TRUNCATION_MARKER@;
    if byte_len(text) <= max_body_bytes {
        text
    } else {
        let budget: nat = if max_body_bytes > byte_len(marker) {
            (max_body_bytes - byte_len(marker)) as nat
        } else {
            0
        };
        if budget == 0 {
            marker
        } else {
            let prefix = text.take(chars_within_bytes(text, budget) as int);
            let nl = last_index_of(prefix, '\n');
            let body = if nl > 0 {
                prefix.take(nl)
            } else {
                Seq::<char>::empty()
            };
            if body.len() == 0 {
                marker
            } else {
                body + marker
            }
        }
    }
}

/// Truncate `text` to fit within `max_body_bytes` (UTF-8), ending at a line
/// boundary; the truncation marker is appended when truncated. The result
/// fits when the budget holds at least the marker; below that an over-long
/// text becomes the marker alone, longer than the budget.
pub fn truncate_tool_result_at_line_boundary(text: &str, max_body_bytes: usize) -> (s: String)
    ensures
        s@ == truncated_result(text@, max_body_bytes as nat),
        max_body_bytes >= byte_len(TRUNCATION_MARKER@) ==> byte_len(s@) <= max_body_bytes,
        byte_len(text@) > max_body_bytes && max_body_bytes <= byte_len(TRUNCATION_MARKER@) ==> s@
            == TRUNCATION_MARKER@,
{
    proof {
        if max_body_bytes >= byte_len(TRUNCATION_MARKER@) {
            lemma_truncated_within(text@, max_body_bytes as nat);
        }
    }
    let t = chars_of(text);
    let marker = chars_of(TRUNCATION_MARKER);
    if crate::text::byte_len_at_most(&t, max_body_bytes) {
        return String::from_str(text);
    }
    let marker_len = crate::text::byte_len_vec(&marker);
    proof {
        reveal_strlit(" [rex: tool output truncated]");
        crate::text::lemma_byte_len_ge_len(marker@);
    }
    let budget = if max_body_bytes > marker_len {
        max_body_bytes - marker_len
    } else {
        0
    };
    if budget == 0 {
        return String::from_str(TRUNCATION_MARKER);
    }
    let k = crate::text::chars_within_bytes_vec(&t, budget);
    proof {
        crate::text::lemma_chars_within_bytes_bounds(t@, budget as nat);
    }
    let prefix = crate::text::slice_vec(&t, 0, k);
    assert(prefix@ =~= t@.take(k as int));
    let body = match last_index_of_vec(&prefix, '\n') {
        Some(idx) => {
            proof {
                lemma_last_index_bounds(prefix@, '\n');
            }
            if idx > 0 {
                crate::text::slice_vec(&prefix, 0, idx)
            } else {
                Vec::new()
            }
        },
        None => Vec::new(),
    };
    assert(body@ == {
        let nl = last_index_of(prefix@, '\n');
        if nl > 0 {
            prefix@.take(nl)
        } else {
            Seq::<char>::empty()
        }
    });
    if body.len() == 0 {
        String::from_str(TRUNCATION_MARKER)
    } else {
        string_of(&concat_vec(&body, &marker))
    }
}


/// `<<TOOL_RESULT:tool>>\n`
pub open spec fn open_delimiter(tool: Seq<char>) -> Seq<char> {
    "<<TOOL_RESULT:"@ + tool + ">>\n"@
}

/// Bytes the delimiters add around a body.
pub open spec fn delimited_overhead(tool: Seq<char>) -> nat {
    byte_len(open_delimiter(tool)) + byte_len(TOOL_RESULT_CLOSE@)
}

/// The framed result with the body cut to `max_body` bytes.
pub open spec fn framed(tool: Seq<char>, body: Seq<char>, max_body: nat) -> Seq<char> {
    open_delimiter(tool) + truncated_result(body, max_body) + TOOL_RESULT_CLOSE@
}

/// Starting from a body budget of `max_body`, the first framing (shrinking the
/// budget one byte at a time) that fits `max_total`, or the one at budget 0.
pub open spec fn framed_within(tool: Seq<char>, body: Seq<char>, max_total: nat, max_body: nat) -> Seq<
    char,
>
    decreases max_body,
{
    let f = framed(tool, body, max_body);
    if byte_len(f) <= max_total || max_body == 0 {
        f
    } else {
        framed_within(tool, body, max_total, (max_body - 1) as nat)
    }
}

/// What `format_delimited_tool_result` returns for a total budget of `max_total` bytes.
pub open spec fn delimited_result(tool: Seq<char>, body: Seq<char>, max_total: nat) -> Seq<char> {
    let overhead = delimited_overhead(tool);
    let max_body: nat = if max_total > overhead {
        (max_total - overhead) as nat
    } else {
        0
    };
    framed_within(tool, body, max_total, max_body)
}

fn open_delimiter_vec(tool: &Vec<char>) -> (r: Vec<char>)
    ensures
        r@ == open_delimiter(tool@),
{
    let mut r = chars_of("<<TOOL_RESULT:");
    crate::text::append_vec(&mut r, tool);
    crate::text::append_vec(&mut r, &chars_of(">>\n"));
    r
}

/// Wrap `body` as `<<TOOL_RESULT:tool>>` … `<<END>>` within the configured
/// tool-result budget, truncating the body at line boundaries when needed.
pub fn format_delimited_tool_result(tool: &str, body: &str, settings: &Settings) -> (s: String)
    ensures
        s@ == delimited_result(tool@, body@, settings.broker_max_tool_result_bytes as nat),
{
    let max_total = settings.broker_max_tool_result_bytes;
    let open = open_delimiter_vec(&chars_of(tool));
    let close = chars_of(TOOL_RESULT_CLOSE);
    let overhead_open = crate::text::byte_len_vec(&open);
    let overhead_close = crate::text::byte_len_vec(&close);
    let overhead = overhead_open.saturating_add(overhead_close);
    let mut max_body: usize = if max_total > overhead {
        max_total - overhead
    } else {
        0
    };
    assert(max_body as nat == {
        let o = delimited_overhead(tool@);
        if max_total > o {
            (max_total - o) as nat
        } else {
            0nat
        }
    });
    loop
        invariant
            framed_within(tool@, body@, max_total as nat, max_body as nat) == delimited_result(
                tool@,
                body@,
                max_total as nat,
            ),
            open@ == open_delimiter(tool@),
            close@ == TOOL_RESULT_CLOSE@,
            max_total == settings.broker_max_tool_result_bytes,
        decreases max_body,
    {
        let truncated = chars_of(&truncate_tool_result_at_line_boundary(body, max_body));
        let formatted = concat_vec(&concat_vec(&open, &truncated), &close);
        assert(formatted@ == framed(tool@, body@, max_body as nat));
        if max_body == 0 || crate::text::byte_len_at_most(&formatted, max_total) {
            return string_of(&formatted);
        }
        max_body = max_body - 1;
    }
}

proof fn lemma_truncated_within(text: Seq<char>, max_body: nat)
    requires
        max_body >= byte_len(TRUNCATION_MARKER@),
    ensures
        byte_len(truncated_result(text, max_body)) <= max_body,
{
    let marker = TRUNCATION_MARKER@;
    if byte_len(text) > max_body {
        let budget = (max_body - byte_len(marker)) as nat;
        if budget > 0 {
            crate::text::lemma_chars_within_bytes_bounds(text, budget);
            let k = chars_within_bytes(text, budget) as int;
            let prefix = text.take(k);
            let nl = last_index_of(prefix, '\n');
            lemma_last_index_bounds(prefix, '\n');
            if nl > 0 {
                crate::text::lemma_byte_len_prefix(prefix, nl);
                assert(prefix.take(nl).len() > 0);
                crate::text::lemma_byte_len_append(prefix.take(nl), marker);
            }
        }
    }
}

/// A framed tool result never exceeds the configured budget once that budget
/// leaves room for the delimiters and the truncation marker.
pub proof fn law_delimited_result_fits_budget(tool: Seq<char>, body: Seq<char>, max_total: nat)
    requires
        max_total >= delimited_overhead(tool) + byte_len(TRUNCATION_MARKER@),
    ensures
        byte_len(delimited_result(tool, body, max_total)) <= max_total,
        delimited_result(tool, body, max_total) == framed(
            tool,
            body,
            (max_total - delimited_overhead(tool)) as nat,
        ),
{
    let max_body = (max_total - delimited_overhead(tool)) as nat;
    lemma_truncated_within(body, max_body);
    let t = truncated_result(body, max_body);
    crate::text::lemma_byte_len_append(open_delimiter(tool), t);
    crate::text::lemma_byte_len_append(open_delimiter(tool) + t, TOOL_RESULT_CLOSE@);
}


/// What a truncation keeps of `text`: all of it, only the marker, or a
/// non-empty start of it that ends right before a line break, then the marker.
pub open spec fn kept_at_line_boundary(text: Seq<char>, kept: Seq<char>) -> bool {
    ||| kept == text
    ||| kept == TRUNCATION_MARKER@
    ||| exists|nl: int|
        0 < nl < text.len() && text[nl] == '\n' && kept == text.take(nl) + TRUNCATION_MARKER@
}

proof fn lemma_truncation_keeps_lines(text: Seq<char>, max_body: nat)
    ensures
        kept_at_line_boundary(text, truncated_result(text, max_body)),
{
    let marker = TRUNCATION_MARKER@;
    if byte_len(text) > max_body {
        let budget: nat = if max_body > byte_len(marker) {
            (max_body - byte_len(marker)) as nat
        } else {
            0
        };
        if budget > 0 {
            crate::text::lemma_chars_within_bytes_bounds(text, budget);
            let k = chars_within_bytes(text, budget) as int;
            let prefix = text.take(k);
            let nl = last_index_of(prefix, '\n');
            lemma_last_index_bounds(prefix, '\n');
            if nl > 0 {
                assert(prefix.take(nl) =~= text.take(nl));
                assert(text[nl] == prefix[nl]);
            }
        }
    }
}

/// Each step of the budget search frames the body at some budget.
proof fn lemma_framed_within_is_framed(tool: Seq<char>, body: Seq<char>, max_total: nat, max_body: nat)
    ensures
        exists|b: nat| b <= max_body && framed_within(tool, body, max_total, max_body) == framed(tool, body, b),
    decreases max_body,
{
    let f = framed(tool, body, max_body);
    if byte_len(f) <= max_total || max_body == 0 {
        assert(framed_within(tool, body, max_total, max_body) == framed(tool, body, max_body));
    } else {
        lemma_framed_within_is_framed(tool, body, max_total, (max_body - 1) as nat);
    }
}

/// A framed tool result always opens with `<<TOOL_RESULT:tool>>` and closes
/// with `<<END>>`; the text between is the whole body, only the truncation
/// marker, or a start of the body cut right before a line break followed by
/// the marker; and a body that fits the budget with its delimiters is kept
/// whole.
pub proof fn law_delimited_result_keeps_lines(tool: Seq<char>, body: Seq<char>, max_total: nat)
    ensures
        exists|kept: Seq<char>|
            delimited_result(tool, body, max_total) == open_delimiter(tool) + kept + TOOL_RESULT_CLOSE@
                && kept_at_line_boundary(body, kept),
        byte_len(body) + delimited_overhead(tool) <= max_total ==> delimited_result(tool, body, max_total)
            == open_delimiter(tool) + body + TOOL_RESULT_CLOSE@,
{
    let overhead = delimited_overhead(tool);
    let max_body: nat = if max_total > overhead {
        (max_total - overhead) as nat
    } else {
        0
    };
    lemma_framed_within_is_framed(tool, body, max_total, max_body);
    let b = choose|b: nat| b <= max_body && framed_within(tool, body, max_total, max_body) == framed(tool, body, b);
    lemma_truncation_keeps_lines(body, b);
    let kept = truncated_result(body, b);
    assert(delimited_result(tool, body, max_total) == open_delimiter(tool) + kept + TOOL_RESULT_CLOSE@);
    if byte_len(body) + overhead <= max_total {
        assert(truncated_result(body, max_body) == body);
        crate::text::lemma_byte_len_append(open_delimiter(tool), body);
        crate::text::lemma_byte_len_append(open_delimiter(tool) + body, TOOL_RESULT_CLOSE@);
        assert(byte_len(framed(tool, body, max_body)) <= max_total);
    }
}

// ---------------------------------------------------------------------------
// Policy gate and workspace paths
// ---------------------------------------------------------------------------

/// `e` is the broker error for the denial described by `spec`.
pub open spec fn is_policy_error(e: BrokerError, spec: (Seq<char>, Seq<char>)) -> bool {
    e matches BrokerError::PolicyDenied { code, message } && code@ == spec.0 && message@ == spec.1
}

/// `Ok(())` for an allow, the policy error for a denial.
fn gate(d: AccessDecision) -> (r: Result<(), BrokerError>)
    ensures
        (d is Allow) ==> (r is Ok),
        d matches AccessDecision::Deny(deny) ==> (r matches Err(e) && is_policy_error(
            e,
            (deny.code@, deny.message@),
        )),
{
    match d {
        AccessDecision::Allow => Ok(()),
        AccessDecision::Deny(deny) => Err(BrokerError::from_deny(deny)),
    }
}

/// The workspace-relative segments of `p` (trimmed): `None` when the path is
/// absolute or climbs out with `..`; `.` and empty segments are dropped.
pub open spec fn relative_parts(p: Seq<char>) -> Option<Seq<Seq<char>>> {
    let t = trim(p);
    let k = crate::path::kept_segments(crate::path::split_char(t, '/'));
    if (t.len() > 0 && t[0] == '/') || k.contains(seq!['.', '.']) {
        None
    } else {
        Some(k)
    }
}

/// A path under the workspace root, as the root and the `/`-joined relative part.
#[derive(Debug, Clone, PartialEq, Eq)]
pub struct WorkspacePath {
    pub root: String,
    pub relative: String,
}

/// The location `relative_path` names under `root`, or `EscapesWorkspace`.
pub open spec fn resolved_target(root: Seq<char>, relative_path: Seq<char>) -> Option<Seq<char>> {
    match relative_parts(relative_path) {
        Some(k) => Some(crate::path::join_with(k, seq!['/'])),
        None => None,
    }
}

fn has_parent_segment(parts: &Vec<Vec<char>>) -> (b: bool)
    ensures
        b == crate::path::views(parts@).contains(seq!['.', '.']),
{
    let dots = vec!['.', '.'];
    assert(dots@ =~= seq!['.', '.']);
    let mut i: usize = 0;
    while i < parts.len()
        invariant
            i <= parts.len(),
            dots@ == seq!['.', '.'],
            forall|j: int| 0 <= j < i ==> parts@[j]@ != seq!['.', '.'],
        decreases parts.len() - i,
    {
        if crate::text::eq_vec(&parts[i], &dots) {
            assert(crate::path::views(parts@)[i as int] == seq!['.', '.']);
            return true;
        }
        i = i + 1;
    }
    assert forall|j: int| 0 <= j < crate::path::views(parts@).len() implies crate::path::views(
        parts@,
    )[j] != seq!['.', '.'] by {
        assert(crate::path::views(parts@)[j] == parts@[j]@);
    }
    false
}

/// Resolve `relative_path` lexically under `root`.
fn resolve_target(root: &String, relative_path: &str) -> (r: Result<WorkspacePath, BrokerError>)
    ensures
        match resolved_target(root@, relative_path@) {
            Some(rel) => r matches Ok(w) && w.root@ == root@ && w.relative@ == rel,
            None => r == Err::<WorkspacePath, BrokerError>(
                BrokerError::EscapesWorkspace(r->Err_0->EscapesWorkspace_0),
            ) && r->Err_0->EscapesWorkspace_0@ == relative_path@,
        },
{
    let t = trim_vec(&chars_of(relative_path));
    let segs = crate::path::split_char_vec(&t, '/');
    let k = crate::path::kept_segments_vec(&segs, 0);
    assert(crate::path::views(segs@).skip(0) =~= crate::path::views(segs@));
    if (t.len() > 0 && t[0] == '/') || has_parent_segment(&k) {
        return Err(BrokerError::EscapesWorkspace(String::from_str(relative_path)));
    }
    let slash = vec!['/'];
    assert(slash@ =~= seq!['/']);
    let joined = crate::path::join_vec(&k, &slash);
    Ok(WorkspacePath { root: root.clone(), relative: string_of(&joined) })
}

/// What `plan_read_file` answers: the policy, the configured root, then the
/// lexical resolution of the path.
pub open spec fn read_target_ok(
    relative_path: Seq<char>,
    mode: Seq<char>,
    settings: Settings,
    r: Result<WorkspacePath, BrokerError>,
) -> bool {
    match broker_deny(BrokerCapability::FsRead, mode, relative_path, false) {
        Some(spec) => r matches Err(e) && is_policy_error(e, spec),
        None => match settings.workspace_root {
            None => r == Err::<WorkspacePath, BrokerError>(BrokerError::NoWorkspaceRoot),
            Some(root) => match resolved_target(root@, relative_path) {
                Some(rel) => r matches Ok(w) && w.root@ == root@ && w.relative@ == rel,
                None => r matches Err(e) && e matches BrokerError::EscapesWorkspace(p) && p@
                    == relative_path,
            },
        },
    }
}

/// The decisions `fs.read` takes before touching the file system: the policy
/// check, the workspace root and the lexical resolution of the path. The
/// caller canonicalizes the result, confirms it with
/// [`confirm_within_workspace`], reads the file and frames its text with
/// [`format_delimited_tool_result`] under the tool name `fs.read`.
pub fn plan_read_file(relative_path: &str, mode: &str, settings: &Settings) -> (r: Result<
    WorkspacePath,
    BrokerError,
>)
    ensures
        read_target_ok(relative_path@, mode@, *settings, r),
{
    let d = evaluate_fs_read(relative_path, mode);
    match gate(d) {
        Err(e) => return Err(e),
        Ok(()) => {},
    }
    let root = match &settings.workspace_root {
        Some(root) => root,
        None => return Err(BrokerError::NoWorkspaceRoot),
    };
    resolve_target(root, relative_path)
}

/// What `plan_list_dir` answers.
pub open spec fn list_target_ok(
    relative_path: Seq<char>,
    mode: Seq<char>,
    settings: Settings,
    r: Result<WorkspacePath, BrokerError>,
) -> bool {
    match broker_deny(BrokerCapability::FsList, mode, relative_path, false) {
        Some(spec) => r matches Err(e) && is_policy_error(e, spec),
        None => match settings.workspace_root {
            None => r == Err::<WorkspacePath, BrokerError>(BrokerError::NoWorkspaceRoot),
            Some(root) => if trim(relative_path).len() == 0 {
                r matches Ok(w) && w.root@ == root@ && w.relative@.len() == 0
            } else {
                match resolved_target(root@, trim(relative_path)) {
                    Some(rel) => r matches Ok(w) && w.root@ == root@ && w.relative@ == rel,
                    None => r matches Err(e) && e matches BrokerError::EscapesWorkspace(p) && p@
                        == trim(relative_path),
                }
            },
        },
    }
}

/// The decisions `fs.list` takes before touching the file system: the policy
/// check, the workspace root, and the directory (the root itself for an empty
/// path). The caller reads the directory and hands the entries to
/// [`finish_list_dir`].
pub fn plan_list_dir(relative_path: &str, mode: &str, settings: &Settings) -> (r: Result<
    WorkspacePath,
    BrokerError,
>)
    ensures
        list_target_ok(relative_path@, mode@, *settings, r),
{
    let d = evaluate_fs_list(relative_path, mode);
    match gate(d) {
        Err(e) => return Err(e),
        Ok(()) => {},
    }
    let root = match &settings.workspace_root {
        Some(root) => root,
        None => return Err(BrokerError::NoWorkspaceRoot),
    };
    let t = trim_vec(&chars_of(relative_path));
    if t.len() == 0 {
        return Ok(WorkspacePath { root: root.clone(), relative: String::new() });
    }
    let trimmed = string_of(&t);
    proof {
        crate::text::lemma_trim_idempotent(relative_path@);
    }
    resolve_target(root, trimmed.as_str())
}

/// The error `fs.list` answers when the path is not a directory.
pub fn not_a_directory(relative_path: &str) -> (e: BrokerError)
    ensures
        e matches BrokerError::Io(m) && m@ == "not a directory: "@ + trim(relative_path@),
{
    let t = trim_vec(&chars_of(relative_path));
    BrokerError::Io(string_of(&concat_vec(&chars_of("not a directory: "), &t)))
}

/// `path` lies under `base`: the components of `base` are a prefix of those of
/// `path` (`Path::starts_with`).
pub open spec fn path_within(base: Seq<char>, path: Seq<char>) -> bool {
    let b = crate::path::path_components(base);
    let p = crate::path::path_components(path);
    b.len() <= p.len() && p.take(b.len() as int) == b
}

/// Confirms that the canonical form of a resolved path still lies under the
/// canonical workspace root (a symbolic link may lead elsewhere).
pub fn confirm_within_workspace(canonical_root: &str, canonical: &str, relative_path: &str) -> (r:
    Result<(), BrokerError>)
    ensures
        path_within(canonical_root@, canonical@) ==> r is Ok,
        !path_within(canonical_root@, canonical@) ==> (r matches Err(e) && (e matches BrokerError::EscapesWorkspace(
            p,
        ) && p@ == relative_path@)),
{
    let b = crate::path::path_components_vec(&chars_of(canonical_root));
    let p = crate::path::path_components_vec(&chars_of(canonical));
    if b.len() > p.len() {
        return Err(BrokerError::EscapesWorkspace(String::from_str(relative_path)));
    }
    let mut i: usize = 0;
    while i < b.len()
        invariant
            i <= b.len() <= p.len(),
            forall|j: int| 0 <= j < i ==> b@[j]@ == p@[j]@,
            crate::path::views(b@) == crate::path::path_components(canonical_root@),
            crate::path::views(p@) == crate::path::path_components(canonical@),
        decreases b.len() - i,
    {
        if !crate::text::eq_vec(&b[i], &p[i]) {
            assert(crate::path::views(b@)[i as int] == b@[i as int]@);
            assert(crate::path::views(p@)[i as int] == p@[i as int]@);
            assert(crate::path::views(p@).take(b.len() as int)[i as int] != crate::path::views(
                b@,
            )[i as int]);
            return Err(BrokerError::EscapesWorkspace(String::from_str(relative_path)));
        }
        i = i + 1;
    }
    assert(crate::path::views(p@).take(b.len() as int) =~= crate::path::views(b@));
    Ok(())
}

/// Largest text `fs.write` and `plan.save` accept, in UTF-8 bytes.
pub open spec fn capped_len(s: Seq<char>) -> nat {
    if byte_len(s) <= usize::MAX {
        byte_len(s)
    } else {
        usize::MAX as nat
    }
}

/// What `plan_write_file` answers.
pub open spec fn write_target_ok(
    relative_path: Seq<char>,
    content: Seq<char>,
    mode: Seq<char>,
    settings: Settings,
    r: Result<WorkspacePath, BrokerError>,
) -> bool {
    match broker_deny(BrokerCapability::FsWrite, mode, relative_path, false) {
        Some(spec) => r matches Err(e) && is_policy_error(e, spec),
        None => if byte_len(content) > MAX_WRITE_BYTES {
            r == Err::<WorkspacePath, BrokerError>(
                BrokerError::WriteTooLarge(capped_len(content) as usize, MAX_WRITE_BYTES),
            )
        } else {
            match settings.workspace_root {
                None => r == Err::<WorkspacePath, BrokerError>(BrokerError::NoWorkspaceRoot),
                Some(root) => match resolved_target(root@, relative_path) {
                    Some(rel) => r matches Ok(w) && w.root@ == root@ && w.relative@ == rel,
                    None => r matches Err(e) && e matches BrokerError::EscapesWorkspace(p) && p@
                        == relative_path,
                },
            }
        },
    }
}

/// The decisions `fs.write` takes before touching the file system: the policy
/// check, the size cap, the workspace root and the lexical resolution. The
/// caller confirms the parent directory with [`confirm_within_workspace`],
/// creates it and writes the file.
pub fn plan_write_file(relative_path: &str, content: &str, mode: &str, settings: &Settings) -> (r:
    Result<WorkspacePath, BrokerError>)
    ensures
        write_target_ok(relative_path@, content@, mode@, *settings, r),
{
    let d = evaluate_fs_write(relative_path, mode);
    match gate(d) {
        Err(e) => return Err(e),
        Ok(()) => {},
    }
    let c = chars_of(content);
    if !crate::text::byte_len_at_most(&c, MAX_WRITE_BYTES) {
        return Err(BrokerError::WriteTooLarge(crate::text::byte_len_vec(&c), MAX_WRITE_BYTES));
    }
    let root = match &settings.workspace_root {
        Some(root) => root,
        None => return Err(BrokerError::NoWorkspaceRoot),
    };
    resolve_target(root, relative_path)
}

/// What `plan_save_plan` answers.
pub open spec fn plan_target_ok(
    relative_path: Seq<char>,
    content: Seq<char>,
    mode: Seq<char>,
    settings: Settings,
    r: Result<WorkspacePath, BrokerError>,
) -> bool {
    match broker_deny(BrokerCapability::PlanSave, mode, relative_path, false) {
        Some(spec) => r matches Err(e) && is_policy_error(e, spec),
        None => if byte_len(content) > MAX_WRITE_BYTES {
            r == Err::<WorkspacePath, BrokerError>(
                BrokerError::PlanTooLarge(capped_len(content) as usize, MAX_WRITE_BYTES),
            )
        } else {
            match settings.workspace_root {
                None => r == Err::<WorkspacePath, BrokerError>(BrokerError::NoWorkspaceRoot),
                Some(root) => match resolved_target(root@, plan_save_path(relative_path)) {
                    Some(rel) => r matches Ok(w) && w.root@ == root@ && w.relative@ == rel,
                    None => r matches Err(e) && e matches BrokerError::EscapesWorkspace(p) && p@
                        == plan_save_path(relative_path),
                },
            }
        },
    }
}

/// The decisions `plan.save` takes before touching the file system: the
/// policy check, the size cap, the workspace root and the plan path under
/// `.rex/plans/`. The caller proceeds as for [`plan_write_file`].
pub fn plan_save_plan(relative_path: &str, content: &str, mode: &str, settings: &Settings) -> (r:
    Result<WorkspacePath, BrokerError>)
    ensures
        plan_target_ok(relative_path@, content@, mode@, *settings, r),
{
    let d = evaluate_plan_save(relative_path, mode);
    match gate(d) {
        Err(e) => return Err(e),
        Ok(()) => {},
    }
    let c = chars_of(content);
    if !crate::text::byte_len_at_most(&c, MAX_WRITE_BYTES) {
        return Err(BrokerError::PlanTooLarge(crate::text::byte_len_vec(&c), MAX_WRITE_BYTES));
    }
    let path = crate::access_policy::normalize_plan_save_path(relative_path);
    let root = match &settings.workspace_root {
        Some(root) => root,
        None => return Err(BrokerError::NoWorkspaceRoot),
    };
    resolve_target(root, path.as_str())
}


// ---------------------------------------------------------------------------
// exec.shell
// ---------------------------------------------------------------------------

/// The shell allowlist as matched: each entry trimmed and lowercased, empty
/// entries dropped, in configuration order.
pub open spec fn normalized_allowlist(list: Seq<String>) -> Seq<Seq<char>>
    decreases list.len(),
{
    if list.len() == 0 {
        Seq::<Seq<char>>::empty()
    } else {
        let rest = normalized_allowlist(list.drop_last());
        let e = lower(trim(list.last()@));
        if e.len() > 0 {
            rest.push(e)
        } else {
            rest
        }
    }
}

/// The configured shell allowlist, trimmed, lowercased, without empty entries.
pub fn shell_allowlist(settings: &Settings) -> (r: Vec<String>)
    ensures
        r@.map_values(|x: String| x@) == normalized_allowlist(settings.broker_shell_allowlist@),
{
    let list = &settings.broker_shell_allowlist;
    let mut r: Vec<String> = Vec::new();
    let mut i: usize = 0;
    while i < list.len()
        invariant
            i <= list.len(),
            r@.map_values(|x: String| x@) == normalized_allowlist(list@.take(i as int)),
            list == &settings.broker_shell_allowlist,
        decreases list.len() - i,
    {
        assert(list@.take(i + 1).drop_last() =~= list@.take(i as int));
        let e = crate::text::lower_vec(&trim_vec(&chars_of(list[i].as_str())));
        if e.len() > 0 {
            let ghost before = r@;
            r.push(string_of(&e));
            assert(r@.map_values(|x: String| x@) =~= before.map_values(|x: String| x@).push(e@));
        }
        i = i + 1;
    }
    assert(list@.take(list.len() as int) =~= list@);
    r
}

/// A command the broker runs: the program, its arguments and the directory
/// (the workspace root) it runs in.
#[derive(Debug, Clone, PartialEq, Eq)]
pub struct ShellCommand {
    pub program: String,
    pub args: Vec<String>,
    pub cwd: String,
}

/// What `plan_exec_shell` answers.
pub open spec fn shell_plan_ok(
    command: Seq<char>,
    mode: Seq<char>,
    settings: Settings,
    r: Result<ShellCommand, BrokerError>,
) -> bool {
    let w = crate::text::words(trim(command));
    match broker_deny(BrokerCapability::ExecShell, mode, Seq::<char>::empty(), false) {
        Some(spec) => r matches Err(e) && is_policy_error(e, spec),
        None => if w.len() == 0 {
            r matches Err(e) && (e matches BrokerError::CommandNotAllowed(c) && c@ == "(empty)"@)
        } else if !normalized_allowlist(settings.broker_shell_allowlist@).contains(lower(w[0])) {
            r matches Err(e) && (e matches BrokerError::CommandNotAllowed(c) && c@ == w[0])
        } else {
            match settings.workspace_root {
                None => r == Err::<ShellCommand, BrokerError>(BrokerError::NoWorkspaceRoot),
                Some(root) => r matches Ok(c) && c.program@ == w[0] && c.args@.map_values(
                    |x: String| x@,
                ) == w.drop_first() && c.cwd@ == root@,
            }
        },
    }
}

fn contains_text(list: &Vec<String>, item: &Vec<char>) -> (b: bool)
    ensures
        b == list@.map_values(|x: String| x@).contains(item@),
{
    let mut i: usize = 0;
    while i < list.len()
        invariant
            i <= list.len(),
            forall|j: int| 0 <= j < i ==> list@[j]@ != item@,
        decreases list.len() - i,
    {
        if crate::text::eq_vec(&chars_of(list[i].as_str()), item) {
            assert(list@.map_values(|x: String| x@)[i as int] == item@);
            return true;
        }
        i = i + 1;
    }
    let ghost m = list@.map_values(|x: String| x@);
    assert forall|j: int| 0 <= j < m.len() implies #[trigger] m[j] != item@ by {
        assert(list@.map_values(|x: String| x@)[j] == list@[j]@);
    }
    false
}

fn strings_of(parts: &Vec<Vec<char>>, from: usize) -> (r: Vec<String>)
    requires
        from <= parts.len(),
    ensures
        r@.map_values(|x: String| x@) == crate::path::views(parts@).skip(from as int),
{
    let mut r: Vec<String> = Vec::new();
    let mut i: usize = from;
    while i < parts.len()
        invariant
            from <= i <= parts.len(),
            r@.map_values(|x: String| x@) == crate::path::views(parts@).subrange(
                from as int,
                i as int,
            ),
        decreases parts.len() - i,
    {
        let ghost before = r@;
        r.push(string_of(&parts[i]));
        assert(r@.map_values(|x: String| x@) =~= before.map_values(|x: String| x@).push(
            parts@[i as int]@,
        ));
        assert(crate::path::views(parts@).subrange(from as int, i + 1) =~= crate::path::views(
            parts@,
        ).subrange(from as int, i as int).push(parts@[i as int]@));
        assert(r@.map_values(|x: String| x@) =~= crate::path::views(parts@).subrange(
            from as int,
            i + 1,
        ));
        i = i + 1;
    }
    assert(crate::path::views(parts@).subrange(from as int, parts.len() as int)
        =~= crate::path::views(parts@).skip(from as int));
    r
}

/// The decisions `exec.shell` takes before a process is started: the policy
/// check, the program (first word) against the allowlist, and the workspace
/// root as working directory. The caller runs the command and hands its
/// outcome to [`finish_exec_shell`].
pub fn plan_exec_shell(command: &str, mode: &str, settings: &Settings) -> (r: Result<
    ShellCommand,
    BrokerError,
>)
    ensures
        shell_plan_ok(command@, mode@, *settings, r),
{
    let d = evaluate_exec_shell(mode);
    match gate(d) {
        Err(e) => return Err(e),
        Ok(()) => {},
    }
    let t = trim_vec(&chars_of(command));
    let w = crate::text::words_vec(&t);
    if w.len() == 0 {
        return Err(BrokerError::CommandNotAllowed(String::from_str("(empty)")));
    }
    assert(crate::path::views(w@)[0] == w@[0]@);
    let program = crate::text::lower_vec(&w[0]);
    let allow = shell_allowlist(settings);
    if !contains_text(&allow, &program) {
        return Err(BrokerError::CommandNotAllowed(string_of(&w[0])));
    }
    let root = match &settings.workspace_root {
        Some(root) => root,
        None => return Err(BrokerError::NoWorkspaceRoot),
    };
    let args = strings_of(&w, 1);
    assert(crate::path::views(w@).skip(1) =~= crate::path::views(w@).drop_first());
    Ok(ShellCommand { program: string_of(&w[0]), args, cwd: root.clone() })
}

/// Decimal text of a signed integer.
pub open spec fn signed_decimal(i: int) -> Seq<char> {
    if i < 0 {
        seq!['-'] + decimal((-i) as nat)
    } else {
        decimal(i as nat)
    }
}

/// `{:?}` of an exit code.
pub open spec fn exit_code_text(code: Option<i32>) -> Seq<char> {
    match code {
        Some(c) => "Some("@ + signed_decimal(c as int) + ")"@,
        None => "None"@,
    }
}

fn signed_decimal_vec(i: i32) -> (r: Vec<char>)
    ensures
        r@ == signed_decimal(i as int),
{
    if i < 0 {
        let m: i64 = -(i as i64);
        let mut r = vec!['-'];
        crate::text::append_vec(&mut r, &crate::text::decimal_vec(m as u64));
        r
    } else {
        crate::text::decimal_vec(i as u64)
    }
}

/// The body of a shell tool result: stdout alone, stderr alone under a
/// heading, or both separated.
pub open spec fn shell_body(stdout: Seq<char>, stderr: Seq<char>) -> Seq<char> {
    if stdout.len() == 0 && stderr.len() == 0 {
        Seq::<char>::empty()
    } else if stderr.len() == 0 {
        stdout
    } else if stdout.len() == 0 {
        "stderr:\n"@ + stderr
    } else {
        "stdout:\n"@ + stdout + "\n---\nstderr:\n"@ + stderr
    }
}

/// Combine the captured output of a shell command into one body.
pub fn format_shell_result_body(stdout: &str, stderr: &str) -> (s: String)
    ensures
        s@ == shell_body(stdout@, stderr@),
{
    let o = chars_of(stdout);
    let e = chars_of(stderr);
    if o.len() == 0 && e.len() == 0 {
        return String::new();
    }
    if e.len() == 0 {
        return String::from_str(stdout);
    }
    if o.len() == 0 {
        return string_of(&concat_vec(&chars_of("stderr:\n"), &e));
    }
    let mut r = chars_of("stdout:\n");
    crate::text::append_vec(&mut r, &o);
    crate::text::append_vec(&mut r, &chars_of("\n---\nstderr:\n"));
    crate::text::append_vec(&mut r, &e);
    string_of(&r)
}

/// The answer to `exec.shell` once the process has finished: a failure for a
/// non-zero exit, else the framed output on `stdout` and an empty `stderr`.
pub fn finish_exec_shell(
    success: bool,
    exit_code: Option<i32>,
    stdout: &str,
    stderr: &str,
    settings: &Settings,
) -> (r: Result<ShellResult, BrokerError>)
    ensures
        !success ==> (r matches Err(e) && (e matches BrokerError::ShellFailed(m) && m@ == "exit="@
            + exit_code_text(exit_code))),
        success ==> (r matches Ok(res) && res.stdout@ == delimited_result(
            "exec.shell"@,
            shell_body(stdout@, stderr@),
            settings.broker_max_tool_result_bytes as nat,
        ) && res.stderr@.len() == 0),
{
    if !success {
        let mut m = chars_of("exit=");
        match exit_code {
            Some(c) => {
                crate::text::append_vec(&mut m, &chars_of("Some("));
                crate::text::append_vec(&mut m, &signed_decimal_vec(c));
                crate::text::append_vec(&mut m, &chars_of(")"));
            },
            None => {
                crate::text::append_vec(&mut m, &chars_of("None"));
            },
        }
        return Err(BrokerError::ShellFailed(string_of(&m)));
    }
    let body = format_shell_result_body(stdout, stderr);
    Ok(
        ShellResult {
            stdout: format_delimited_tool_result("exec.shell", body.as_str(), settings),
            stderr: String::new(),
        },
    )
}

// ---------------------------------------------------------------------------
// web.search
// ---------------------------------------------------------------------------

/// What `broker_web_search` answers.
pub open spec fn web_search_ok(
    query: Seq<char>,
    mode: Seq<char>,
    settings: Settings,
    r: Result<Vec<WebSearchHit>, BrokerError>,
) -> bool {
    match broker_deny(
        BrokerCapability::WebSearch,
        mode,
        Seq::<char>::empty(),
        settings.search_enabled,
    ) {
        Some(spec) => r matches Err(e) && is_policy_error(e, spec),
        None => if trim(query).len() == 0 {
            r matches Err(e) && (e matches BrokerError::Io(m) && m@ == "query must not be empty"@)
        } else if settings.search_provider@ == "mock"@ {
            r matches Ok(hits) && hits@.len() == 1 && hits@[0].title@ == "Mock result for \""@
                + trim(query) + "\""@ && hits@[0].url@ == "https://example.com/mock"@
                && hits@[0].snippet@ == "provider=mock max_results="@ + decimal(
                settings.search_max_results as nat,
            )
        } else {
            r matches Err(e) && (e matches BrokerError::Io(m) && m@
                == "web search provider not configured; set search.provider to mock for local demos"@)
        },
    }
}

/// Web search answers only in `ask` mode with search enabled, for a query
/// that is not blank and the `mock` provider, and then with exactly one hit;
/// otherwise it fails.
pub proof fn law_web_search_outcome(
    query: Seq<char>,
    mode: Seq<char>,
    settings: Settings,
    r: Result<Vec<WebSearchHit>, BrokerError>,
)
    requires
        web_search_ok(query, mode, settings, r),
    ensures
        r is Ok <==> (crate::l1_cache::mode_spec(mode) == "ask"@ && settings.search_enabled && trim(query).len() > 0
            && settings.search_provider@ == "mock"@),
        r matches Ok(hits) ==> hits@.len() == 1,
{
}

/// `web.search`: the policy, a non-empty query, and the configured provider
/// (only the local `mock` provider answers).
pub fn broker_web_search(query: &str, mode: &str, settings: &Settings) -> (r: Result<
    Vec<WebSearchHit>,
    BrokerError,
>)
    ensures
        web_search_ok(query@, mode@, *settings, r),
{
    let d = evaluate_broker(BrokerCapability::WebSearch, mode, None, settings);
    proof {
        assert(crate::access_policy::opt_text(None) =~= Seq::<char>::empty());
    }
    match gate(d) {
        Err(e) => return Err(e),
        Ok(()) => {},
    }
    let t = trim_vec(&chars_of(query));
    if t.len() == 0 {
        return Err(BrokerError::Io(String::from_str("query must not be empty")));
    }
    let mock = chars_of("mock");
    if crate::text::eq_vec(&chars_of(settings.search_provider.as_str()), &mock) {
        let mut title = chars_of("Mock result for \"");
        crate::text::append_vec(&mut title, &t);
        crate::text::append_vec(&mut title, &chars_of("\""));
        let hit = WebSearchHit {
            title: string_of(&title),
            url: String::from_str("https://example.com/mock"),
            snippet: crate::text::prefixed_decimal(
                "provider=mock max_results=",
                settings.search_max_results as u64,
            ),
        };
        let mut hits: Vec<WebSearchHit> = Vec::new();
        hits.push(hit);
        return Ok(hits);
    }
    Err(
        BrokerError::Io(
            String::from_str(
                "web search provider not configured; set search.provider to mock for local demos",
            ),
        ),
    )
}


// ---------------------------------------------------------------------------
// workspace.search
// ---------------------------------------------------------------------------

pub const WORKSPACE_SEARCH_MAX_DEPTH: usize = 12;
pub const WORKSPACE_SEARCH_MAX_DIRS: usize = 96;
pub const WORKSPACE_SEARCH_MAX_MATCHES: usize = 8;

/// Directory names the search never descends into.
pub open spec fn is_skipped_dir(name: Seq<char>) -> bool {
    name == ".git"@ || name == "node_modules"@ || name == "target"@ || name == "__pycache__"@
        || name == ".venv"@ || name == "venv"@ || name == "dist"@ || name == "build"@
}

/// File names whose text the content search reads.
pub open spec fn is_searchable(path: Seq<char>) -> bool {
    let l = lower(path);
    crate::text::ends_with(l, ".rs"@) || crate::text::ends_with(l, ".py"@)
        || crate::text::ends_with(l, ".md"@) || crate::text::ends_with(l, ".toml"@)
        || crate::text::ends_with(l, ".json"@) || crate::text::ends_with(l, ".yaml"@)
        || crate::text::ends_with(l, ".yml"@) || crate::text::ends_with(l, ".tsx"@)
        || crate::text::ends_with(l, ".ts"@) || crate::text::ends_with(l, ".jsx"@)
        || crate::text::ends_with(l, ".js"@) || crate::text::ends_with(l, ".go"@)
        || crate::text::ends_with(l, ".sh"@)
}

fn is_one_of(v: &Vec<char>, options: &[&str]) -> (b: bool)
    ensures
        b == exists|i: int| 0 <= i < options@.len() && v@ == options@[i]@,
{
    let mut i: usize = 0;
    while i < options.len()
        invariant
            i <= options@.len(),
            forall|j: int| 0 <= j < i ==> v@ != options@[j]@,
        decreases options@.len() - i,
    {
        if crate::text::eq_vec(v, &chars_of(options[i])) {
            return true;
        }
        i = i + 1;
    }
    false
}

fn skipped_dir(name: &Vec<char>) -> (b: bool)
    ensures
        b == is_skipped_dir(name@),
{
    let options: [&str; 8] = [".git", "node_modules", "target", "__pycache__", ".venv", "venv", "dist", "build"];
    let r = is_one_of(name, &options);
    proof {
        assert(options@[0]@ == ".git"@);
        assert(options@[1]@ == "node_modules"@);
        assert(options@[2]@ == "target"@);
        assert(options@[3]@ == "__pycache__"@);
        assert(options@[4]@ == ".venv"@);
        assert(options@[5]@ == "venv"@);
        assert(options@[6]@ == "dist"@);
        assert(options@[7]@ == "build"@);
        assert(options@.len() == 8);
        if is_skipped_dir(name@) {
            if name@ == ".git"@ {
                assert(name@ == options@[0]@);
            } else if name@ == "node_modules"@ {
                assert(name@ == options@[1]@);
            } else if name@ == "target"@ {
                assert(name@ == options@[2]@);
            } else if name@ == "__pycache__"@ {
                assert(name@ == options@[3]@);
            } else if name@ == ".venv"@ {
                assert(name@ == options@[4]@);
            } else if name@ == "venv"@ {
                assert(name@ == options@[5]@);
            } else if name@ == "dist"@ {
                assert(name@ == options@[6]@);
            } else {
                assert(name@ == options@[7]@);
            }
        }
    }
    r
}

/// Whether the content search reads the file at `path` (by extension).
pub fn is_searchable_extension(path: &str) -> (b: bool)
    ensures
        b == is_searchable(path@),
{
    let l = crate::text::lower_vec(&chars_of(path));
    crate::text::ends_with_vec(&l, &chars_of(".rs")) || crate::text::ends_with_vec(
        &l,
        &chars_of(".py"),
    ) || crate::text::ends_with_vec(&l, &chars_of(".md")) || crate::text::ends_with_vec(
        &l,
        &chars_of(".toml"),
    ) || crate::text::ends_with_vec(&l, &chars_of(".json")) || crate::text::ends_with_vec(
        &l,
        &chars_of(".yaml"),
    ) || crate::text::ends_with_vec(&l, &chars_of(".yml")) || crate::text::ends_with_vec(
        &l,
        &chars_of(".tsx"),
    ) || crate::text::ends_with_vec(&l, &chars_of(".ts")) || crate::text::ends_with_vec(
        &l,
        &chars_of(".jsx"),
    ) || crate::text::ends_with_vec(&l, &chars_of(".js")) || crate::text::ends_with_vec(
        &l,
        &chars_of(".go"),
    ) || crate::text::ends_with_vec(&l, &chars_of(".sh"))
}

/// A workspace search in progress: a depth-first walk of the workspace from
/// its root, bounded in depth, in directories visited and in matches.
///
/// The caller drives it: [`WorkspaceSearch::next_dir`] names the next
/// directory to read, [`WorkspaceSearch::visit_entry`] decides on each entry
/// read from it, [`WorkspaceSearch::record_content`] takes the text of a file
/// that the content search asked for, and [`WorkspaceSearch::finish`] frames
/// the answer.
#[derive(Debug)]
pub struct WorkspaceSearch {
    pub kind: WorkspaceSearchKind,
    /// The query, trimmed and lowercased.
    pub needle: String,
    /// Most matches reported (1 to 8).
    pub limit: usize,
    /// Directories still to read, as workspace-relative path and depth; the
    /// last one is read next.
    pub queue: Vec<(String, usize)>,
    pub visited: usize,
    pub matches: Vec<String>,
}

/// What the walk does with one directory entry.
#[derive(Debug, PartialEq, Eq)]
pub enum SearchStep {
    /// Enough matches: stop reading this directory.
    StopDir,
    /// Nothing to do for this entry.
    Skip,
    /// The entry is a directory and was queued.
    Descend,
    /// The entry's path matched and was recorded.
    Matched,
    /// The content search wants the text of this workspace-relative file.
    ReadFile(String),
}

/// The workspace-relative path of entry `name` in directory `dir`.
pub open spec fn entry_path(dir: Seq<char>, name: Seq<char>) -> Seq<char> {
    if dir.len() == 0 {
        name
    } else {
        dir + seq!['/'] + name
    }
}

/// The pieces of `text` between line feeds; a non-empty query without line
/// breaks matches the same pieces, with the same numbers, as `str::lines`.
pub open spec fn line_pieces(text: Seq<char>) -> Seq<Seq<char>> {
    crate::path::split_char(text, '\n')
}

/// Index of the first piece whose lowercase form contains `needle`.
pub open spec fn first_matching_line(pieces: Seq<Seq<char>>, needle: Seq<char>) -> Option<int>
    decreases pieces.len(),
{
    if pieces.len() == 0 {
        None
    } else {
        match first_matching_line(pieces.drop_last(), needle) {
            Some(i) => Some(i),
            None => if crate::text::contains(lower(pieces.last()), needle) {
                Some(pieces.len() - 1)
            } else {
                None
            },
        }
    }
}

impl WorkspaceSearch {
    /// The bounds the walk keeps.
    pub open spec fn wf(&self) -> bool {
        &&& 1 <= self.limit <= WORKSPACE_SEARCH_MAX_MATCHES
        &&& self.matches@.len() <= self.limit
        &&& self.visited <= WORKSPACE_SEARCH_MAX_DIRS
    }

    /// The match texts.
    pub open spec fn match_texts(&self) -> Seq<Seq<char>> {
        self.matches@.map_values(|m: String| m@)
    }

    /// The next directory to read, or `None` when the walk is over (nothing
    /// queued, the directory budget spent, or enough matches).
    pub fn next_dir(&mut self) -> (r: Option<(String, usize)>)
        requires
            old(self).wf(),
        ensures
            final(self).wf(),
            old(self).queue@.len() == 0 || old(self).visited >= WORKSPACE_SEARCH_MAX_DIRS
                || old(self).matches@.len() >= old(self).limit ==> (r is None && *final(self)
                == *old(self)),
            !(old(self).queue@.len() == 0 || old(self).visited >= WORKSPACE_SEARCH_MAX_DIRS
                || old(self).matches@.len() >= old(self).limit) ==> {
                &&& r == Some(old(self).queue@.last())
                &&& final(self).queue@ == old(self).queue@.drop_last()
                &&& final(self).visited == old(self).visited + 1
                &&& final(self).matches == old(self).matches
                &&& final(self).needle == old(self).needle
                &&& final(self).limit == old(self).limit
                &&& final(self).kind == old(self).kind
            },
    {
        if self.queue.len() == 0 || self.visited >= WORKSPACE_SEARCH_MAX_DIRS || self.matches.len()
            >= self.limit {
            return None;
        }
        let next = self.queue.pop();
        self.visited = self.visited + 1;
        next
    }

    /// Decide on entry `name` of directory `dir_path` (at `depth`).
    pub fn visit_entry(&mut self, dir_path: &str, depth: usize, name: &str, is_dir: bool) -> (r:
        SearchStep)
        requires
            old(self).wf(),
        ensures
            final(self).wf(),
            final(self).kind == old(self).kind,
            final(self).needle == old(self).needle,
            final(self).limit == old(self).limit,
            final(self).visited == old(self).visited,
            ({
                let rel = entry_path(dir_path@, name@);
                let hidden = name@.len() > 0 && name@[0] == '.' && name@ != ".rex"@;
                if old(self).matches@.len() >= old(self).limit {
                    r == SearchStep::StopDir && *final(self) == *old(self)
                } else if hidden {
                    r == SearchStep::Skip && *final(self) == *old(self)
                } else if is_dir {
                    if is_skipped_dir(name@) || depth >= WORKSPACE_SEARCH_MAX_DEPTH {
                        r == SearchStep::Skip && *final(self) == *old(self)
                    } else {
                        r == SearchStep::Descend && final(self).matches == old(self).matches
                            && final(self).queue@.len() == old(self).queue@.len() + 1
                            && final(self).queue@.drop_last() == old(self).queue@
                            && final(self).queue@.last().0@ == rel && final(self).queue@.last().1
                            == depth + 1
                    }
                } else if old(self).kind == WorkspaceSearchKind::Basename {
                    if crate::text::contains(lower(name@), old(self).needle@)
                        || crate::text::contains(lower(rel), old(self).needle@) {
                        r == SearchStep::Matched && final(self).queue == old(self).queue
                            && final(self).match_texts() == old(self).match_texts().push(rel)
                    } else {
                        r == SearchStep::Skip && *final(self) == *old(self)
                    }
                } else if is_searchable(rel) {
                    r matches SearchStep::ReadFile(p) && p@ == rel && *final(self) == *old(self)
                } else {
                    r == SearchStep::Skip && *final(self) == *old(self)
                }
            }),
    {
        if self.matches.len() >= self.limit {
            return SearchStep::StopDir;
        }
        let n = chars_of(name);
        let rex = chars_of(".rex");
        if n.len() > 0 && n[0] == '.' && !crate::text::eq_vec(&n, &rex) {
            return SearchStep::Skip;
        }
        let d = chars_of(dir_path);
        let rel = if d.len() == 0 {
            crate::text::clone_chars(&n)
        } else {
            let mut r = crate::text::clone_chars(&d);
            r.push('/');
            crate::text::append_vec(&mut r, &n);
            r
        };
        assert(rel@ == entry_path(dir_path@, name@));
        if is_dir {
            if skipped_dir(&n) || depth >= WORKSPACE_SEARCH_MAX_DEPTH {
                return SearchStep::Skip;
            }
            self.queue.push((string_of(&rel), depth + 1));
            return SearchStep::Descend;
        }
        let needle = chars_of(self.needle.as_str());
        match self.kind {
            WorkspaceSearchKind::Basename => {
                if crate::text::contains_vec(&crate::text::lower_vec(&n), &needle)
                    || crate::text::contains_vec(&crate::text::lower_vec(&rel), &needle) {
                    let ghost before = self.matches@;
                    self.matches.push(string_of(&rel));
                    assert(self.match_texts() =~= before.map_values(|m: String| m@).push(rel@));
                    SearchStep::Matched
                } else {
                    SearchStep::Skip
                }
            },
            WorkspaceSearchKind::Content => {
                let path = string_of(&rel);
                if is_searchable_extension(path.as_str()) {
                    SearchStep::ReadFile(path)
                } else {
                    SearchStep::Skip
                }
            },
        }
    }

    /// Take the text of a file the content search asked for: its first line
    /// containing the query is recorded as `path:line` (lines counted from 1).
    pub fn record_content(&mut self, rel: &str, text: &str)
        requires
            old(self).wf(),
        ensures
            final(self).wf(),
            final(self).kind == old(self).kind,
            final(self).needle == old(self).needle,
            final(self).limit == old(self).limit,
            final(self).visited == old(self).visited,
            final(self).queue == old(self).queue,
            ({
                let found = first_matching_line(line_pieces(text@), old(self).needle@);
                if old(self).matches@.len() < old(self).limit && found is Some {
                    final(self).match_texts() == old(self).match_texts().push(
                        rel@ + seq![':'] + decimal((found->0 + 1) as nat),
                    )
                } else {
                    final(self).matches == old(self).matches
                }
            }),
    {
        if self.matches.len() >= self.limit {
            return;
        }
        let pieces = crate::path::split_char_vec(&chars_of(text), '\n');
        let needle = chars_of(self.needle.as_str());
        let mut i: usize = 0;
        while i < pieces.len()
            invariant
                i <= pieces.len(),
                needle@ == self.needle@,
                *self == *old(self),
                self.wf(),
                self.matches@.len() < self.limit,
                crate::path::views(pieces@) == line_pieces(text@),
                first_matching_line(crate::path::views(pieces@).take(i as int), needle@) is None,
            decreases pieces.len() - i,
        {
            let ghost p = crate::path::views(pieces@);
            assert(p.take(i + 1).drop_last() =~= p.take(i as int));
            assert(p.take(i + 1).last() == pieces@[i as int]@);
            if crate::text::contains_vec(&crate::text::lower_vec(&pieces[i]), &needle) {
                proof {
                    assert(crate::text::contains(lower(p.take(i + 1).last()), needle@));
                    assert(first_matching_line(p.take(i + 1), needle@) == Some(i as int));
                    lemma_first_match_prefix(p, needle@, i + 1);
                    assert(first_matching_line(line_pieces(text@), self.needle@) == Some(i as int));
                }
                let mut m = chars_of(rel);
                m.push(':');
                let n: u64 = (i as u64) + 1;
                crate::text::append_vec(&mut m, &crate::text::decimal_vec(n));
                assert(m@ =~= rel@ + seq![':'] + decimal((i + 1) as nat));
                let ghost before = self.matches@;
                self.matches.push(string_of(&m));
                assert(self.match_texts() =~= before.map_values(|x: String| x@).push(m@));
                return;
            }
            i = i + 1;
        }
        proof {
            assert(crate::path::views(pieces@).take(pieces.len() as int) =~= crate::path::views(
                pieces@,
            ));
        }
    }

    /// The framed answer: the matches one per line, or `no matches`.
    pub fn finish(&self, settings: &Settings) -> (s: String)
        ensures
            s@ == delimited_result(
                "workspace.search"@,
                if self.matches@.len() == 0 {
                    "no matches"@
                } else {
                    crate::path::join_with(self.match_texts(), seq!['\n'])
                },
                settings.broker_max_tool_result_bytes as nat,
            ),
    {
        let body = if self.matches.len() == 0 {
            String::from_str("no matches")
        } else {
            let mut parts: Vec<Vec<char>> = Vec::new();
            let mut i: usize = 0;
            while i < self.matches.len()
                invariant
                    i <= self.matches.len(),
                    crate::path::views(parts@) == self.match_texts().take(i as int),
                decreases self.matches.len() - i,
            {
                let ghost before = parts@;
                parts.push(chars_of(self.matches[i].as_str()));
                assert(crate::path::views(parts@) =~= crate::path::views(before).push(
                    self.matches@[i as int]@,
                ));
                assert(self.match_texts().take(i + 1) =~= self.match_texts().take(i as int).push(
                    self.matches@[i as int]@,
                ));
                assert(crate::path::views(parts@) =~= self.match_texts().take(i + 1));
                i = i + 1;
            }
            assert(self.match_texts().take(self.matches.len() as int) =~= self.match_texts());
            let nl = vec!['\n'];
            assert(nl@ =~= seq!['\n']);
            string_of(&crate::path::join_vec(&parts, &nl))
        };
        format_delimited_tool_result("workspace.search", body.as_str(), settings)
    }
}

/// A match found within the first `k` pieces is the first match overall.
proof fn lemma_first_match_prefix(p: Seq<Seq<char>>, needle: Seq<char>, k: int)
    requires
        0 <= k <= p.len(),
        first_matching_line(p.take(k), needle) is Some,
    ensures
        first_matching_line(p, needle) == first_matching_line(p.take(k), needle),
    decreases p.len(),
{
    if k < p.len() {
        assert(p.drop_last().take(k) =~= p.take(k));
        lemma_first_match_prefix(p.drop_last(), needle, k);
    } else {
        assert(p.take(k) =~= p);
    }
}

/// `workspace.search`: the policy (open to every mode), a non-empty query and
/// the configured root start a walk of the workspace; the match budget is
/// `max_results` clamped to 1..=8.
pub fn broker_workspace_search(
    query: &str,
    kind: WorkspaceSearchKind,
    mode: &str,
    max_results: usize,
    settings: &Settings,
) -> (r: Result<WorkspaceSearch, BrokerError>)
    ensures
        trim(query@).len() == 0 ==> (r matches Err(e) && (e matches BrokerError::Io(m) && m@
            == "query must not be empty"@)),
        trim(query@).len() > 0 && settings.workspace_root is None ==> r == Err::<
            WorkspaceSearch,
            BrokerError,
        >(BrokerError::NoWorkspaceRoot),
        trim(query@).len() > 0 && settings.workspace_root is Some ==> (r matches Ok(s) && s.wf()
            && s.kind == kind && s.needle@ == lower(trim(query@)) && s.limit == (if max_results
            < 1 {
            1
        } else if max_results > WORKSPACE_SEARCH_MAX_MATCHES {
            WORKSPACE_SEARCH_MAX_MATCHES
        } else {
            max_results
        }) && s.queue@.len() == 1 && s.queue@[0].0@.len() == 0 && s.queue@[0].1 == 0
            && s.visited == 0 && s.matches@.len() == 0),
{
    let d = evaluate_workspace_search(mode);
    match gate(d) {
        Err(e) => return Err(e),
        Ok(()) => {},
    }
    let t = trim_vec(&chars_of(query));
    if t.len() == 0 {
        return Err(BrokerError::Io(String::from_str("query must not be empty")));
    }
    let limit = if max_results < 1 {
        1
    } else if max_results > WORKSPACE_SEARCH_MAX_MATCHES {
        WORKSPACE_SEARCH_MAX_MATCHES
    } else {
        max_results
    };
    if settings.workspace_root.is_none() {
        return Err(BrokerError::NoWorkspaceRoot);
    }
    let mut queue: Vec<(String, usize)> = Vec::new();
    queue.push((String::new(), 0));
    Ok(
        WorkspaceSearch {
            kind,
            needle: string_of(&crate::text::lower_vec(&t)),
            limit,
            queue,
            visited: 0,
            matches: Vec::new(),
        },
    )
}


/// The ordering keys of directory entries: their lowercase names.
pub open spec fn dir_keys(entries: Seq<BrokerDirEntry>) -> Seq<(nat, Seq<char>)> {
    entries.map_values(|e: BrokerDirEntry| (0nat, crate::text::lower(e.name@)))
}

/// The listing of the entries read from a directory: the first
/// `MAX_LIST_DIR_ENTRIES` of them, sorted by lowercase name (entries with the
/// same lowercase name keep their order).
pub open spec fn listed_entries(read: Seq<BrokerDirEntry>) -> Seq<BrokerDirEntry> {
    let kept = if read.len() <= MAX_LIST_DIR_ENTRIES {
        read
    } else {
        read.take(MAX_LIST_DIR_ENTRIES as int)
    };
    crate::order::ranking(dir_keys(kept)).map_values(|i: int| kept[i])
}

/// The answer to `fs.list_dir` from the entries read, in read order.
pub fn finish_list_dir(read: &Vec<BrokerDirEntry>) -> (r: Vec<BrokerDirEntry>)
    ensures
        r@ == listed_entries(read@),
{
    let n = if read.len() <= MAX_LIST_DIR_ENTRIES {
        read.len()
    } else {
        MAX_LIST_DIR_ENTRIES
    };
    let ghost kept = if read@.len() <= MAX_LIST_DIR_ENTRIES {
        read@
    } else {
        read@.take(MAX_LIST_DIR_ENTRIES as int)
    };
    let mut keys: Vec<(u64, Vec<char>)> = Vec::new();
    let mut i: usize = 0;
    while i < n
        invariant
            i <= n,
            n == kept.len(),
            n <= read@.len(),
            kept == (if read@.len() <= MAX_LIST_DIR_ENTRIES {
                read@
            } else {
                read@.take(MAX_LIST_DIR_ENTRIES as int)
            }),
            crate::order::keys_view(keys@) == dir_keys(kept).take(i as int),
        decreases n - i,
    {
        let ghost before = keys@;
        keys.push((0u64, crate::text::lower_vec(&chars_of(read[i].name.as_str()))));
        assert(kept[i as int] == read@[i as int]);
        assert(crate::order::keys_view(keys@) =~= crate::order::keys_view(before).push(
            (0nat, crate::text::lower(read@[i as int].name@)),
        ));
        assert(dir_keys(kept).take(i + 1) =~= dir_keys(kept).take(i as int).push(
            (0nat, crate::text::lower(read@[i as int].name@)),
        ));
        i = i + 1;
    }
    assert(dir_keys(kept).take(n as int) =~= dir_keys(kept));
    let order = crate::order::rank(&keys);
    let ghost ord = crate::order::ranking(dir_keys(kept));
    let mut r: Vec<BrokerDirEntry> = Vec::new();
    let mut k: usize = 0;
    while k < order.len()
        invariant
            k <= order.len(),
            order@.len() == n,
            n == kept.len(),
            n <= read@.len(),
            forall|j: int| 0 <= j < order@.len() ==> order@[j] < n,
            order@.map_values(|x: usize| x as int) == ord,
            kept == (if read@.len() <= MAX_LIST_DIR_ENTRIES {
                read@
            } else {
                read@.take(MAX_LIST_DIR_ENTRIES as int)
            }),
            r@.len() == k,
            forall|j: int| 0 <= j < k ==> #[trigger] r@[j] == kept[ord[j]],
        decreases order.len() - k,
    {
        let idx = order[k];
        let e = &read[idx];
        assert(ord[k as int] == idx as int);
        assert(kept[idx as int] == read@[idx as int]);
        r.push(BrokerDirEntry { name: e.name.clone(), is_dir: e.is_dir });
        k = k + 1;
    }
    assert(r@ =~= listed_entries(read@));
    r
}

} // verus!
