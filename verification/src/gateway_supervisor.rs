//! Managed inference gateway (LiteLLM-style proxy): its configuration, the
//! command line and environment it is started with, and the URLs its health
//! is read from. Spawning, polling and stopping the process happen at the
//! edge of the program.
use vstd::prelude::*;

use crate::http_openai_compat::trim_slashes_end;
use crate::text::{append_vec, chars_of, decimal, ends_with, ends_with_vec, lower, string_of, trim, trim_vec};

verus! {

#[derive(Debug, Clone)]
pub struct GatewaySupervisorConfig {
    pub enabled: bool,
    pub base_url: String,
    pub command: String,
    pub config_path: String,
    pub port: u16,
    pub startup_timeout_secs: u64,
    pub required: bool,
    pub discovery_on_ready: bool,
    pub rex_root: String,
}

#[derive(Debug)]
pub enum GatewaySupervisorError {
    CommandMissing { command: String },
    Spawn(String),
    StartupTimeout,
}

impl GatewaySupervisorError {
    /// Operator-facing text of the error.
    pub fn message(&self) -> (s: String)
        ensures
            s@ == match *self {
                GatewaySupervisorError::CommandMissing { command } => "gateway command not found on PATH: "@
                    + command@,
                GatewaySupervisorError::Spawn(m) => "failed to spawn gateway: "@ + m@,
                GatewaySupervisorError::StartupTimeout => "gateway did not become healthy within startup budget"@,
            },
    {
        match self {
            GatewaySupervisorError::CommandMissing { command } => String::from_str(
                "gateway command not found on PATH: ",
            ).concat(command.as_str()),
            GatewaySupervisorError::Spawn(m) => String::from_str("failed to spawn gateway: ").concat(
                m.as_str(),
            ),
            GatewaySupervisorError::StartupTimeout => String::from_str(
                "gateway did not become healthy within startup budget",
            ),
        }
    }
}

/// The model-listing URL for a base URL.
pub open spec fn models_url_of(base: Seq<char>) -> Seq<char> {
    let t = trim_slashes_end(base);
    if ends_with(t, "/v1"@) {
        t + "/models"@
    } else {
        t + "/v1/models"@
    }
}

/// `base` without trailing `/`.
pub fn trim_trailing_slashes(base: &str) -> (r: Vec<char>)
    ensures
        r@ == trim_slashes_end(base@),
{
    let b = chars_of(base);
    let mut n: usize = b.len();
    assert(b@.take(n as int) =~= b@);
    while n > 0 && b[n - 1] == '/'
        invariant
            n <= b.len(),
            trim_slashes_end(b@) == trim_slashes_end(b@.take(n as int)),
        decreases n,
    {
        assert(b@.take(n as int).drop_last() =~= b@.take(n - 1));
        n = n - 1;
    }
    let t = crate::text::slice_vec(&b, 0, n);
    assert(t@ =~= b@.take(n as int));
    t
}

/// The URL the gateway's models are listed at (and its health read from).
pub fn models_url(base_url: &str) -> (s: String)
    ensures
        s@ == models_url_of(base_url@),
{
    let mut t = trim_trailing_slashes(base_url);
    if ends_with_vec(&t, &chars_of("/v1")) {
        append_vec(&mut t, &chars_of("/models"));
    } else {
        append_vec(&mut t, &chars_of("/v1/models"));
    }
    string_of(&t)
}

/// The last component of a command path (after the last `/`, then after the
/// last `\`).
pub open spec fn command_base(command: Seq<char>) -> Seq<char> {
    let a = crate::path::split_char(command, '/').last();
    crate::path::split_char(a, '\\').last()
}

/// The gateway command is the LiteLLM CLI (by name, ignoring case).
pub open spec fn is_litellm(command: Seq<char>) -> bool {
    lower(command_base(command)) == "litellm"@
}

/// Whether the command is the LiteLLM CLI (which takes config and port flags).
pub fn uses_litellm_cli(command: &str) -> (b: bool)
    ensures
        b == is_litellm(command@),
{
    let c = chars_of(command);
    let a = crate::path::split_char_vec(&c, '/');
    proof {
        crate::path::lemma_split_char_nonempty(c@, '/');
    }
    let last_a = &a[a.len() - 1];
    assert(crate::path::views(a@).last() == last_a@);
    let b = crate::path::split_char_vec(last_a, '\\');
    proof {
        crate::path::lemma_split_char_nonempty(last_a@, '\\');
    }
    let base = &b[b.len() - 1];
    assert(crate::path::views(b@).last() == base@);
    crate::text::eq_vec(&crate::text::lower_vec(base), &chars_of("litellm"))
}

/// The arguments the gateway is started with.
pub open spec fn gateway_args(c: GatewaySupervisorConfig) -> Seq<Seq<char>> {
    if is_litellm(c.command@) {
        seq!["--config"@, c.config_path@, "--port"@, decimal(c.port as nat)]
    } else {
        Seq::<Seq<char>>::empty()
    }
}

/// The command-line arguments for starting the gateway.
pub fn gateway_spawn_args(config: &GatewaySupervisorConfig) -> (r: Vec<String>)
    ensures
        r@.map_values(|x: String| x@) == gateway_args(*config),
{
    let mut r: Vec<String> = Vec::new();
    if uses_litellm_cli(config.command.as_str()) {
        r.push(String::from_str("--config"));
        r.push(string_of(&chars_of(config.config_path.as_str())));
        r.push(String::from_str("--port"));
        r.push(string_of(&crate::text::decimal_vec(config.port as u64)));
    }
    assert(r@.map_values(|x: String| x@) =~= gateway_args(*config));
    r
}

/// `s` without leading and trailing `"` characters.
pub open spec fn trim_quotes(s: Seq<char>) -> Seq<char>
    decreases s.len(),
{
    if s.len() > 0 && s[0] == '"' {
        trim_quotes(s.drop_first())
    } else if s.len() > 0 && s.last() == '"' {
        trim_quotes(s.drop_last())
    } else {
        s
    }
}

fn trim_quotes_vec(v: &Vec<char>) -> (r: Vec<char>)
    ensures
        r@ == trim_quotes(v@),
{
    let mut lo: usize = 0;
    let mut hi: usize = v.len();
    assert(v@.subrange(0, v.len() as int) =~= v@);
    while lo < hi && (v[lo] == '"' || v[hi - 1] == '"')
        invariant
            lo <= hi <= v.len(),
            trim_quotes(v@) == trim_quotes(v@.subrange(lo as int, hi as int)),
        decreases hi - lo,
    {
        let ghost s = v@.subrange(lo as int, hi as int);
        if v[lo] == '"' {
            assert(s.drop_first() =~= v@.subrange(lo + 1, hi as int));
            lo = lo + 1;
        } else {
            assert(s.drop_last() =~= v@.subrange(lo as int, hi - 1));
            hi = hi - 1;
        }
    }
    crate::text::slice_vec(v, lo, hi)
}

/// One `KEY=VALUE` setting of an environment file.
pub open spec fn env_line(line: Seq<char>) -> Option<(Seq<char>, Seq<char>)> {
    let l = trim(line);
    if l.len() == 0 || l[0] == '#' {
        None
    } else {
        match crate::text::first_occurrence(l, "="@) {
            None => None,
            Some(i) => Some((trim(l.take(i)), trim_quotes(trim(l.skip(i + 1))))),
        }
    }
}

/// The settings of an environment file, line by line.
pub open spec fn env_settings(lines: Seq<Seq<char>>) -> Seq<(Seq<char>, Seq<char>)>
    decreases lines.len(),
{
    if lines.len() == 0 {
        Seq::<(Seq<char>, Seq<char>)>::empty()
    } else {
        let rest = env_settings(lines.drop_last());
        match env_line(lines.last()) {
            Some(kv) => rest.push(kv),
            None => rest,
        }
    }
}

/// The variables an environment file sets: one `KEY=VALUE` per line (key and
/// value trimmed, quotes around the value dropped); blank lines, comments and
/// lines without `=` are skipped.
pub fn parse_env_file(raw: &str) -> (r: Vec<(String, String)>)
    ensures
        r@.map_values(|p: (String, String)| (p.0@, p.1@)) == env_settings(
            crate::text::text_lines(raw@),
        ),
{
    let lines = crate::text::text_lines_vec(&chars_of(raw));
    let ghost lv = crate::path::views(lines@);
    let eq = chars_of("=");
    let mut r: Vec<(String, String)> = Vec::new();
    let mut i: usize = 0;
    while i < lines.len()
        invariant
            i <= lines.len(),
            lv == crate::path::views(lines@),
            eq@ == "="@,
            r@.map_values(|p: (String, String)| (p.0@, p.1@)) == env_settings(lv.take(i as int)),
        decreases lines.len() - i,
    {
        assert(lv.take(i + 1).drop_last() =~= lv.take(i as int));
        assert(lv.take(i + 1).last() == lines@[i as int]@);
        let l = trim_vec(&lines[i]);
        if l.len() > 0 && l[0] != '#' {
            match crate::text::find_vec(&l, &eq) {
                Some(k) => {
                    proof {
                        reveal_strlit("=");
                        assert(crate::text::contains(l@, "="@));
                        let c = choose|c: int|
                            crate::text::occurs_at(l@, "="@, c) && forall|j: int|
                                0 <= j < c ==> !crate::text::occurs_at(l@, "="@, j);
                        assert(c == k as int);
                    }
                    let key = trim_vec(&crate::text::slice_vec(&l, 0, k));
                    let value = trim_quotes_vec(&trim_vec(&crate::text::slice_vec(&l, k + 1, l.len())));
                    assert(l@.subrange(0, k as int) =~= l@.take(k as int));
                    assert(l@.subrange(k + 1, l@.len() as int) =~= l@.skip(k + 1));
                    let ghost before = r@;
                    r.push((string_of(&key), string_of(&value)));
                    assert(r@.map_values(|p: (String, String)| (p.0@, p.1@)) =~= before.map_values(
                        |p: (String, String)| (p.0@, p.1@),
                    ).push((key@, value@)));
                },
                None => {
                    proof {
                        reveal_strlit("=");
                    }
                },
            }
        }
        i = i + 1;
    }
    assert(lv.take(lines.len() as int) =~= lv);
    r
}

/// How the gateway's model discovery is reported for a model count.
pub fn discovery_label(count: usize) -> (s: &'static str)
    ensures
        s@ == if count > 0 {
            "ok"@
        } else {
            "empty"@
        },
{
    if count > 0 {
        "ok"
    } else {
        "empty"
    }
}


/// A managed gateway process needs a restart when it is enabled and not both
/// running and healthy.
pub fn gateway_needs_restart(enabled: bool, has_child: bool, healthy: bool) -> (b: bool)
    ensures
        b == (enabled && !(has_child && healthy)),
{
    enabled && !(has_child && healthy)
}

/// The error a failed restart reports.
pub fn gateway_restart_error(command: &str, failure: crate::supervisor::StartupFailure) -> (e: GatewaySupervisorError)
    ensures
        match failure {
            crate::supervisor::StartupFailure::CommandMissing => e matches GatewaySupervisorError::CommandMissing {
                command: c,
            } && c@ == command@,
            crate::supervisor::StartupFailure::Spawn(m) => e == GatewaySupervisorError::Spawn(m),
            crate::supervisor::StartupFailure::StartupTimeout => e is StartupTimeout,
        },
{
    match failure {
        crate::supervisor::StartupFailure::CommandMissing => GatewaySupervisorError::CommandMissing {
            command: String::from_str(command),
        },
        crate::supervisor::StartupFailure::Spawn(m) => GatewaySupervisorError::Spawn(m),
        crate::supervisor::StartupFailure::StartupTimeout => GatewaySupervisorError::StartupTimeout,
    }
}

/// The startup budget in milliseconds (saturating).
pub fn gateway_startup_budget_ms(startup_timeout_secs: u64) -> (ms: u64)
    ensures
        ms == if startup_timeout_secs * 1000 <= u64::MAX {
            startup_timeout_secs * 1000
        } else {
            u64::MAX as int
        },
{
    if startup_timeout_secs > u64::MAX / 1000 {
        u64::MAX
    } else {
        startup_timeout_secs * 1000
    }
}
} // verus!
