//! Managed oMLX server: its configuration, the command line it is started
//! with, and the URL its health is read from. Spawning, polling and stopping
//! the process happen at the edge of the program.
use vstd::prelude::*;

use crate::http_openai_compat::trim_slashes_end;
use crate::text::{append_vec, chars_of, decimal, ends_with, starts_with, string_of, trim, trim_vec};

verus! {

#[derive(Debug, Clone)]
pub struct OmlxSupervisorConfig {
    pub enabled: bool,
    pub base_url: String,
    pub command: String,
    pub model_dir: String,
    pub port: u16,
    pub health_path: String,
    pub startup_timeout_secs: u64,
    pub required: bool,
    pub discovery_on_ready: bool,
    pub rex_root: String,
}

#[derive(Debug)]
pub enum OmlxSupervisorError {
    CommandMissing { command: String },
    Spawn(String),
    StartupTimeout,
}

impl OmlxSupervisorError {
    /// Operator-facing text of the error.
    pub fn message(&self) -> (s: String)
        ensures
            s@ == match *self {
                OmlxSupervisorError::CommandMissing { command } => "oMLX command not found on PATH: "@
                    + command@,
                OmlxSupervisorError::Spawn(m) => "failed to spawn oMLX: "@ + m@,
                OmlxSupervisorError::StartupTimeout => "oMLX did not become healthy within startup budget"@,
            },
    {
        match self {
            OmlxSupervisorError::CommandMissing { command } => String::from_str(
                "oMLX command not found on PATH: ",
            ).concat(command.as_str()),
            OmlxSupervisorError::Spawn(m) => String::from_str("failed to spawn oMLX: ").concat(
                m.as_str(),
            ),
            OmlxSupervisorError::StartupTimeout => String::from_str(
                "oMLX did not become healthy within startup budget",
            ),
        }
    }
}

/// The health URL: an absolute health path as is; else the path under the
/// server root (the base URL without a trailing `/v1`), `/v1/models` when blank.
pub open spec fn health_url_of(base: Seq<char>, health_path: Seq<char>) -> Seq<char> {
    let path = trim(health_path);
    if starts_with(path, "http://"@) || starts_with(path, "https://"@) {
        path
    } else {
        let t = trim_slashes_end(base);
        let root = if ends_with(t, "/v1"@) {
            v1_stripped(t)
        } else {
            t
        };
        if path.len() == 0 {
            root + "/v1/models"@
        } else if path[0] == '/' {
            root + path
        } else {
            root + seq!['/'] + path
        }
    }
}

/// `s` with every trailing `/v1` removed (`trim_end_matches("/v1")`).
pub open spec fn v1_stripped(s: Seq<char>) -> Seq<char>
    decreases s.len(),
{
    if ends_with(s, "/v1"@) && s.len() >= 3 {
        v1_stripped(s.take(s.len() - 3))
    } else {
        s
    }
}

fn v1_stripped_vec(v: &Vec<char>) -> (r: Vec<char>)
    ensures
        r@ == v1_stripped(v@),
{
    let suffix = chars_of("/v1");
    proof {
        reveal_strlit("/v1");
    }
    let mut n: usize = v.len();
    assert(v@.take(n as int) =~= v@);
    while n >= 3 && crate::text::ends_with_vec(&crate::text::slice_vec(v, 0, n), &suffix)
        invariant
            n <= v.len(),
            suffix@ == "/v1"@,
            v1_stripped(v@) == v1_stripped(v@.take(n as int)),
        decreases n,
    {
        assert(v@.take(n as int).take(n - 3) =~= v@.take(n - 3));
        n = n - 3;
    }
    let r = crate::text::slice_vec(v, 0, n);
    assert(r@ =~= v@.take(n as int));
    r
}

/// The URL the server's health is read from.
pub fn health_url(base_url: &str, health_path: &str) -> (s: String)
    ensures
        s@ == health_url_of(base_url@, health_path@),
{
    let path = trim_vec(&chars_of(health_path));
    if crate::text::starts_with_vec(&path, &chars_of("http://")) || crate::text::starts_with_vec(
        &path,
        &chars_of("https://"),
    ) {
        return string_of(&path);
    }
    let t = crate::gateway_supervisor::trim_trailing_slashes(base_url);
    let mut root = if crate::text::ends_with_vec(&t, &chars_of("/v1")) {
        v1_stripped_vec(&t)
    } else {
        t
    };
    if path.len() == 0 {
        append_vec(&mut root, &chars_of("/v1/models"));
    } else if path[0] == '/' {
        append_vec(&mut root, &path);
    } else {
        root.push('/');
        append_vec(&mut root, &path);
    }
    string_of(&root)
}

/// The arguments the server is started with.
pub open spec fn omlx_args(port: u16, model_dir: Seq<char>) -> Seq<Seq<char>> {
    let base = seq!["serve"@, "--port"@, decimal(port as nat)];
    if trim(model_dir).len() == 0 {
        base
    } else {
        base + seq!["--model-dir"@, model_dir]
    }
}

/// The command-line arguments for starting the server.
pub fn omlx_spawn_args(config: &OmlxSupervisorConfig) -> (r: Vec<String>)
    ensures
        r@.map_values(|x: String| x@) == omlx_args(config.port, config.model_dir@),
{
    let mut r: Vec<String> = Vec::new();
    r.push(String::from_str("serve"));
    r.push(String::from_str("--port"));
    r.push(string_of(&crate::text::decimal_vec(config.port as u64)));
    if trim_vec(&chars_of(config.model_dir.as_str())).len() > 0 {
        r.push(String::from_str("--model-dir"));
        r.push(string_of(&chars_of(config.model_dir.as_str())));
    }
    assert(r@.map_values(|x: String| x@) =~= omlx_args(config.port, config.model_dir@));
    r
}


/// A managed omlx process needs a restart when it is enabled and not both
/// running and healthy.
pub fn omlx_needs_restart(enabled: bool, has_child: bool, healthy: bool) -> (b: bool)
    ensures
        b == (enabled && !(has_child && healthy)),
{
    enabled && !(has_child && healthy)
}

/// The error a failed restart reports.
pub fn omlx_restart_error(command: &str, failure: crate::supervisor::StartupFailure) -> (e: OmlxSupervisorError)
    ensures
        match failure {
            crate::supervisor::StartupFailure::CommandMissing => e matches OmlxSupervisorError::CommandMissing {
                command: c,
            } && c@ == command@,
            crate::supervisor::StartupFailure::Spawn(m) => e == OmlxSupervisorError::Spawn(m),
            crate::supervisor::StartupFailure::StartupTimeout => e is StartupTimeout,
        },
{
    match failure {
        crate::supervisor::StartupFailure::CommandMissing => OmlxSupervisorError::CommandMissing {
            command: String::from_str(command),
        },
        crate::supervisor::StartupFailure::Spawn(m) => OmlxSupervisorError::Spawn(m),
        crate::supervisor::StartupFailure::StartupTimeout => OmlxSupervisorError::StartupTimeout,
    }
}

/// The startup budget in milliseconds (saturating).
pub fn omlx_startup_budget_ms(startup_timeout_secs: u64) -> (ms: u64)
    ensures
        ms == if startup_timeout_secs * 1000 <= u64::MAX {
            startup_timeout_secs * 1000
        } else {
            u64::MAX as int
        },
{
    if startup_timeout_secs > u64::MAX / 1000 {
        u64::MAX
    } else {
        startup_timeout_secs * 1000
    }
}
} // verus!
