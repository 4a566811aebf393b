//! Sidecar process supervision: what is reported when a sidecar cannot be
//! started, and the environment it is started with. Spawning, health polling
//! and stopping happen at the edge of the program.
use vstd::prelude::*;

use crate::text::{append_vec, chars_of, string_of};

verus! {

#[derive(Debug)]
pub enum SupervisorError {
    BinaryMissing { path: String },
    Spawn { name: String, message: String },
    StartupTimeout { name: String },
}

/// Operator-facing text of a supervision error.
pub open spec fn supervisor_message(e: SupervisorError) -> Seq<char> {
    match e {
        SupervisorError::BinaryMissing { path } => "sidecar binary not found at "@ + path@,
        SupervisorError::Spawn { name, message } => "failed to spawn sidecar "@ + name@ + ": "@
            + message@,
        SupervisorError::StartupTimeout { name } => "sidecar "@ + name@
            + " did not become healthy within startup budget"@,
    }
}

impl SupervisorError {
    /// Operator-facing text of the error.
    pub fn message(&self) -> (s: String)
        ensures
            s@ == supervisor_message(*self),
    {
        match self {
            SupervisorError::BinaryMissing { path } => String::from_str(
                "sidecar binary not found at ",
            ).concat(path.as_str()),
            SupervisorError::Spawn { name, message } => String::from_str("failed to spawn sidecar ").concat(
                name.as_str(),
            ).concat(": ").concat(message.as_str()),
            SupervisorError::StartupTimeout { name } => String::from_str("sidecar ").concat(
                name.as_str(),
            ).concat(" did not become healthy within startup budget"),
        }
    }
}

/// The error for a binary that cannot be found, with the install hint when
/// there is one.
pub fn binary_missing(binary: &str, hint: Option<&str>) -> (e: SupervisorError)
    ensures
        e matches SupervisorError::BinaryMissing { path } && path@ == match hint {
            Some(h) => binary@ + "; "@ + h@,
            None => binary@,
        },
{
    let mut p = chars_of(binary);
    match hint {
        Some(h) => {
            append_vec(&mut p, &chars_of("; "));
            append_vec(&mut p, &chars_of(h));
        },
        None => {},
    }
    SupervisorError::BinaryMissing { path: string_of(&p) }
}

/// The role a sidecar is logged under.
pub fn sidecar_role(is_capability: bool) -> (s: &'static str)
    ensures
        s@ == if is_capability {
            "capability"@
        } else {
            "host"@
        },
{
    if is_capability {
        "capability"
    } else {
        "host"
    }
}

/// `PYTHONPATH` for a sidecar: the generated protocol modules first, then any
/// existing path.
pub fn sidecar_python_path(proto_gen: &str, existing: Option<&str>) -> (s: String)
    ensures
        s@ == match existing {
            Some(e) => proto_gen@ + seq![':'] + e@,
            None => proto_gen@,
        },
{
    let mut p = chars_of(proto_gen);
    match existing {
        Some(e) => {
            p.push(':');
            append_vec(&mut p, &chars_of(e));
        },
        None => {},
    }
    string_of(&p)
}


// ---------------------------------------------------------------------------
// Restarting a supervised process
// ---------------------------------------------------------------------------

/// Pause between two health probes while a process starts.
pub const HEALTH_POLL_MS: u64 = 100;

/// Startup budget of a sidecar.
pub const SIDECAR_STARTUP_TIMEOUT_MS: u64 = 8000;

/// Where a restart stands.
#[derive(Debug, Clone, Copy, PartialEq, Eq, Structural)]
pub enum RestartPhase {
    /// Nothing done yet.
    Idle,
    /// The old process is being stopped.
    Stopping,
    /// The command is being looked up.
    Checking,
    /// The process is being started.
    Spawning,
    /// Waiting for the process to report healthy, since `started_ms`.
    Polling { started_ms: u64 },
    /// The process is up.
    Ready,
    /// The restart failed.
    Failed,
}

/// What the edge of the program reports back.
#[derive(Debug)]
pub enum RestartEvent {
    Begin,
    Stopped,
    CommandChecked { resolvable: bool },
    Spawned { result: Result<(), String>, now_ms: u64 },
    HealthChecked { healthy: bool, now_ms: u64 },
    Slept { now_ms: u64 },
}

/// Why a restart failed.
#[derive(Debug, Clone, PartialEq, Eq)]
pub enum StartupFailure {
    CommandMissing,
    Spawn(String),
    StartupTimeout,
}

/// What the edge of the program does next.
#[derive(Debug, Clone, PartialEq, Eq)]
pub enum RestartAction {
    /// Stop the running process, if any.
    Stop,
    /// Look the command up.
    CheckCommand,
    /// Start the process.
    Spawn,
    /// Probe the process's health.
    CheckHealth,
    /// Wait this many milliseconds, then report.
    Sleep(u64),
    /// The process is up.
    Succeed,
    /// Give up; after a startup timeout the process is stopped first.
    Fail { stop_first: bool, failure: StartupFailure },
    /// The event does not apply in this phase.
    Ignore,
}

/// The startup budget is spent at `now_ms`.
pub open spec fn budget_spent(started_ms: u64, now_ms: u64, budget_ms: u64) -> bool {
    now_ms >= started_ms && now_ms - started_ms >= budget_ms
}

/// One step of a restart: stop, look the command up, start, then probe
/// health every poll interval until healthy or out of budget.
pub open spec fn restart_step(
    phase: RestartPhase,
    event: RestartEvent,
    budget_ms: u64,
    poll_ms: u64,
) -> (RestartPhase, RestartAction) {
    match (phase, event) {
        (RestartPhase::Idle, RestartEvent::Begin) => (RestartPhase::Stopping, RestartAction::Stop),
        (RestartPhase::Stopping, RestartEvent::Stopped) => (
            RestartPhase::Checking,
            RestartAction::CheckCommand,
        ),
        (RestartPhase::Checking, RestartEvent::CommandChecked { resolvable }) => if resolvable {
            (RestartPhase::Spawning, RestartAction::Spawn)
        } else {
            (
                RestartPhase::Failed,
                RestartAction::Fail { stop_first: false, failure: StartupFailure::CommandMissing },
            )
        },
        (RestartPhase::Spawning, RestartEvent::Spawned { result, now_ms }) => match result {
            Ok(()) => (RestartPhase::Polling { started_ms: now_ms }, RestartAction::CheckHealth),
            Err(m) => (
                RestartPhase::Failed,
                RestartAction::Fail { stop_first: false, failure: StartupFailure::Spawn(m) },
            ),
        },
        (RestartPhase::Polling { started_ms }, RestartEvent::HealthChecked { healthy, now_ms }) => if healthy {
            (RestartPhase::Ready, RestartAction::Succeed)
        } else if budget_spent(started_ms, now_ms, budget_ms) {
            (
                RestartPhase::Failed,
                RestartAction::Fail { stop_first: true, failure: StartupFailure::StartupTimeout },
            )
        } else {
            (RestartPhase::Polling { started_ms }, RestartAction::Sleep(poll_ms))
        },
        (RestartPhase::Polling { started_ms }, RestartEvent::Slept { now_ms }) => if budget_spent(
            started_ms,
            now_ms,
            budget_ms,
        ) {
            (
                RestartPhase::Failed,
                RestartAction::Fail { stop_first: true, failure: StartupFailure::StartupTimeout },
            )
        } else {
            (RestartPhase::Polling { started_ms }, RestartAction::CheckHealth)
        },
        _ => (phase, RestartAction::Ignore),
    }
}

/// Advance a restart by one event.
pub fn restart_next(phase: RestartPhase, event: RestartEvent, budget_ms: u64, poll_ms: u64) -> (r: (
    RestartPhase,
    RestartAction,
))
    ensures
        r == restart_step(phase, event, budget_ms, poll_ms),
{
    match (phase, event) {
        (RestartPhase::Idle, RestartEvent::Begin) => (RestartPhase::Stopping, RestartAction::Stop),
        (RestartPhase::Stopping, RestartEvent::Stopped) => (
            RestartPhase::Checking,
            RestartAction::CheckCommand,
        ),
        (RestartPhase::Checking, RestartEvent::CommandChecked { resolvable }) => if resolvable {
            (RestartPhase::Spawning, RestartAction::Spawn)
        } else {
            (
                RestartPhase::Failed,
                RestartAction::Fail { stop_first: false, failure: StartupFailure::CommandMissing },
            )
        },
        (RestartPhase::Spawning, RestartEvent::Spawned { result, now_ms }) => match result {
            Ok(()) => (RestartPhase::Polling { started_ms: now_ms }, RestartAction::CheckHealth),
            Err(m) => (
                RestartPhase::Failed,
                RestartAction::Fail { stop_first: false, failure: StartupFailure::Spawn(m) },
            ),
        },
        (RestartPhase::Polling { started_ms }, RestartEvent::HealthChecked { healthy, now_ms }) => {
            if healthy {
                (RestartPhase::Ready, RestartAction::Succeed)
            } else if now_ms >= started_ms && now_ms - started_ms >= budget_ms {
                (
                    RestartPhase::Failed,
                    RestartAction::Fail {
                        stop_first: true,
                        failure: StartupFailure::StartupTimeout,
                    },
                )
            } else {
                (RestartPhase::Polling { started_ms }, RestartAction::Sleep(poll_ms))
            }
        },
        (RestartPhase::Polling { started_ms }, RestartEvent::Slept { now_ms }) => {
            if now_ms >= started_ms && now_ms - started_ms >= budget_ms {
                (
                    RestartPhase::Failed,
                    RestartAction::Fail {
                        stop_first: true,
                        failure: StartupFailure::StartupTimeout,
                    },
                )
            } else {
                (RestartPhase::Polling { started_ms }, RestartAction::CheckHealth)
            }
        },
        (p, _) => (p, RestartAction::Ignore),
    }
}

/// A restart reports success only on a healthy probe while waiting; it
/// gives up on a timeout only once the budget is spent, stopping the process
/// first; and it never sleeps past its budget.
pub proof fn law_restart_outcomes(phase: RestartPhase, event: RestartEvent, budget_ms: u64, poll_ms: u64)
    ensures
        ({
            let (next, action) = restart_step(phase, event, budget_ms, poll_ms);
            &&& action == RestartAction::Succeed ==> (phase is Polling && (event matches RestartEvent::HealthChecked { healthy, .. } && healthy) && next == RestartPhase::Ready)
            &&& action matches RestartAction::Fail { stop_first, failure } ==> next == RestartPhase::Failed && (failure == StartupFailure::StartupTimeout <==> stop_first)
            &&& action matches RestartAction::Fail { failure: StartupFailure::StartupTimeout, .. } ==> (phase matches RestartPhase::Polling { started_ms } && match event {
                RestartEvent::HealthChecked { now_ms, .. } => budget_spent(started_ms, now_ms, budget_ms),
                RestartEvent::Slept { now_ms } => budget_spent(started_ms, now_ms, budget_ms),
                _ => false,
            })
            &&& action is Sleep ==> (phase matches RestartPhase::Polling { started_ms } && (event matches RestartEvent::HealthChecked { now_ms, .. } && !budget_spent(started_ms, now_ms, budget_ms)))
        }),
{
}

/// A sidecar needs a restart when it is enabled and not healthy.
pub fn sidecar_needs_restart(enabled: bool, healthy: bool) -> (b: bool)
    ensures
        b == (enabled && !healthy),
{
    enabled && !healthy
}

/// The error a failed sidecar restart reports.
pub fn sidecar_restart_error(name: &str, binary: &str, hint: Option<&str>, failure: StartupFailure) -> (e:
    SupervisorError)
    ensures
        match failure {
            StartupFailure::CommandMissing => e matches SupervisorError::BinaryMissing { path } && path@
                == match hint {
                Some(h) => binary@ + "; "@ + h@,
                None => binary@,
            },
            StartupFailure::Spawn(m) => e matches SupervisorError::Spawn { name: n, message } && n@
                == name@ && message == m,
            StartupFailure::StartupTimeout => e matches SupervisorError::StartupTimeout { name: n } && n@
                == name@,
        },
{
    match failure {
        StartupFailure::CommandMissing => binary_missing(binary, hint),
        StartupFailure::Spawn(m) => SupervisorError::Spawn { name: String::from_str(name), message: m },
        StartupFailure::StartupTimeout => SupervisorError::StartupTimeout { name: String::from_str(name) },
    }
}

/// The environment a sidecar is started with: the Rex root, the Python path,
/// its own socket and the daemon's.
pub fn sidecar_spawn_env(
    rex_root: &str,
    python_path: &str,
    sidecar_socket: &str,
    daemon_socket: &str,
) -> (r: Vec<(String, String)>)
    ensures
        r@.map_values(|p: (String, String)| (p.0@, p.1@)) == seq![
            ("REX_ROOT"@, rex_root@),
            ("PYTHONPATH"@, python_path@),
            ("REX_SIDECAR_SOCKET"@, sidecar_socket@),
            ("REX_DAEMON_SOCKET"@, daemon_socket@),
        ],
{
    let mut r: Vec<(String, String)> = Vec::new();
    r.push((String::from_str("REX_ROOT"), String::from_str(rex_root)));
    r.push((String::from_str("PYTHONPATH"), String::from_str(python_path)));
    r.push((String::from_str("REX_SIDECAR_SOCKET"), String::from_str(sidecar_socket)));
    r.push((String::from_str("REX_DAEMON_SOCKET"), String::from_str(daemon_socket)));
    assert(r@.map_values(|p: (String, String)| (p.0@, p.1@)) =~= seq![
        ("REX_ROOT"@, rex_root@),
        ("PYTHONPATH"@, python_path@),
        ("REX_SIDECAR_SOCKET"@, sidecar_socket@),
        ("REX_DAEMON_SOCKET"@, daemon_socket@),
    ]);
    r
}


/// A restart driven through a sequence of events from `phase`.
pub open spec fn restart_run(phase: RestartPhase, events: Seq<RestartEvent>, budget_ms: u64, poll_ms: u64) -> RestartPhase
    decreases events.len(),
{
    if events.len() == 0 {
        phase
    } else {
        restart_step(restart_run(phase, events.drop_last(), budget_ms, poll_ms), events.last(), budget_ms, poll_ms).0
    }
}

/// While a restart waits for health it keeps the time of the spawn: a step
/// from `Polling { started_ms }` that still polls has the same `started_ms`,
/// and once the budget since that time is spent, a report of an unhealthy
/// process or of a finished sleep fails the restart with a startup timeout,
/// stopping the process first.
pub proof fn law_polling_keeps_spawn_time(started_ms: u64, event: RestartEvent, budget_ms: u64, poll_ms: u64)
    ensures
        ({
            let (next, action) = restart_step(RestartPhase::Polling { started_ms }, event, budget_ms, poll_ms);
            &&& next matches RestartPhase::Polling { started_ms: s } ==> s == started_ms
            &&& (event matches RestartEvent::Slept { now_ms } && budget_spent(started_ms, now_ms, budget_ms))
                ==> next == RestartPhase::Failed && action == (RestartAction::Fail {
                stop_first: true,
                failure: StartupFailure::StartupTimeout,
            })
            &&& (event matches RestartEvent::HealthChecked { healthy, now_ms } && !healthy && budget_spent(
                started_ms,
                now_ms,
                budget_ms,
            )) ==> next == RestartPhase::Failed && action == (RestartAction::Fail {
                stop_first: true,
                failure: StartupFailure::StartupTimeout,
            })
        }),
{
}

/// However many events arrive while waiting for health, a restart that is
/// still waiting measures its budget from the spawn time it started with.
pub proof fn law_polling_run_keeps_spawn_time(
    started_ms: u64,
    events: Seq<RestartEvent>,
    budget_ms: u64,
    poll_ms: u64,
)
    ensures
        restart_run(RestartPhase::Polling { started_ms }, events, budget_ms, poll_ms) matches RestartPhase::Polling {
            started_ms: s,
        } ==> s == started_ms,
        ({
            let p = restart_run(RestartPhase::Polling { started_ms }, events, budget_ms, poll_ms);
            p is Polling || p is Ready || p is Failed
        }),
    decreases events.len(),
{
    if events.len() > 0 {
        law_polling_run_keeps_spawn_time(started_ms, events.drop_last(), budget_ms, poll_ms);
        let prev = restart_run(RestartPhase::Polling { started_ms }, events.drop_last(), budget_ms, poll_ms);
        match prev {
            RestartPhase::Polling { started_ms: s } => {
                law_polling_keeps_spawn_time(s, events.last(), budget_ms, poll_ms);
            },
            _ => {},
        }
    }
}

} // verus!
