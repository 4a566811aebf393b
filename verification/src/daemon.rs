//! The daemon's start and shutdown decisions: which managed processes are
//! started and whether their failure is fatal, the idle-shutdown watch, and
//! what is logged. Binding the socket, serving and signals are at the edge
//! of the program.
use vstd::prelude::*;

use crate::gateway_supervisor::GatewaySupervisorError;
use crate::supervisor::{supervisor_message, SupervisorError};
use crate::text::decimal;

verus! {

/// Why the daemon could not run.
#[derive(Debug)]
pub enum DaemonRuntimeError {
    Config(String),
    InferenceConfig(String),
    SocketCleanup { path: String, source: String },
    SocketBind { path: String, source: String },
    Transport(String),
    Sidecar(SupervisorError),
    Gateway(GatewaySupervisorError),
}

/// The operator-facing text of a gateway error.
pub open spec fn gateway_message(e: GatewaySupervisorError) -> Seq<char> {
    match e {
        GatewaySupervisorError::CommandMissing { command } => "gateway command not found on PATH: "@
            + command@,
        GatewaySupervisorError::Spawn(m) => "failed to spawn gateway: "@ + m@,
        GatewaySupervisorError::StartupTimeout => "gateway did not become healthy within startup budget"@,
    }
}

/// The operator-facing text of a daemon error.
pub open spec fn daemon_message(e: DaemonRuntimeError) -> Seq<char> {
    match e {
        DaemonRuntimeError::Config(m) => "configuration: "@ + m@,
        DaemonRuntimeError::InferenceConfig(m) => "inference runtime configuration: "@ + m@,
        DaemonRuntimeError::SocketCleanup { path, source } => "failed to remove stale socket at "@
            + path@ + ": "@ + source@,
        DaemonRuntimeError::SocketBind { path, source } => "failed to bind daemon socket at "@ + path@
            + ": "@ + source@,
        DaemonRuntimeError::Transport(m) => "daemon transport failure: "@ + m@,
        DaemonRuntimeError::Sidecar(e) => "sidecar supervisor: "@ + supervisor_message(e),
        DaemonRuntimeError::Gateway(e) => "inference gateway supervisor: "@ + gateway_message(e),
    }
}

impl DaemonRuntimeError {
    /// Operator-facing text of the error.
    pub fn message(&self) -> (s: String)
        ensures
            s@ == daemon_message(*self),
    {
        match self {
            DaemonRuntimeError::Config(m) => String::from_str("configuration: ").concat(m.as_str()),
            DaemonRuntimeError::InferenceConfig(m) => String::from_str(
                "inference runtime configuration: ",
            ).concat(m.as_str()),
            DaemonRuntimeError::SocketCleanup { path, source } => String::from_str(
                "failed to remove stale socket at ",
            ).concat(path.as_str()).concat(": ").concat(source.as_str()),
            DaemonRuntimeError::SocketBind { path, source } => String::from_str(
                "failed to bind daemon socket at ",
            ).concat(path.as_str()).concat(": ").concat(source.as_str()),
            DaemonRuntimeError::Transport(m) => String::from_str("daemon transport failure: ").concat(
                m.as_str(),
            ),
            DaemonRuntimeError::Sidecar(e) => String::from_str("sidecar supervisor: ").concat(
                e.message().as_str(),
            ),
            DaemonRuntimeError::Gateway(e) => String::from_str("inference gateway supervisor: ").concat(
                e.message().as_str(),
            ),
        }
    }
}

/// The outcome of starting the managed gateway: a failure is fatal when the
/// gateway is required, else it is logged and the daemon goes on.
pub fn gateway_start_outcome(required: bool, started: Result<(), GatewaySupervisorError>) -> (r:
    Result<Option<String>, DaemonRuntimeError>)
    ensures
        match started {
            Ok(()) => r matches Ok(None),
            Err(e) => if required {
                r matches Err(DaemonRuntimeError::Gateway(g)) && g == e
            } else {
                r matches Ok(Some(w)) && w@ == "rex-daemon gateway optional start failed: "@
                    + gateway_message(e)
            },
        },
{
    match started {
        Ok(()) => Ok(None),
        Err(e) => {
            if required {
                Err(DaemonRuntimeError::Gateway(e))
            } else {
                Ok(Some(String::from_str("rex-daemon gateway optional start failed: ").concat(
                    e.message().as_str(),
                )))
            }
        },
    }
}

/// Whether the daemon starts the host sidecar: it is enabled and the
/// harness does not run directly.
pub fn sidecar_start_needed(harness_direct: bool, host_enabled: bool) -> (b: bool)
    ensures
        b == (!harness_direct && host_enabled),
{
    !harness_direct && host_enabled
}

/// The outcome of starting the sidecars: a failure is fatal when the host
/// sidecar is required, else it is logged and the daemon goes on.
pub fn sidecar_start_outcome(required: bool, started: Result<(), SupervisorError>) -> (r: Result<
    Option<String>,
    DaemonRuntimeError,
>)
    ensures
        match started {
            Ok(()) => r matches Ok(None),
            Err(e) => if required {
                r matches Err(DaemonRuntimeError::Sidecar(s)) && s == e
            } else {
                r matches Ok(Some(w)) && w@ == "rex-daemon sidecar optional start failed: "@
                    + supervisor_message(e)
            },
        },
{
    match started {
        Ok(()) => Ok(None),
        Err(e) => {
            if required {
                Err(DaemonRuntimeError::Sidecar(e))
            } else {
                Ok(Some(String::from_str("rex-daemon sidecar optional start failed: ").concat(
                    e.message().as_str(),
                )))
            }
        },
    }
}

/// Why the daemon stopped serving.
#[derive(Debug, Clone, Copy, PartialEq, Eq, Structural)]
pub enum ShutdownReason {
    Signal,
    IdleShutdown,
}

impl ShutdownReason {
    /// The label logged at shutdown.
    pub fn label(self) -> (s: &'static str)
        ensures
            s@ == match self {
                ShutdownReason::Signal => "signal"@,
                ShutdownReason::IdleShutdown => "idle_shutdown"@,
            },
    {
        match self {
            ShutdownReason::Signal => "signal",
            ShutdownReason::IdleShutdown => "idle_shutdown",
        }
    }
}

/// The idle watch runs only with a positive idle budget.
pub fn idle_watch_enabled(idle_shutdown_secs: u64) -> (b: bool)
    ensures
        b == (idle_shutdown_secs > 0),
{
    idle_shutdown_secs > 0
}

/// The workspace part of the listen line.
pub open spec fn workspace_log(root: Option<Seq<char>>) -> Seq<char> {
    match root {
        Some(r) => "workspace.root="@ + r,
        None => "workspace.error=not_configured"@,
    }
}

/// The line logged when the daemon starts listening.
pub open spec fn listen_line(
    socket: Seq<char>,
    runtime_label: Seq<char>,
    version: Seq<char>,
    idle_shutdown_secs: u64,
    root: Option<Seq<char>>,
) -> Seq<char> {
    "rex-daemon event=listen socket="@ + socket + " inference_runtime="@ + runtime_label
        + " daemon_version="@ + version + " idle_shutdown_secs="@ + decimal(idle_shutdown_secs as nat)
        + " "@ + workspace_log(root)
}

/// The line logged when the daemon starts listening.
pub fn listen_log_line(
    socket: &str,
    runtime_label: &str,
    version: &str,
    idle_shutdown_secs: u64,
    root: Option<&str>,
) -> (s: String)
    ensures
        s@ == listen_line(
            socket@,
            runtime_label@,
            version@,
            idle_shutdown_secs,
            match root {
                Some(r) => Some(r@),
                None => None,
            },
        ),
{
    let mut s = String::from_str("rex-daemon event=listen socket=").concat(socket);
    s = s.concat(" inference_runtime=").concat(runtime_label);
    s = s.concat(" daemon_version=").concat(version);
    s = s.concat(crate::text::prefixed_decimal(" idle_shutdown_secs=", idle_shutdown_secs).as_str());
    s = s.concat(" ");
    match root {
        Some(r) => s.concat("workspace.root=").concat(r),
        None => s.concat("workspace.error=not_configured"),
    }
}

/// The line logged when the daemon stops.
pub fn shutdown_log_line(socket: &str, reason: ShutdownReason) -> (s: String)
    ensures
        s@ == "rex-daemon event=shutdown socket="@ + socket@ + " reason="@ + match reason {
            ShutdownReason::Signal => "signal"@,
            ShutdownReason::IdleShutdown => "idle_shutdown"@,
        },
{
    String::from_str("rex-daemon event=shutdown socket=").concat(socket).concat(" reason=").concat(
        reason.label(),
    )
}

} // verus!
