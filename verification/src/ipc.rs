//! Messages exchanged between the CLI and the daemon over the unix socket,
//! and where that socket lives.
use vstd::prelude::*;
use crate::text::{join_path, path_join};

verus! {

/// Commands sent from CLI to daemon via unix socket
#[derive(Debug, Clone)]
pub enum DaemonCommand {
    /// Get current status
    Status,
    /// Apply a named profile
    ApplyProfile { name: String },
    /// Set a single control value
    SetControl { name: String, value: i64 },
    /// Get a single control value
    GetControl { name: String },
    /// Get all control values
    GetAllControls,
    /// Export diagnostics bundle
    ExportDiagnostics,
    /// Force USB reset and recovery
    ForceReset,
    /// Restart the pipeline
    RestartPipeline,
    /// Graceful shutdown
    Shutdown,
}

/// Responses sent from daemon to CLI.
///
/// The daemon's status reply and its control-listing reply carry the
/// daemon status and control value types, which are not part of this
/// library, so those two responses are not among these variants.
#[derive(Debug, Clone)]
pub enum DaemonResponse {
    /// Operation succeeded with optional message (`Ok` on the wire)
    Succeeded(Option<String>),
    /// Control value
    ControlValue { name: String, value: i64 },
    /// Diagnostics bundle path
    DiagnosticsExported(String),
    /// Error
    Error(String),
}

/// Default socket path for daemon IPC: `facecam-daemon.sock` in the
/// directory named by `XDG_RUNTIME_DIR`, or in `/tmp` when it is unset.
pub fn socket_path(runtime_dir_env: Option<&str>) -> (r: String)
    ensures
        r@ == path_join(
            match runtime_dir_env {
                Some(d) => d@,
                None => "/tmp"@,
            },
            "facecam-daemon.sock"@,
        ),
{
    let runtime_dir = match runtime_dir_env {
        Some(d) => d,
        None => "/tmp",
    };
    join_path(runtime_dir, "facecam-daemon.sock")
}

} // verus!
