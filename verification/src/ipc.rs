//! The daemon protocol: requests, responses, events, and the socket's path.

use vstd::prelude::*;
use crate::text::{join_path, joined};

verus! {

broadcast use vstd::string::group_string_axioms;

#[verifier::external_type_specification]
#[verifier::external_body]
pub struct ExJsonValue(serde_json::Value);

/// Where a screenshot goes.
#[derive(Debug, Clone, Copy, PartialEq, Eq, Structural)]
pub enum OutputMode {
    /// Save to a file (the default).
    File,
    /// Raw image data to standard output.
    Stdout,
    /// Copy to the clipboard.
    Clipboard,
    /// Save to a file and copy to the clipboard.
    FileAndClipboard,
}

impl Default for OutputMode {
    fn default() -> (m: Self)
        ensures
            m == OutputMode::File,
    {
        OutputMode::File
    }
}

/// Request from a client to the daemon.
pub enum Request {
    /// Capture the full screen, or one monitor.
    Screen { monitor: Option<String>, cursor: bool, output: OutputMode },
    /// Interactive region selection.
    Region { cursor: bool, output: OutputMode },
    /// Capture a window (the active one when `id` is `None`).
    Window { id: Option<u32>, decorations: bool, cursor: bool, output: OutputMode },
    /// Capture the active window.
    ActiveWindow { decorations: bool, cursor: bool, output: OutputMode },
    /// Daemon status.
    Status,
    /// List the monitors.
    ListMonitors,
    /// Update a configuration value.
    SetConfig { key: String, value: serde_json::Value },
    /// Reload the configuration from disk.
    ReloadConfig,
    /// Shut down.
    Shutdown,
}

/// Response from the daemon to a client.
pub struct Response {
    /// Whether the operation succeeded.
    pub success: bool,
    /// Path of the saved file.
    pub path: Option<String>,
    /// Base64 image data (standard output mode).
    pub data: Option<String>,
    /// Error message when the operation failed.
    pub error: Option<String>,
    /// Additional information (status, monitor list).
    pub info: Option<serde_json::Value>,
}

impl Response {
    /// A successful response with nothing attached.
    pub fn ok() -> (r: Self)
        ensures
            r.success,
            r.path is None,
            r.data is None,
            r.error is None,
            r.info is None,
    {
        Response { success: true, path: None, data: None, error: None, info: None }
    }

    /// A successful response carrying a file path.
    pub fn ok_with_path(path: String) -> (r: Self)
        ensures
            r.success,
            r.path == Some(path),
            r.data is None,
            r.error is None,
            r.info is None,
    {
        Response { success: true, path: Some(path), data: None, error: None, info: None }
    }

    /// A successful response carrying information.
    pub fn ok_with_info(info: serde_json::Value) -> (r: Self)
        ensures
            r.success,
            r.path is None,
            r.data is None,
            r.error is None,
            r.info == Some(info),
    {
        Response { success: true, path: None, data: None, error: None, info: Some(info) }
    }

    /// An error response.
    pub fn error(msg: &str) -> (r: Self)
        ensures
            !r.success,
            r.path is None,
            r.data is None,
            r.error matches Some(e) && e@ == msg@,
            r.info is None,
    {
        Response { success: false, path: None, data: None, error: Some(msg.to_string()), info: None }
    }
}

/// Event from the daemon.
pub enum Event {
    /// A capture completed.
    CaptureComplete { path: String },
    /// Interactive selection started.
    SelectionStarted,
    /// Interactive selection was cancelled.
    SelectionCancelled,
}

/// The socket's path under the runtime directory `runtime_dir`, `/tmp` when
/// there is none.
pub open spec fn socket_path_under(runtime_dir: Option<Seq<char>>) -> Seq<char> {
    let base = match runtime_dir {
        Some(d) => d,
        None => "/tmp"@,
    };
    joined(base, "garshot.sock"@)
}

/// The daemon's socket path, given the value of `XDG_RUNTIME_DIR`.
pub fn socket_path_in(runtime_dir: Option<String>) -> (r: String)
    ensures
        r@ == socket_path_under(crate::config::opt_chars(runtime_dir)),
{
    let base = match runtime_dir {
        Some(d) => d,
        None => "/tmp".to_string(),
    };
    join_path(base.as_str(), "garshot.sock")
}

} // verus!
