//! Error type for garshot operations.

use vstd::prelude::*;
use crate::text::{chars_of, decimal, decimal_chars, hex, hex_chars, push_all, string_of};

verus! {

broadcast use vstd::string::group_string_axioms;

#[verifier::external_type_specification]
#[verifier::external_body]
pub struct ExConnectError(x11rb::errors::ConnectError);

#[verifier::external_type_specification]
#[verifier::external_body]
pub struct ExReplyError(x11rb::errors::ReplyError);

#[verifier::external_type_specification]
#[verifier::external_body]
pub struct ExConnectionError(x11rb::errors::ConnectionError);

#[verifier::external_type_specification]
#[verifier::external_body]
pub struct ExReplyOrIdError(x11rb::errors::ReplyOrIdError);

#[verifier::external_type_specification]
#[verifier::external_body]
pub struct ExIoError(std::io::Error);

/// Garshot error type.
#[derive(Debug)]
pub enum GarshotError {
    /// Failed to connect to the X11 display.
    X11Connect(x11rb::errors::ConnectError),
    /// X11 protocol error.
    X11Protocol(x11rb::errors::ReplyError),
    /// X11 connection error.
    X11Connection(x11rb::errors::ConnectionError),
    /// X11 reply or ID error.
    X11ReplyOrId(x11rb::errors::ReplyOrIdError),
    /// MIT-SHM extension not available.
    ShmNotAvailable,
    /// Failed to create the shared memory segment.
    ShmCreate(String),
    /// XFixes extension not available.
    XFixesNotAvailable,
    /// XRandR extension not available.
    RandrNotAvailable,
    /// Monitor not found.
    MonitorNotFound(String),
    /// Window not found.
    WindowNotFound(u32),
    /// No active window.
    NoActiveWindow,
    /// Region selection cancelled.
    SelectionCancelled,
    /// Invalid region.
    InvalidRegion(String),
    /// Failed to encode an image.
    EncodeError(String),
    /// Failed to save a file.
    IoError(std::io::Error),
    /// Configuration error.
    ConfigError(String),
    /// IPC error.
    IpcError(String),
    /// Invalid image dimensions.
    InvalidDimensions { width: u32, height: u32 },
}

/// Calls `Display` of `x11rb::errors::ConnectError`. Its text is not
/// claimed.
#[verifier::external_body]
fn connect_error_text(e: &x11rb::errors::ConnectError) -> (r: String) {
    e.to_string()
}

/// Calls `Display` of `x11rb::errors::ReplyError`. Its text is not claimed.
#[verifier::external_body]
fn reply_error_text(e: &x11rb::errors::ReplyError) -> (r: String) {
    e.to_string()
}

/// Calls `Display` of `x11rb::errors::ConnectionError`. Its text is not
/// claimed.
#[verifier::external_body]
fn connection_error_text(e: &x11rb::errors::ConnectionError) -> (r: String) {
    e.to_string()
}

/// Calls `Display` of `x11rb::errors::ReplyOrIdError`. Its text is not
/// claimed.
#[verifier::external_body]
fn reply_or_id_error_text(e: &x11rb::errors::ReplyOrIdError) -> (r: String) {
    e.to_string()
}

/// Calls `Display` of `std::io::Error`. Its text is not claimed.
#[verifier::external_body]
fn io_error_text(e: &std::io::Error) -> (r: String) {
    e.to_string()
}

/// The text of an error whose cause is described by an outside error.
pub open spec fn with_cause(prefix: Seq<char>, m: Seq<char>) -> bool {
    exists|cause: Seq<char>| m == prefix + cause
}

fn prefixed(prefix: &str, rest: &str) -> (r: String)
    ensures
        r@ == prefix@ + rest@,
{
    let mut out = chars_of(prefix);
    push_all(&mut out, chars_of(rest).as_slice());
    string_of(out.as_slice())
}

/// `m` is the message of `e`: a fixed text for each kind of error, with
/// the error's details, or with an outside error's own text.
pub open spec fn message_of(e: GarshotError, m: Seq<char>) -> bool {
    match e {
        GarshotError::X11Connect(_) => with_cause("Failed to connect to X11 display: "@, m),
        GarshotError::X11Protocol(_) => with_cause("X11 protocol error: "@, m),
        GarshotError::X11Connection(_) => with_cause("X11 connection error: "@, m),
        GarshotError::X11ReplyOrId(_) => with_cause("X11 reply or ID error: "@, m),
        GarshotError::ShmNotAvailable => m == "MIT-SHM extension not available"@,
        GarshotError::ShmCreate(s) => m == "Failed to create shared memory: "@ + s@,
        GarshotError::XFixesNotAvailable => m == "XFixes extension not available"@,
        GarshotError::RandrNotAvailable => m == "XRandR extension not available"@,
        GarshotError::MonitorNotFound(s) => m == "Monitor '"@ + s@ + "' not found"@,
        GarshotError::WindowNotFound(w) => m == "Window 0x"@ + hex(w as nat)
            + " not found"@,
        GarshotError::NoActiveWindow => m == "No active window"@,
        GarshotError::SelectionCancelled => m == "Region selection cancelled"@,
        GarshotError::InvalidRegion(s) => m == "Invalid region: "@ + s@,
        GarshotError::EncodeError(s) => m == "Failed to encode image: "@ + s@,
        GarshotError::IoError(_) => with_cause("Failed to save file: "@, m),
        GarshotError::ConfigError(s) => m == "Configuration error: "@ + s@,
        GarshotError::IpcError(s) => m == "IPC error: "@ + s@,
        GarshotError::InvalidDimensions { width, height } => m
            == "Invalid image dimensions: "@ + decimal(width as nat) + seq!['x'] + decimal(
            height as nat,
        ),
    }
}

impl GarshotError {
    /// The error's message.
    pub fn message(&self) -> (m: String)
        ensures
            message_of(*self, m@),
    {
        match self {
            GarshotError::X11Connect(e) => {
                let t = connect_error_text(e);
                let m = prefixed("Failed to connect to X11 display: ", t.as_str());
                assert(with_cause("Failed to connect to X11 display: "@, m@)) by {
                    assert(m@ == "Failed to connect to X11 display: "@ + t@);
                }
                m
            },
            GarshotError::X11Protocol(e) => {
                let t = reply_error_text(e);
                let m = prefixed("X11 protocol error: ", t.as_str());
                assert(with_cause("X11 protocol error: "@, m@)) by {
                    assert(m@ == "X11 protocol error: "@ + t@);
                }
                m
            },
            GarshotError::X11Connection(e) => {
                let t = connection_error_text(e);
                let m = prefixed("X11 connection error: ", t.as_str());
                assert(with_cause("X11 connection error: "@, m@)) by {
                    assert(m@ == "X11 connection error: "@ + t@);
                }
                m
            },
            GarshotError::X11ReplyOrId(e) => {
                let t = reply_or_id_error_text(e);
                let m = prefixed("X11 reply or ID error: ", t.as_str());
                assert(with_cause("X11 reply or ID error: "@, m@)) by {
                    assert(m@ == "X11 reply or ID error: "@ + t@);
                }
                m
            },
            GarshotError::ShmNotAvailable => "MIT-SHM extension not available".to_string(),
            GarshotError::ShmCreate(s) => prefixed("Failed to create shared memory: ", s.as_str()),
            GarshotError::XFixesNotAvailable => "XFixes extension not available".to_string(),
            GarshotError::RandrNotAvailable => "XRandR extension not available".to_string(),
            GarshotError::MonitorNotFound(s) => {
                let head = prefixed("Monitor '", s.as_str());
                prefixed(head.as_str(), "' not found")
            },
            GarshotError::WindowNotFound(w) => {
                let mut out = chars_of("Window 0x");
                push_all(&mut out, hex_chars(*w).as_slice());
                push_all(&mut out, chars_of(" not found").as_slice());
                let m = string_of(out.as_slice());
                assert(m@ =~= "Window 0x"@ + hex(*w as nat) + " not found"@);
                m
            },
            GarshotError::NoActiveWindow => "No active window".to_string(),
            GarshotError::SelectionCancelled => "Region selection cancelled".to_string(),
            GarshotError::InvalidRegion(s) => prefixed("Invalid region: ", s.as_str()),
            GarshotError::EncodeError(s) => prefixed("Failed to encode image: ", s.as_str()),
            GarshotError::IoError(e) => {
                let t = io_error_text(e);
                let m = prefixed("Failed to save file: ", t.as_str());
                assert(with_cause("Failed to save file: "@, m@)) by {
                    assert(m@ == "Failed to save file: "@ + t@);
                }
                m
            },
            GarshotError::ConfigError(s) => prefixed("Configuration error: ", s.as_str()),
            GarshotError::IpcError(s) => prefixed("IPC error: ", s.as_str()),
            GarshotError::InvalidDimensions { width, height } => {
                let mut out = chars_of("Invalid image dimensions: ");
                push_all(&mut out, decimal_chars(*width as u64).as_slice());
                out.push('x');
                push_all(&mut out, decimal_chars(*height as u64).as_slice());
                let m = string_of(out.as_slice());
                assert(m@ =~= "Invalid image dimensions: "@ + decimal(*width as nat) + seq!['x'] + decimal(
                    *height as nat,
                ));
                m
            },
        }
    }
}

} // verus!
