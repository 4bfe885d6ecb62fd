//! The daemon's decisions: what each request asks it to do, and the
//! responses it gives for captures, saves and unsupported requests.

use vstd::prelude::*;
use crate::encode::{base64_of, base64_standard, encode_png_to_vec, png_result_matches};
use crate::error::{message_of, GarshotError};
use crate::ipc::{OutputMode, Request, Response};
use crate::naming::with_extension;
use crate::text::{chars_of, push_all, string_of};

verus! {

broadcast use vstd::string::group_string_axioms;

/// What the daemon does for a request.
pub enum DaemonAction {
    /// Capture the screen, or the named monitor.
    CaptureScreen { monitor: Option<String>, cursor: bool, output: OutputMode },
    /// Let the user select a region, then capture it.
    CaptureRegion { cursor: bool, output: OutputMode },
    /// Capture a window; the active one when `id` is `None`.
    CaptureWindow { id: Option<u32>, decorations: bool, cursor: bool, output: OutputMode },
    /// Report the daemon's status.
    Status,
    /// Report the monitors.
    ListMonitors,
    /// Stop serving, answering with success.
    Shutdown,
    /// Answer at once with this response.
    Respond(Response),
}

/// Message for a configuration update, which the daemon does not support.
pub open spec fn set_config_message() -> Seq<char> {
    "Config updates not yet implemented"@
}

/// Message for a configuration reload, which the daemon does not support.
pub open spec fn reload_config_message() -> Seq<char> {
    "Config reload not yet implemented"@
}

/// The response is an error response with message `m`.
pub open spec fn is_error_response(r: Response, m: Seq<char>) -> bool {
    &&& !r.success
    &&& r.path is None
    &&& r.data is None
    &&& r.error matches Some(e) && e@ == m
    &&& r.info is None
}

/// The response is a success carrying the base64 text `d`.
pub open spec fn is_data_response(r: Response, d: Seq<char>) -> bool {
    &&& r.success
    &&& r.path is None
    &&& r.error is None
    &&& r.info is None
    &&& r.data matches Some(x) && x@ == d
}

/// Decide what to do for a request.
pub fn plan_request(request: Request) -> (a: DaemonAction)
    ensures
        match request {
            Request::Screen { monitor, cursor, output } => a == DaemonAction::CaptureScreen {
                monitor,
                cursor,
                output,
            },
            Request::Region { cursor, output } => a == DaemonAction::CaptureRegion { cursor, output },
            Request::Window { id, decorations, cursor, output } => a == DaemonAction::CaptureWindow {
                id,
                decorations,
                cursor,
                output,
            },
            Request::ActiveWindow { decorations, cursor, output } => a
                == DaemonAction::CaptureWindow { id: None, decorations, cursor, output },
            Request::Status => a == DaemonAction::Status,
            Request::ListMonitors => a == DaemonAction::ListMonitors,
            Request::SetConfig { .. } => a matches DaemonAction::Respond(r) && is_error_response(
                r,
                set_config_message(),
            ),
            Request::ReloadConfig => a matches DaemonAction::Respond(r) && is_error_response(
                r,
                reload_config_message(),
            ),
            Request::Shutdown => a == DaemonAction::Shutdown,
        },
{
    match request {
        Request::Screen { monitor, cursor, output } => DaemonAction::CaptureScreen {
            monitor,
            cursor,
            output,
        },
        Request::Region { cursor, output } => DaemonAction::CaptureRegion { cursor, output },
        Request::Window { id, decorations, cursor, output } => DaemonAction::CaptureWindow {
            id,
            decorations,
            cursor,
            output,
        },
        Request::ActiveWindow { decorations, cursor, output } => DaemonAction::CaptureWindow {
            id: None,
            decorations,
            cursor,
            output,
        },
        Request::Status => DaemonAction::Status,
        Request::ListMonitors => DaemonAction::ListMonitors,
        Request::SetConfig { .. } => DaemonAction::Respond(
            Response::error("Config updates not yet implemented"),
        ),
        Request::ReloadConfig => DaemonAction::Respond(
            Response::error("Config reload not yet implemented"),
        ),
        Request::Shutdown => DaemonAction::Shutdown,
    }
}

/// The answer to a request that failed with `e`: an error response with the
/// error's message.
pub fn failure_response(e: &GarshotError) -> (r: Response)
    ensures
        exists|m: Seq<char>| #[trigger] message_of(*e, m) && is_error_response(r, m),
{
    let m = e.message();
    let r = Response::error(m.as_str());
    assert(message_of(*e, m@) && is_error_response(r, m@));
    r
}

/// Message for a PNG encoding failure.
pub open spec fn png_failure_message(cause: Seq<char>) -> Seq<char> {
    "Failed to encode PNG: "@ + cause
}

/// The answer when encoding failed with `e`: an error response with the
/// PNG failure message around `e`'s message.
pub open spec fn is_png_failure(r: Response, e: GarshotError) -> bool {
    exists|m: Seq<char>| #[trigger] message_of(e, m) && is_error_response(r, png_failure_message(m))
}

fn png_failure(e: &GarshotError) -> (r: Response)
    ensures
        is_png_failure(r, *e),
{
    let m = e.message();
    let mut out = chars_of("Failed to encode PNG: ");
    push_all(&mut out, chars_of(m.as_str()).as_slice());
    let text = string_of(out.as_slice());
    let r = Response::error(text.as_str());
    assert(message_of(*e, m@) && is_error_response(r, png_failure_message(m@)));
    r
}

/// The base64 text of `v` has a length that fits in `usize`.
pub open spec fn base64_fits(v: Seq<u8>) -> bool {
    4 * ((v.len() + 2) / 3) <= usize::MAX
}

/// The answer for standard-output mode, given the PNG encoding's outcome:
/// the bytes as base64 text, or the encoding error.
pub fn stdout_response_for(png: Result<Vec<u8>, GarshotError>) -> (r: Response)
    requires
        png matches Ok(v) ==> base64_fits(v@),
    ensures
        match png {
            Ok(v) => is_data_response(r, base64_of(v@)),
            Err(e) => is_png_failure(r, e),
        },
{
    match png {
        Ok(v) => {
            let encoded = base64_standard(v.as_slice());
            Response { success: true, path: None, data: Some(encoded), error: None, info: None }
        },
        Err(e) => png_failure(&e),
    }
}

/// The answer for standard-output mode: the image encoded as PNG, as base64
/// text. `None` only when that text could not fit in memory.
pub fn stdout_response(data: &[u8], width: u32, height: u32) -> (r: Option<Response>)
    requires
        width * height * 4 <= u32::MAX,
    ensures
        exists|png: Result<Vec<u8>, GarshotError>| #[trigger]
            png_result_matches(png, data@, width, height) && match r {
                Some(resp) => (png matches Ok(v) ==> base64_fits(v@)) && match png {
                    Ok(v) => is_data_response(resp, base64_of(v@)),
                    Err(e) => is_png_failure(resp, e),
                },
                None => png matches Ok(v) && !base64_fits(v@),
            },
        width > 0 && height > 0 && data@.len() == width * height * 4 ==> match r {
            Some(resp) => resp.success && resp.data is Some,
            None => true,
        },
{
    let png = encode_png_to_vec(data, width, height);
    let fits = match &png {
        Ok(v) => {
            let n = v.len();
            let groups = n / 3 + if n % 3 != 0 {
                1usize
            } else {
                0usize
            };
            proof {
                assert(groups == (n + 2) / 3);
                assert(groups <= usize::MAX / 4 <==> 4 * groups <= usize::MAX) by (nonlinear_arith);
            }
            groups <= usize::MAX / 4
        },
        Err(_) => true,
    };
    if !fits {
        proof {
            assert(png_result_matches(png, data@, width, height));
        }
        return None;
    }
    proof {
        assert(png_result_matches(png, data@, width, height));
    }
    let r = stdout_response_for(png);
    Some(r)
}

/// The bytes to put on the clipboard for a capture: the image as PNG, or
/// the answer to give when encoding fails.
pub fn clipboard_png(data: &[u8], width: u32, height: u32) -> (r: Result<Vec<u8>, Response>)
    requires
        width * height * 4 <= u32::MAX,
    ensures
        exists|png: Result<Vec<u8>, GarshotError>| #[trigger]
            png_result_matches(png, data@, width, height) && match png {
                Ok(v) => r matches Ok(b) && b@ == v@,
                Err(e) => r matches Err(resp) && is_png_failure(resp, e),
            },
        width > 0 && height > 0 && data@.len() == width * height * 4 ==> r is Ok,
{
    let png = encode_png_to_vec(data, width, height);
    proof {
        assert(png_result_matches(png, data@, width, height));
    }
    match png {
        Ok(v) => Ok(v),
        Err(e) => Err(png_failure(&e)),
    }
}

/// Message when copying to the clipboard failed; `cause` says why.
pub open spec fn clipboard_failure_message(cause: Seq<char>) -> Seq<char> {
    "Failed to copy to clipboard: "@ + cause
}

/// The response is a plain success: no path, data, error or info.
pub open spec fn is_ok_response(r: Response) -> bool {
    &&& r.success
    &&& r.path is None
    &&& r.data is None
    &&& r.error is None
    &&& r.info is None
}

/// The answer for clipboard mode once the copy was tried: success, or the
/// copy's failure.
pub fn clipboard_response(copied: Result<(), String>) -> (r: Response)
    ensures
        match copied {
            Ok(()) => is_ok_response(r),
            Err(cause) => is_error_response(r, clipboard_failure_message(cause@)),
        },
{
    match copied {
        Ok(()) => Response::ok(),
        Err(cause) => {
            let mut out = chars_of("Failed to copy to clipboard: ");
            push_all(&mut out, chars_of(cause.as_str()).as_slice());
            let text = string_of(out.as_slice());
            Response::error(text.as_str())
        },
    }
}

/// The answer for file-and-clipboard mode: the saved file's path once it
/// was written and copied; else the failure of the write, then of the copy.
pub fn file_and_clipboard_response(written: Result<(), GarshotError>, path: String, copied: Result<(), String>) -> (r: Response)
    ensures
        match written {
            Err(e) => is_png_failure(r, e),
            Ok(()) => match copied {
                Ok(()) => r.success && r.path == Some(path) && r.error is None && r.data is None
                    && r.info is None,
                Err(cause) => is_error_response(r, clipboard_failure_message(cause@)),
            },
        },
{
    match written {
        Err(e) => png_failure(&e),
        Ok(()) => match copied {
            Ok(()) => Response::ok_with_path(path),
            Err(cause) => clipboard_response(Err(cause)),
        },
    }
}

/// The name of a saved screenshot: `screenshot-<timestamp>.<format>`.
pub open spec fn screenshot_name(timestamp: Seq<char>, format: Seq<char>) -> Seq<char> {
    with_extension("screenshot-"@ + timestamp, format)
}

/// The file name for a screenshot taken at `timestamp` (already formatted).
pub fn screenshot_file_name(timestamp: &str, format: &str) -> (r: String)
    ensures
        r@ == screenshot_name(timestamp@, format@),
{
    let mut out = chars_of("screenshot-");
    push_all(&mut out, chars_of(timestamp).as_slice());
    out.push('.');
    push_all(&mut out, chars_of(format).as_slice());
    let r = string_of(out.as_slice());
    assert(r@ =~= screenshot_name(timestamp@, format@));
    r
}

/// Message when the save directory cannot be created; `cause` describes
/// the failure.
pub open spec fn save_dir_message(cause: Seq<char>) -> Seq<char> {
    "Failed to create save directory: "@ + cause
}

/// The answer when the save directory could not be created.
pub fn save_dir_failure(cause: &str) -> (r: Response)
    ensures
        is_error_response(r, save_dir_message(cause@)),
{
    let mut out = chars_of("Failed to create save directory: ");
    push_all(&mut out, chars_of(cause).as_slice());
    let text = string_of(out.as_slice());
    Response::error(text.as_str())
}

/// The answer after writing a file to `path`: its path, or the PNG error.
pub fn file_response(written: Result<(), GarshotError>, path: String) -> (r: Response)
    ensures
        match written {
            Ok(()) => r.success && r.path == Some(path) && r.error is None && r.data is None
                && r.info is None,
            Err(e) => is_png_failure(r, e),
        },
{
    match written {
        Ok(()) => Response::ok_with_path(path),
        Err(e) => png_failure(&e),
    }
}

/// Message for a cancelled selection.
pub open spec fn cancelled_message() -> Seq<char> {
    "Selection cancelled"@
}

/// The answer when the user cancels the selection.
pub fn cancelled_response() -> (r: Response)
    ensures
        is_error_response(r, cancelled_message()),
{
    Response::error("Selection cancelled")
}

/// Message for a request line that does not parse; `cause` describes why.
pub open spec fn invalid_request_message(cause: Seq<char>) -> Seq<char> {
    "Invalid request: "@ + cause
}

/// The answer to a request line that does not parse.
pub fn invalid_request_response(cause: &str) -> (r: Response)
    ensures
        is_error_response(r, invalid_request_message(cause@)),
{
    let mut out = chars_of("Invalid request: ");
    push_all(&mut out, chars_of(cause).as_slice());
    let text = string_of(out.as_slice());
    Response::error(text.as_str())
}

} // verus!
