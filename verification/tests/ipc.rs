use base64::Engine;
use garshot::cli::{
    annotate_format, failure_text, is_stdout_output, mime_type_for, monitor_line, notification_body, output_mode_for,
    parse_window_id, WindowIdError,
};
use garshot::region::Monitor;
use garshot::daemon::{
    cancelled_response, clipboard_png, clipboard_response, file_and_clipboard_response, file_response,
    invalid_request_response, plan_request,
    save_dir_failure, screenshot_file_name, stdout_response, DaemonAction,
};
use garshot::ipc::{socket_path_in, OutputMode, Request, Response};
use garshot::GarshotError;

#[test]
fn test_response_ok() {
    let resp = Response::ok();
    assert!(resp.success);
    assert!(resp.error.is_none());
}

#[test]
fn test_response_error() {
    let resp = Response::error("test error");
    assert!(!resp.success);
    assert_eq!(resp.error.as_deref(), Some("test error"));
}

#[test]
fn test_socket_path() {
    let path = socket_path_in(None);
    assert!(path.contains("garshot.sock"));
}

#[test]
fn socket_path_locations() {
    assert_eq!(socket_path_in(None), "/tmp/garshot.sock");
    assert_eq!(socket_path_in(Some("/run/user/1000".to_string())), "/run/user/1000/garshot.sock");
}

#[test]
fn output_mode_default_is_file() {
    assert_eq!(OutputMode::default(), OutputMode::File);
    assert_eq!(output_mode_for(true), OutputMode::Clipboard);
    assert_eq!(output_mode_for(false), OutputMode::File);
}

#[test]
fn requests_map_to_actions() {
    match plan_request(Request::ActiveWindow { decorations: true, cursor: false, output: OutputMode::Stdout }) {
        DaemonAction::CaptureWindow { id, decorations, cursor, output } => {
            assert_eq!(id, None);
            assert!(decorations);
            assert!(!cursor);
            assert_eq!(output, OutputMode::Stdout);
        }
        _ => panic!("expected a window capture"),
    }
    match plan_request(Request::SetConfig { key: "k".to_string(), value: serde_json::Value::Null }) {
        DaemonAction::Respond(r) => {
            assert!(!r.success);
            assert_eq!(r.error.as_deref(), Some("Config updates not yet implemented"));
        }
        _ => panic!("expected an immediate response"),
    }
    match plan_request(Request::ReloadConfig) {
        DaemonAction::Respond(r) => assert_eq!(r.error.as_deref(), Some("Config reload not yet implemented")),
        _ => panic!("expected an immediate response"),
    }
    assert!(matches!(plan_request(Request::Shutdown), DaemonAction::Shutdown));
    assert!(matches!(plan_request(Request::Status), DaemonAction::Status));
}

#[test]
fn daemon_responses() {
    assert_eq!(cancelled_response().error.as_deref(), Some("Selection cancelled"));
    assert_eq!(save_dir_failure("denied").error.as_deref(), Some("Failed to create save directory: denied"));
    assert_eq!(invalid_request_response("eof").error.as_deref(), Some("Invalid request: eof"));
    assert_eq!(screenshot_file_name("20240101-120000", "png"), "screenshot-20240101-120000.png");
    let ok = file_response(Ok(()), "/p/x.png".to_string());
    assert!(ok.success);
    assert_eq!(ok.path.as_deref(), Some("/p/x.png"));
    let bad = file_response(Err(GarshotError::EncodeError("boom".to_string())), "/p".to_string());
    assert_eq!(bad.error.as_deref(), Some("Failed to encode PNG: Failed to encode image: boom"));
}

#[test]
fn clipboard_modes() {
    let copied = clipboard_response(Ok(()));
    assert!(copied.success);
    assert!(copied.error.is_none() && copied.path.is_none() && copied.data.is_none());
    let failed = clipboard_response(Err("no xclip".to_string()));
    assert!(!failed.success);
    assert_eq!(failed.error.as_deref(), Some("Failed to copy to clipboard: no xclip"));

    let both = file_and_clipboard_response(Ok(()), "/p/x.png".to_string(), Ok(()));
    assert!(both.success);
    assert_eq!(both.path.as_deref(), Some("/p/x.png"));
    let not_copied = file_and_clipboard_response(Ok(()), "/p/x.png".to_string(), Err("no xsel".to_string()));
    assert_eq!(not_copied.error.as_deref(), Some("Failed to copy to clipboard: no xsel"));
    assert!(not_copied.path.is_none());
    let not_written = file_and_clipboard_response(
        Err(GarshotError::EncodeError("boom".to_string())),
        "/p".to_string(),
        Ok(()),
    );
    assert_eq!(not_written.error.as_deref(), Some("Failed to encode PNG: Failed to encode image: boom"));
}

#[test]
fn clipboard_gets_png_bytes() {
    let bytes = match clipboard_png(&[10, 20, 30, 255], 1, 1) {
        Ok(b) => b,
        Err(_) => panic!("a whole pixel encodes"),
    };
    assert_eq!(&bytes[..8], &[137, 80, 78, 71, 13, 10, 26, 10]);
    match clipboard_png(&[0, 0], 1, 1) {
        Err(r) => assert_eq!(
            r.error.as_deref(),
            Some("Failed to encode PNG: Failed to encode image: Data size 2 does not match expected size 4 for 1x1 RGBA image")
        ),
        Ok(_) => panic!("a short buffer cannot be encoded"),
    }
}

#[test]
fn stdout_response_is_base64_png() {
    let r = stdout_response(&[0, 0, 0, 255], 1, 1).unwrap();
    assert!(r.success);
    let text = r.data.unwrap();
    let bytes = base64::engine::general_purpose::STANDARD.decode(text).unwrap();
    assert_eq!(&bytes[..8], &[137, 80, 78, 71, 13, 10, 26, 10]);
    let bad = stdout_response(&[0, 0], 1, 1).unwrap();
    assert_eq!(
        bad.error.as_deref(),
        Some("Failed to encode PNG: Failed to encode image: Data size 2 does not match expected size 4 for 1x1 RGBA image")
    );
}

#[test]
fn window_ids() {
    assert_eq!(parse_window_id(" 0x1A "), Ok(26));
    assert_eq!(parse_window_id("0X10"), Ok(16));
    assert_eq!(parse_window_id("42"), Ok(42));
    assert_eq!(parse_window_id("+7"), Ok(7));
    assert_eq!(parse_window_id("0xZZ"), Err(WindowIdError::InvalidHex));
    assert_eq!(parse_window_id("abc"), Err(WindowIdError::InvalidDecimal));
    assert_eq!(parse_window_id("4294967296"), Err(WindowIdError::InvalidDecimal));
    assert_eq!(WindowIdError::InvalidHex.message(), "Invalid hex window ID");
}

#[test]
fn clipboard_mime_types() {
    assert_eq!(mime_type_for(Some("png")), "image/png");
    assert_eq!(mime_type_for(Some("jpeg")), "image/jpeg");
    assert_eq!(mime_type_for(Some("jpg")), "image/jpeg");
    assert_eq!(mime_type_for(Some("webp")), "image/webp");
    assert_eq!(mime_type_for(Some("pam")), "image/x-portable-pixmap");
    assert_eq!(mime_type_for(Some("bmp")), "image/png");
    assert_eq!(mime_type_for(None), "image/png");
}

#[test]
fn failure_texts() {
    assert_eq!(failure_text(&Response::error("x")), "x");
    assert_eq!(failure_text(&Response::ok()), "Unknown error");
}

#[test]
fn error_messages() {
    assert_eq!(GarshotError::WindowNotFound(0xabc).message(), "Window 0xabc not found");
    assert_eq!(GarshotError::MonitorNotFound("DP-1".to_string()).message(), "Monitor 'DP-1' not found");
    assert_eq!(GarshotError::InvalidDimensions { width: 3, height: 4 }.message(), "Invalid image dimensions: 3x4");
    assert_eq!(GarshotError::NoActiveWindow.message(), "No active window");
}

#[test]
fn output_and_listing_texts() {
    assert!(is_stdout_output(Some("-")));
    assert!(!is_stdout_output(Some("--")));
    assert!(!is_stdout_output(None));
    assert_eq!(annotate_format(Some("jpeg".to_string()), Some("png")), "jpeg");
    assert_eq!(annotate_format(None, Some("webp")), "webp");
    assert_eq!(annotate_format(None, None), "png");
    let m = Monitor { name: "DP-1".to_string(), x: -1920, y: 0, width: 1920, height: 1080, primary: true, output_id: 1, crtc_id: 2 };
    assert_eq!(monitor_line(&m), "DP-1 1920x1080+-1920+0 (primary)");
    let n = Monitor { primary: false, ..m };
    assert_eq!(monitor_line(&n), "DP-1 1920x1080+-1920+0");
    assert_eq!(notification_body(800, 600, "/tmp/a.png"), "800x600 \u{2192} /tmp/a.png");
}
