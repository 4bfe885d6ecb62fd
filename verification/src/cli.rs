//! Command-line decisions: window IDs, the output mode a flag selects, the
//! clipboard's MIME type, and the text of a failed response.

use vstd::prelude::*;
use crate::ipc::{OutputMode, Response};
use crate::region::Monitor;
use crate::naming::signed_decimal;
use crate::text::{decimal, decimal_chars, push_all, string_of};
use crate::text::{chars_of, parse_unsigned, parse_unsigned_chars, sub_chars, trim_chars, trimmed};

verus! {

broadcast use vstd::string::group_string_axioms;

/// Why a window ID did not parse.
#[derive(Debug, Clone, Copy, PartialEq, Eq, Structural)]
pub enum WindowIdError {
    /// `0x` followed by no valid hexadecimal `u32`.
    InvalidHex,
    /// No valid decimal `u32`.
    InvalidDecimal,
}

impl WindowIdError {
    /// The error's message.
    pub fn message(&self) -> (m: String)
        ensures
            m@ == match self {
                WindowIdError::InvalidHex => "Invalid hex window ID"@,
                WindowIdError::InvalidDecimal => "Invalid decimal window ID"@,
            },
    {
        match self {
            WindowIdError::InvalidHex => "Invalid hex window ID".to_string(),
            WindowIdError::InvalidDecimal => "Invalid decimal window ID".to_string(),
        }
    }
}

/// `s` starts with `0x` or `0X`.
pub open spec fn has_hex_prefix(s: Seq<char>) -> bool {
    s.len() >= 2 && s[0] == '0' && (s[1] == 'x' || s[1] == 'X')
}

/// The window ID written in `s`: trimmed, then hexadecimal after `0x` or
/// `0X`, decimal otherwise.
pub open spec fn window_id_value(s: Seq<char>) -> Result<u32, WindowIdError> {
    let t = trimmed(s);
    if has_hex_prefix(t) {
        match parse_unsigned(t.skip(2), 16, u32::MAX as nat) {
            Some(v) => Ok(v as u32),
            None => Err(WindowIdError::InvalidHex),
        }
    } else {
        match parse_unsigned(t, 10, u32::MAX as nat) {
            Some(v) => Ok(v as u32),
            None => Err(WindowIdError::InvalidDecimal),
        }
    }
}

/// Parse a window ID (hexadecimal with `0x`, or decimal).
pub fn parse_window_id(s: &str) -> (r: Result<u32, WindowIdError>)
    ensures
        r == window_id_value(s@),
{
    let c = chars_of(s);
    let t = trim_chars(c.as_slice());
    if t.len() >= 2 && t[0] == '0' && (t[1] == 'x' || t[1] == 'X') {
        let digits = sub_chars(t.as_slice(), 2, t.len());
        assert(digits@ =~= t@.skip(2));
        match parse_unsigned_chars(digits.as_slice(), 16, u32::MAX) {
            Some(v) => Ok(v),
            None => Err(WindowIdError::InvalidHex),
        }
    } else {
        match parse_unsigned_chars(t.as_slice(), 10, u32::MAX) {
            Some(v) => Ok(v),
            None => Err(WindowIdError::InvalidDecimal),
        }
    }
}

/// The output mode a `--clipboard` flag selects.
pub fn output_mode_for(clipboard: bool) -> (m: OutputMode)
    ensures
        m == if clipboard {
            OutputMode::Clipboard
        } else {
            OutputMode::File
        },
{
    if clipboard {
        OutputMode::Clipboard
    } else {
        OutputMode::File
    }
}

/// The MIME type for a file extension; PNG when the extension is unknown.
pub open spec fn mime_type(ext: Option<Seq<char>>) -> Seq<char> {
    match ext {
        Some(e) => if e == "png"@ {
            "image/png"@
        } else if e == "jpg"@ || e == "jpeg"@ {
            "image/jpeg"@
        } else if e == "webp"@ {
            "image/webp"@
        } else if e == "ppm"@ || e == "pam"@ {
            "image/x-portable-pixmap"@
        } else {
            "image/png"@
        },
        None => "image/png"@,
    }
}

/// The MIME type to offer the clipboard for a file with extension `ext`.
pub fn mime_type_for(ext: Option<&str>) -> (r: &'static str)
    ensures
        r@ == mime_type(match ext {
            Some(e) => Some(e@),
            None => None,
        }),
{
    match ext {
        Some(e) => {
            if crate::text::str_equal(e, "png") {
                "image/png"
            } else if crate::text::str_equal(e, "jpg") || crate::text::str_equal(e, "jpeg") {
                "image/jpeg"
            } else if crate::text::str_equal(e, "webp") {
                "image/webp"
            } else if crate::text::str_equal(e, "ppm") || crate::text::str_equal(e, "pam") {
                "image/x-portable-pixmap"
            } else {
                "image/png"
            }
        },
        None => "image/png",
    }
}

/// The text shown for a failed response: its error, or `Unknown error`.
pub fn failure_text(response: &Response) -> (r: String)
    ensures
        r@ == match &response.error {
            Some(e) => e@,
            None => "Unknown error"@,
        },
{
    match &response.error {
        Some(e) => e.clone(),
        None => "Unknown error".to_string(),
    }
}

/// An output of `-` means standard output.
pub fn is_stdout_output(output: Option<&str>) -> (b: bool)
    ensures
        b == match output {
            Some(o) => o@ == seq!['-'],
            None => false,
        },
{
    match output {
        Some(o) => {
            let c = chars_of(o);
            let r = c.len() == 1 && c[0] == '-';
            assert(r == (o@ =~= seq!['-']));
            r
        },
        None => false,
    }
}

/// The format an annotated file is saved in: the one asked for, else the
/// input file's extension, else `png`.
pub fn annotate_format(format: Option<String>, extension: Option<&str>) -> (r: String)
    ensures
        r@ == match format {
            Some(f) => f@,
            None => match extension {
                Some(e) => e@,
                None => "png"@,
            },
        },
{
    match format {
        Some(f) => f,
        None => match extension {
            Some(e) => e.to_string(),
            None => "png".to_string(),
        },
    }
}

/// A monitor's line in the monitor list: `NAME WxH+X+Y`, with ` (primary)`
/// after the primary one.
pub open spec fn monitor_text(m: Monitor) -> Seq<char> {
    m.name@ + seq![' '] + decimal(m.width as nat) + seq!['x'] + decimal(m.height as nat) + seq!['+']
        + signed_decimal(m.x as int) + seq!['+'] + signed_decimal(m.y as int) + if m.primary {
        " (primary)"@
    } else {
        Seq::empty()
    }
}

fn push_signed(out: &mut Vec<char>, v: i16)
    ensures
        final(out)@ == old(out)@ + signed_decimal(v as int),
{
    if v < 0 {
        out.push('-');
        let m: u64 = (0 - (v as i32)) as u64;
        push_all(out, decimal_chars(m).as_slice());
    } else {
        push_all(out, decimal_chars(v as u64).as_slice());
    }
}

/// The line listing a monitor.
pub fn monitor_line(m: &Monitor) -> (r: String)
    ensures
        r@ == monitor_text(*m),
{
    let mut out = chars_of(m.name.as_str());
    out.push(' ');
    push_all(&mut out, decimal_chars(m.width as u64).as_slice());
    out.push('x');
    push_all(&mut out, decimal_chars(m.height as u64).as_slice());
    out.push('+');
    push_signed(&mut out, m.x);
    out.push('+');
    push_signed(&mut out, m.y);
    if m.primary {
        push_all(&mut out, chars_of(" (primary)").as_slice());
    }
    let r = string_of(out.as_slice());
    assert(r@ =~= monitor_text(*m));
    r
}

/// The body of the notification for a saved screenshot: `WxH → PATH`.
pub open spec fn notification_text(width: u32, height: u32, path: Seq<char>) -> Seq<char> {
    decimal(width as nat) + seq!['x'] + decimal(height as nat) + " \u{2192} "@ + path
}

/// The notification body for a screenshot saved to `path`.
pub fn notification_body(width: u32, height: u32, path: &str) -> (r: String)
    ensures
        r@ == notification_text(width, height, path@),
{
    let mut out = decimal_chars(width as u64);
    out.push('x');
    push_all(&mut out, decimal_chars(height as u64).as_slice());
    push_all(&mut out, chars_of(" \u{2192} ").as_slice());
    push_all(&mut out, chars_of(path).as_slice());
    string_of(out.as_slice())
}

} // verus!
