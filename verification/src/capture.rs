//! Capture planning: clipping a requested region to the screen, assembling
//! capture results from raw pixels, and choosing the window to capture.

use vstd::prelude::*;
use crate::error::GarshotError;
use crate::naming::signed_decimal;
use crate::pixels::{bgra_to_rgba_with_alpha, rgba_of_bgra};
use crate::region::{borders_fit, clip_fits, clipped, Region, WindowGeometry};
use crate::text::{chars_of, decimal, decimal_chars, push_all, string_of};

verus! {

broadcast use vstd::string::group_string_axioms;

/// Result of a screen capture.
pub struct CaptureResult {
    /// RGBA pixel data.
    pub data: Vec<u8>,
    /// Image width in pixels.
    pub width: u32,
    /// Image height in pixels.
    pub height: u32,
}

/// Result of a region capture.
pub struct RegionCaptureResult {
    /// RGBA pixel data.
    pub data: Vec<u8>,
    /// Image width in pixels.
    pub width: u32,
    /// Image height in pixels.
    pub height: u32,
    /// The region captured, after clipping.
    pub region: Region,
}

/// Whether `clip_to_screen` can run on this region and screen.
pub fn clip_in_range(region: &Region, screen_width: u16, screen_height: u16) -> (b: bool)
    ensures
        b == clip_fits(*region, screen_width, screen_height),
{
    let sx: i32 = if region.x < 0 {
        0
    } else {
        region.x as i32
    };
    let sy: i32 = if region.y < 0 {
        0
    } else {
        region.y as i32
    };
    let w: i32 = if screen_width < 32768 {
        screen_width as i32
    } else {
        screen_width as i32 - 65536
    };
    let h: i32 = if screen_height < 32768 {
        screen_height as i32
    } else {
        screen_height as i32 - 65536
    };
    region.x > i16::MIN && region.y > i16::MIN && w - sx >= -32768 && h - sy >= -32768
}

/// The message for a region that lies off the screen:
/// `region WxH+X+Y is outside screen bounds`.
pub open spec fn outside_message(r: Region) -> Seq<char> {
    "region "@ + decimal(r.width as nat) + seq!['x'] + decimal(r.height as nat) + seq!['+']
        + signed_decimal(r.x as int) + seq!['+'] + signed_decimal(r.y as int)
        + " is outside screen bounds"@
}

fn push_signed(out: &mut Vec<char>, v: i16)
    ensures
        final(out)@ == old(out)@ + signed_decimal(v as int),
{
    if v < 0 {
        out.push('-');
        let m: u64 = (0 - (v as i32)) as u64;
        push_all(out, decimal_chars(m).as_slice());
    } else {
        push_all(out, decimal_chars(v as u64).as_slice());
    }
}

/// The region to capture for a request: `region` clipped to the screen, or
/// an error when nothing of it is on the screen.
pub fn plan_region_capture(region: &Region, screen_width: u16, screen_height: u16) -> (r: Result<
    Region,
    GarshotError,
>)
    requires
        clip_fits(*region, screen_width, screen_height),
    ensures
        ({
            let c = clipped(*region, screen_width, screen_height);
            if c.width > 0 && c.height > 0 {
                r == Ok::<Region, GarshotError>(c)
            } else {
                r matches Err(GarshotError::InvalidRegion(m)) && m@ == outside_message(*region)
            }
        }),
{
    let c = region.clip_to_screen(screen_width, screen_height);
    if c.is_valid() {
        Ok(c)
    } else {
        let mut out = chars_of("region ");
        push_all(&mut out, decimal_chars(region.width as u64).as_slice());
        out.push('x');
        push_all(&mut out, decimal_chars(region.height as u64).as_slice());
        out.push('+');
        push_signed(&mut out, region.x);
        out.push('+');
        push_signed(&mut out, region.y);
        push_all(&mut out, chars_of(" is outside screen bounds").as_slice());
        let m = string_of(out.as_slice());
        assert(m@ =~= outside_message(*region));
        Err(GarshotError::InvalidRegion(m))
    }
}

/// The result of capturing the clipped region `region`: the captured BGRA
/// pixels turned to RGBA (alpha forced opaque when asked).
pub fn region_capture_result(bgra: &[u8], region: Region, force_opaque: bool) -> (r:
    RegionCaptureResult)
    ensures
        r.data@ == rgba_of_bgra(bgra@, force_opaque),
        r.width == region.width,
        r.height == region.height,
        r.region == region,
{
    RegionCaptureResult {
        data: bgra_to_rgba_with_alpha(bgra, force_opaque),
        width: region.width as u32,
        height: region.height as u32,
        region,
    }
}

/// The result of capturing the whole screen: the captured BGRA pixels
/// turned to RGBA (alpha forced opaque when asked).
pub fn screen_capture_result(bgra: &[u8], screen_width: u16, screen_height: u16, force_opaque: bool) -> (r:
    CaptureResult)
    ensures
        r.data@ == rgba_of_bgra(bgra@, force_opaque),
        r.width == screen_width,
        r.height == screen_height,
{
    CaptureResult {
        data: bgra_to_rgba_with_alpha(bgra, force_opaque),
        width: screen_width as u32,
        height: screen_height as u32,
    }
}

/// A whole-screen capture as a region capture of the region at the origin
/// with the screen's size.
pub fn full_screen_region_result(r: CaptureResult, screen_width: u16, screen_height: u16) -> (out:
    RegionCaptureResult)
    ensures
        out.data@ == r.data@,
        out.width == r.width,
        out.height == r.height,
        out.region == (Region { x: 0, y: 0, width: screen_width, height: screen_height }),
{
    RegionCaptureResult {
        data: r.data,
        width: r.width,
        height: r.height,
        region: Region::new(0, 0, screen_width, screen_height),
    }
}

/// The region to capture for a window: with its borders when decorations
/// are included.
pub fn window_capture_region(geom: &WindowGeometry, include_decorations: bool) -> (r: Region)
    requires
        include_decorations ==> borders_fit(*geom),
    ensures
        r == if include_decorations {
            Region {
                x: (geom.x - geom.border_width) as i16,
                y: (geom.y - geom.border_width) as i16,
                width: (geom.width + 2 * geom.border_width) as u16,
                height: (geom.height + 2 * geom.border_width) as u16,
            }
        } else {
            Region { x: geom.x, y: geom.y, width: geom.width, height: geom.height }
        },
{
    if include_decorations {
        geom.to_region_with_borders()
    } else {
        geom.to_region()
    }
}

/// One step of the walk from a client window up to its frame.
#[derive(Debug, Clone, Copy, PartialEq, Eq, Structural)]
pub enum FrameStep {
    /// `current` is the frame: its parent is the root (or none).
    Found(u32),
    /// Continue with the parent.
    Parent(u32),
}

/// Decide a step of the frame walk from `current`'s parent.
pub fn frame_step(current: u32, parent: u32, root: u32) -> (s: FrameStep)
    ensures
        s == if parent == root || parent == 0 {
            FrameStep::Found(current)
        } else {
            FrameStep::Parent(parent)
        },
{
    if parent == root || parent == 0 {
        FrameStep::Found(current)
    } else {
        FrameStep::Parent(parent)
    }
}

/// The `u32` whose bytes, least significant first, are `b0..b3`.
pub open spec fn le_u32(b0: u8, b1: u8, b2: u8, b3: u8) -> int {
    b0 + 256 * b1 + 65536 * b2 + 16777216 * b3
}

/// Calls `u32::from_ne_bytes`. The byte order is the machine's, so the
/// contract claims only that it reads the bytes in little- or big-endian
/// order.
#[verifier::external_body]
fn native_u32(b0: u8, b1: u8, b2: u8, b3: u8) -> (r: u32)
    ensures
        r == le_u32(b0, b1, b2, b3) || r == le_u32(b3, b2, b1, b0),
{
    u32::from_ne_bytes([b0, b1, b2, b3])
}

/// The active window named by the `_NET_ACTIVE_WINDOW` property: one 32-bit
/// item that is not 0. `Ok(None)` sends the search on to the input focus;
/// a 32-bit item with fewer than four bytes is an error.
pub fn property_window(value_len: u32, format: u8, value: &[u8]) -> (r: Result<Option<u32>, GarshotError>)
    ensures
        !(value_len == 1 && format == 32) ==> r == Ok::<Option<u32>, GarshotError>(None),
        value_len == 1 && format == 32 && value@.len() < 4 ==> r matches Err(
            GarshotError::NoActiveWindow,
        ),
        value_len == 1 && format == 32 && value@.len() >= 4 ==> match r {
            Ok(Some(w)) => w != 0 && (w == le_u32(value@[0], value@[1], value@[2], value@[3])
                || w == le_u32(value@[3], value@[2], value@[1], value@[0])),
            Ok(None) => value@[0] == 0 && value@[1] == 0 && value@[2] == 0 && value@[3] == 0,
            Err(_) => false,
        },
{
    if value_len == 1 && format == 32 {
        if value.len() < 4 {
            return Err(GarshotError::NoActiveWindow);
        }
        let w = native_u32(value[0], value[1], value[2], value[3]);
        if w != 0 {
            Ok(Some(w))
        } else {
            Ok(None)
        }
    } else {
        Ok(None)
    }
}

/// The active window from the input focus: an error when nothing, or the
/// root window, has the focus.
pub fn focus_window(focus: u32, root: u32) -> (r: Result<u32, GarshotError>)
    ensures
        focus == 0 || focus == root ==> r matches Err(GarshotError::NoActiveWindow),
        !(focus == 0 || focus == root) ==> r == Ok::<u32, GarshotError>(focus),
{
    if focus == 0 || focus == root {
        Err(GarshotError::NoActiveWindow)
    } else {
        Ok(focus)
    }
}

/// The message for a capture larger than the shared memory buffer.
pub open spec fn buffer_too_small_message(width: u16, height: u16, needed: nat, size: nat) -> Seq<char> {
    "Region "@ + decimal(width as nat) + seq!['x'] + decimal(height as nat) + " requires "@
        + decimal(needed) + " bytes, but buffer is only "@ + decimal(size) + " bytes"@
}

/// The number of bytes a `width` x `height` capture takes in a shared memory
/// buffer of `size` bytes, or the error when it does not fit.
pub fn shm_capture_bytes(width: u16, height: u16, size: usize) -> (r: Result<usize, GarshotError>)
    requires
        width * height * 4 <= usize::MAX,
    ensures
        width * height * 4 <= size ==> r == Ok::<usize, GarshotError>((width * height * 4) as usize),
        width * height * 4 > size ==> (r matches Err(GarshotError::InvalidRegion(m))
            && m@ == buffer_too_small_message(width, height, (width * height * 4) as nat, size as nat)),
{
    assert(width * height <= width * height * 4) by (nonlinear_arith);
    let pixels: usize = width as usize * height as usize;
    let bytes: usize = pixels * 4;
    if bytes <= size {
        Ok(bytes)
    } else {
        let mut out = chars_of("Region ");
        push_all(&mut out, decimal_chars(width as u64).as_slice());
        out.push('x');
        push_all(&mut out, decimal_chars(height as u64).as_slice());
        push_all(&mut out, chars_of(" requires ").as_slice());
        push_all(&mut out, decimal_chars(bytes as u64).as_slice());
        push_all(&mut out, chars_of(" bytes, but buffer is only ").as_slice());
        push_all(&mut out, decimal_chars(size as u64).as_slice());
        push_all(&mut out, chars_of(" bytes").as_slice());
        let m = string_of(out.as_slice());
        assert(m@ =~= buffer_too_small_message(width, height, (width * height * 4) as nat, size as nat));
        Err(GarshotError::InvalidRegion(m))
    }
}

/// The drawable to capture from: the compositor's overlay window when
/// there is one, the root window otherwise.
pub fn capture_drawable(overlay_window: Option<u32>, root: u32) -> (d: u32)
    ensures
        d == match overlay_window {
            Some(w) => w,
            None => root,
        },
{
    match overlay_window {
        Some(w) => w,
        None => root,
    }
}

/// The name of the selection a compositing manager owns on screen
/// `screen_num`: `_NET_WM_CM_S<n>`.
pub open spec fn compositor_selection(screen_num: u64) -> Seq<char> {
    "_NET_WM_CM_S"@ + decimal(screen_num as nat)
}

/// The compositing manager selection's name for screen `screen_num`.
pub fn compositor_selection_name(screen_num: u64) -> (r: String)
    ensures
        r@ == compositor_selection(screen_num),
{
    let mut out = chars_of("_NET_WM_CM_S");
    push_all(&mut out, decimal_chars(screen_num).as_slice());
    string_of(out.as_slice())
}

} // verus!
