//! Screen regions: geometry parsing, clipping to the screen, and the regions
//! of windows and monitors.

use vstd::prelude::*;
use crate::error::GarshotError;
use crate::text::{
    chars_of, decimal, decimal_chars, digits_value, parse_digits, parse_unsigned,
    parse_unsigned_chars, push_all, string_of, sub_chars, trim_chars, trimmed, is_white_space,
    lemma_leading_space, lemma_trailing_space, is_ascii_digit, all_digits, lemma_decimal_digits,
};

verus! {

broadcast use vstd::string::group_string_axioms;

/// A rectangular region on the screen.
#[derive(Debug, Clone, Copy, PartialEq, Eq, Structural)]
pub struct Region {
    pub x: i16,
    pub y: i16,
    pub width: u16,
    pub height: u16,
}

/// Position of the first separator of `s`: an `x` when `signs` is false,
/// a `+` or `-` when it is true.
pub open spec fn first_sep(s: Seq<char>, signs: bool) -> Option<nat>
    decreases s.len(),
{
    if s.len() == 0 {
        None
    } else if is_sep(s[0], signs) {
        Some(0)
    } else {
        match first_sep(s.skip(1), signs) {
            Some(i) => Some(i + 1),
            None => None,
        }
    }
}

/// `c` separates geometry fields: `x`, or `+`/`-` when `signs`.
pub open spec fn is_sep(c: char, signs: bool) -> bool {
    if signs {
        c == '+' || c == '-'
    } else {
        c == 'x'
    }
}

/// The fields of a geometry string `WxH±X±Y` before the signs are applied.
pub struct GeometryFields {
    pub width: nat,
    pub height: nat,
    pub x_negative: bool,
    pub x_val: nat,
    pub y_negative: bool,
    pub y_val: nat,
}

/// An offset of a geometry string: decimal digits only, at most 32767.
pub open spec fn offset_value(p: Seq<char>) -> Option<nat> {
    match digits_value(p, 10) {
        Some(v) => if v <= 32767 {
            Some(v)
        } else {
            None
        },
        None => None,
    }
}

/// Parse of a geometry string: the text is trimmed, the width runs up to the
/// first `x`, the height up to the next `+` or `-`, the x offset up to the
/// following `+` or `-`, and the y offset to the end. Width and height are
/// read as `str::parse` reads a `u16`; each offset is decimal digits alone,
/// at most 32767, its sign being the one separator before it. An error
/// carries the message of the first step that fails.
pub open spec fn geometry_fields(s: Seq<char>) -> Result<GeometryFields, Seq<char>> {
    width_and_rest(trimmed(s))
}

/// The width of a trimmed geometry string, then the rest of its fields.
pub open spec fn width_and_rest(t: Seq<char>) -> Result<GeometryFields, Seq<char>> {
    match first_sep(t, false) {
        None => Err("missing 'x' separator"@),
        Some(xp) => match parse_unsigned(t.take(xp as int), 10, 65535) {
            None => Err("invalid width"@),
            Some(width) => height_and_offsets(t.skip(xp + 1 as int), width),
        },
    }
}

/// The height that follows the `x`, then the offsets.
pub open spec fn height_and_offsets(rest: Seq<char>, width: nat) -> Result<GeometryFields, Seq<char>> {
    match first_sep(rest, true) {
        None => Err("missing +/- for x coordinate"@),
        Some(sp) => match parse_unsigned(rest.take(sp as int), 10, 65535) {
            None => Err("invalid height"@),
            Some(height) => offsets(rest.skip(sp + 1 as int), width, height, rest[sp as int] == '-'),
        },
    }
}

/// The two offsets that follow the x offset's sign.
pub open spec fn offsets(rest2: Seq<char>, width: nat, height: nat, x_negative: bool) -> Result<
    GeometryFields,
    Seq<char>,
> {
    match first_sep(rest2, true) {
        None => Err("missing +/- for y coordinate"@),
        Some(sp2) => match offset_value(rest2.take(sp2 as int)) {
            None => Err("invalid x coordinate"@),
            Some(x_val) => match offset_value(rest2.skip(sp2 + 1 as int)) {
                None => Err("invalid y coordinate"@),
                Some(y_val) => Ok(
                    GeometryFields {
                        width,
                        height,
                        x_negative,
                        x_val,
                        y_negative: rest2[sp2 as int] == '-',
                        y_val,
                    },
                ),
            },
        },
    }
}

/// The region a well-formed geometry describes.
pub open spec fn geometry_region(f: GeometryFields) -> Region {
    Region {
        x: (if f.x_negative {
            -f.x_val
        } else {
            f.x_val as int
        }) as i16,
        y: (if f.y_negative {
            -f.y_val
        } else {
            f.y_val as int
        }) as i16,
        width: f.width as u16,
        height: f.height as u16,
    }
}

/// `i16` value that `v as i16` gives.
pub open spec fn wrap_i16(v: u16) -> int {
    if v < 32768 {
        v as int
    } else {
        v - 65536
    }
}

/// One dimension of `clip_to_screen`: the start moves to 0 if it was
/// negative, the length shrinks by what was cut off (saturating at 0), and
/// is capped by what remains of the screen after the start.
pub open spec fn clip_axis(pos: int, len: int, screen: u16) -> (int, int) {
    let p = if pos < 0 {
        0
    } else {
        pos
    };
    let adjusted = if len - (p - pos) < 0 {
        0
    } else {
        len - (p - pos)
    };
    let room = if wrap_i16(screen) - p < 0 {
        0
    } else {
        wrap_i16(screen) - p
    };
    (p, if adjusted < room {
        adjusted
    } else {
        room
    })
}

/// The inputs on which `clip_to_screen` runs without overflow.
pub open spec fn clip_fits(r: Region, screen_width: u16, screen_height: u16) -> bool {
    &&& r.x > i16::MIN
    &&& r.y > i16::MIN
    &&& wrap_i16(screen_width) - (if r.x < 0 { 0 } else { r.x as int }) >= i16::MIN
    &&& wrap_i16(screen_height) - (if r.y < 0 { 0 } else { r.y as int }) >= i16::MIN
}

/// The region `clip_to_screen` gives.
pub open spec fn clipped(r: Region, screen_width: u16, screen_height: u16) -> Region {
    let (x, w) = clip_axis(r.x as int, r.width as int, screen_width);
    let (y, h) = clip_axis(r.y as int, r.height as int, screen_height);
    Region { x: x as i16, y: y as i16, width: w as u16, height: h as u16 }
}

/// Pixel `p` lies in the span of `len` pixels starting at `pos`.
pub open spec fn covers(pos: int, len: int, p: int) -> bool {
    pos <= p < pos + len
}

impl Region {
    /// Create a new region.
    pub fn new(x: i16, y: i16, width: u16, height: u16) -> (r: Self)
        ensures
            r == (Region { x, y, width, height }),
    {
        Region { x, y, width, height }
    }

    /// Parse a geometry string in the format `WxH+X+Y` or `WxH-X-Y`,
    /// for example `800x600+100+50` or `640x480-10-10`.
    pub fn from_geometry(s: &str) -> (r: Result<Self, GarshotError>)
        ensures
            match geometry_fields(s@) {
                Ok(f) => r == Ok::<Region, GarshotError>(geometry_region(f)),
                Err(m) => r matches Err(GarshotError::InvalidRegion(e)) && e@ == m,
            },
    {
        match parse_geometry_fields(s) {
            Ok(f) => {
                let x = if f.x_negative {
                    0 - f.x_val
                } else {
                    f.x_val
                };
                let y = if f.y_negative {
                    0 - f.y_val
                } else {
                    f.y_val
                };
                Ok(Region { x, y, width: f.width, height: f.height })
            },
            Err(m) => Err(GarshotError::InvalidRegion(m)),
        }
    }

    /// Clip the region to a screen of the given size.
    pub fn clip_to_screen(&self, screen_width: u16, screen_height: u16) -> (r: Self)
        requires
            clip_fits(*self, screen_width, screen_height),
        ensures
            r == clipped(*self, screen_width, screen_height),
    {
        let (x, width) = clip_span(self.x, self.width, screen_width);
        let (y, height) = clip_span(self.y, self.height, screen_height);
        Region { x, y, width, height }
    }

    /// Whether the region has non-zero dimensions.
    pub fn is_valid(&self) -> (b: bool)
        ensures
            b == (self.width > 0 && self.height > 0),
    {
        self.width > 0 && self.height > 0
    }
}

fn clip_span(pos: i16, len: u16, screen: u16) -> (r: (i16, u16))
    requires
        pos > i16::MIN,
        wrap_i16(screen) - (if pos < 0 { 0 } else { pos as int }) >= i16::MIN,
    ensures
        r.0 == clip_axis(pos as int, len as int, screen).0,
        r.1 == clip_axis(pos as int, len as int, screen).1,
{
    let p: i16 = if pos < 0 {
        0
    } else {
        pos
    };
    let shift = (p - pos) as u16;
    let adjusted = len.saturating_sub(shift);
    let wrapped: i16 = if screen < 32768 {
        screen as i16
    } else {
        (screen as i32 - 65536) as i16
    };
    let room_signed = wrapped - p;
    let room: u16 = if room_signed < 0 {
        0
    } else {
        room_signed as u16
    };
    (p, if adjusted < room {
        adjusted
    } else {
        room
    })
}

/// Fields of a geometry string, before the signs are applied.
struct RawGeometry {
    width: u16,
    height: u16,
    x_negative: bool,
    x_val: i16,
    y_negative: bool,
    y_val: i16,
}

proof fn lemma_first_sep(s: Seq<char>, signs: bool, i: int)
    requires
        0 <= i <= s.len(),
        forall|j: int| 0 <= j < i ==> !is_sep(#[trigger] s[j], signs),
        i == s.len() || is_sep(s[i], signs),
    ensures
        first_sep(s, signs) == if i == s.len() {
            None::<nat>
        } else {
            Some(i as nat)
        },
    decreases i,
{
    if i > 0 {
        lemma_first_sep(s.skip(1), signs, i - 1);
    }
}

fn find_sep(v: &[char], signs: bool) -> (r: Option<usize>)
    ensures
        first_sep(v@, signs) == match r {
            Some(i) => Some(i as nat),
            None => None::<nat>,
        },
        r matches Some(i) ==> i < v@.len() && is_sep(v@[i as int], signs) && forall|j: int|
            0 <= j < i ==> !is_sep(#[trigger] v@[j], signs),
{
    let mut i: usize = 0;
    while i < v.len()
        invariant
            i <= v@.len(),
            forall|j: int| 0 <= j < i ==> !is_sep(#[trigger] v@[j], signs),
        decreases v@.len() - i,
    {
        let c = v[i];
        let hit = if signs {
            c == '+' || c == '-'
        } else {
            c == 'x'
        };
        if hit {
            proof {
                lemma_first_sep(v@, signs, i as int);
            }
            return Some(i);
        }
        i = i + 1;
    }
    proof {
        lemma_first_sep(v@, signs, i as int);
    }
    None
}

fn message(s: &str) -> (r: String)
    ensures
        r@ == s@,
{
    s.to_string()
}

fn parse_geometry_fields(s: &str) -> (r: Result<RawGeometry, String>)
    ensures
        match geometry_fields(s@) {
            Ok(f) => r matches Ok(g) && g.width == f.width && g.height == f.height && g.x_negative
                == f.x_negative && g.x_val == f.x_val && g.y_negative == f.y_negative && g.y_val
                == f.y_val && f.x_val <= 32767 && f.y_val <= 32767,
            Err(m) => r matches Err(e) && e@ == m,
        },
{
    let raw = chars_of(s);
    let t = trim_chars(raw.as_slice());
    let tlen = t.len();
    let xp = match find_sep(t.as_slice(), false) {
        Some(p) => p,
        None => {
            return Err(message("missing 'x' separator"));
        },
    };
    let wpart = sub_chars(t.as_slice(), 0, xp);
    assert(wpart@ == t@.take(xp as int));
    let width = match parse_unsigned_chars(wpart.as_slice(), 10, 65535) {
        Some(v) => v as u16,
        None => {
            return Err(message("invalid width"));
        },
    };
    let rest = sub_chars(t.as_slice(), xp + 1, tlen);
    assert(rest@ == t@.skip(xp + 1));
    let sp = match find_sep(rest.as_slice(), true) {
        Some(p) => p,
        None => {
            return Err(message("missing +/- for x coordinate"));
        },
    };
    let hpart = sub_chars(rest.as_slice(), 0, sp);
    assert(hpart@ == rest@.take(sp as int));
    let height = match parse_unsigned_chars(hpart.as_slice(), 10, 65535) {
        Some(v) => v as u16,
        None => {
            return Err(message("invalid height"));
        },
    };
    let x_negative = rest[sp] == '-';
    let rlen = rest.len();
    let rest2 = sub_chars(rest.as_slice(), sp + 1, rlen);
    assert(rest2@ == rest@.skip(sp + 1));
    let sp2 = match find_sep(rest2.as_slice(), true) {
        Some(p) => p,
        None => {
            return Err(message("missing +/- for y coordinate"));
        },
    };
    let xpart = sub_chars(rest2.as_slice(), 0, sp2);
    assert(xpart@ == rest2@.take(sp2 as int));
    let x_val = match parse_digits(xpart.as_slice(), 10, 32767) {
        Some(v) => v as i16,
        None => {
            return Err(message("invalid x coordinate"));
        },
    };
    let r2len = rest2.len();
    let ypart = sub_chars(rest2.as_slice(), sp2 + 1, r2len);
    assert(ypart@ == rest2@.skip(sp2 + 1));
    let y_val = match parse_digits(ypart.as_slice(), 10, 32767) {
        Some(v) => v as i16,
        None => {
            return Err(message("invalid y coordinate"));
        },
    };
    let y_negative = rest2[sp2] == '-';
    Ok(RawGeometry { width, height, x_negative, x_val, y_negative, y_val })
}

/// An offset written with its sign: `+` then the digits of a non-negative
/// offset, `-` then those of the magnitude of a negative one.
pub open spec fn signed_offset(v: i16) -> Seq<char> {
    if v < 0 {
        seq!['-'] + decimal((-(v as int)) as nat)
    } else {
        seq!['+'] + decimal(v as nat)
    }
}

/// A region written as a geometry string `WxH±X±Y`.
pub open spec fn geometry_text(r: Region) -> Seq<char> {
    decimal(r.width as nat) + seq!['x'] + decimal(r.height as nat) + signed_offset(r.x)
        + signed_offset(r.y)
}

/// Every character of `s` is white space.
pub open spec fn all_white_space(s: Seq<char>) -> bool {
    forall|i: int| 0 <= i < s.len() ==> is_white_space(#[trigger] s[i])
}

proof fn lemma_first_sep_at(a: Seq<char>, b: Seq<char>, signs: bool)
    requires
        forall|i: int| 0 <= i < a.len() ==> is_ascii_digit(#[trigger] a[i]),
        b.len() > 0,
        is_sep(b[0], signs),
    ensures
        first_sep(a + b, signs) == Some(a.len()),
    decreases a.len(),
{
    if a.len() > 0 {
        assert((a + b).skip(1) =~= a.skip(1) + b);
        lemma_first_sep_at(a.skip(1), b, signs);
    } else {
        assert(a + b =~= b);
    }
}

proof fn lemma_trim_padding(pad_l: Seq<char>, s: Seq<char>, pad_r: Seq<char>)
    requires
        all_white_space(pad_l),
        all_white_space(pad_r),
        s.len() > 0,
        !is_white_space(s[0]),
        !is_white_space(s.last()),
    ensures
        trimmed(pad_l + s + pad_r) == s,
{
    let p = pad_l + s + pad_r;
    lemma_leading_space(p, pad_l.len() as int);
    let t = p.skip(pad_l.len() as int);
    assert(t =~= s + pad_r);
    lemma_trailing_space(t, pad_r.len() as int);
    assert(t.take(t.len() - pad_r.len()) =~= s);
}

/// The digits of `n`, with the facts the parser needs of them.
proof fn lemma_number(n: nat)
    ensures
        decimal(n).len() > 0,
        all_digits(decimal(n)),
        digits_value(decimal(n), 10) == Some(n),
{
    lemma_decimal_digits(n);
}

proof fn lemma_offsets_parse(dx: Seq<char>, sy: char, dy: Seq<char>, ax: nat, ay: nat, width: nat, height: nat, xn: bool)
    requires
        dx.len() > 0,
        all_digits(dx),
        digits_value(dx, 10) == Some(ax),
        digits_value(dy, 10) == Some(ay),
        ax <= 32767,
        ay <= 32767,
        sy == '+' || sy == '-',
    ensures
        offsets(dx + (seq![sy] + dy), width, height, xn) == Ok::<GeometryFields, Seq<char>>(
            GeometryFields { width, height, x_negative: xn, x_val: ax, y_negative: sy == '-', y_val: ay },
        ),
{
    let rest2 = dx + (seq![sy] + dy);
    lemma_first_sep_at(dx, seq![sy] + dy, true);
    assert(rest2.take(dx.len() as int) =~= dx);
    assert(rest2[dx.len() as int] == sy);
    assert(rest2.skip(dx.len() + 1int) =~= dy);
}

proof fn lemma_height_parse(dh: Seq<char>, sx: char, tail: Seq<char>, height: nat, width: nat)
    requires
        dh.len() > 0,
        all_digits(dh),
        digits_value(dh, 10) == Some(height),
        height <= 65535,
        sx == '+' || sx == '-',
    ensures
        height_and_offsets(dh + (seq![sx] + tail), width) == offsets(tail, width, height, sx == '-'),
{
    let rest = dh + (seq![sx] + tail);
    lemma_first_sep_at(dh, seq![sx] + tail, true);
    assert(rest.take(dh.len() as int) =~= dh);
    assert(rest[dh.len() as int] == sx);
    assert(rest.skip(dh.len() + 1int) =~= tail);
    assert(is_ascii_digit(dh[0]));
}

proof fn lemma_width_parse(dw: Seq<char>, tail: Seq<char>, width: nat)
    requires
        dw.len() > 0,
        all_digits(dw),
        digits_value(dw, 10) == Some(width),
        width <= 65535,
    ensures
        width_and_rest(dw + (seq!['x'] + tail)) == height_and_offsets(tail, width),
{
    let t = dw + (seq!['x'] + tail);
    lemma_first_sep_at(dw, seq!['x'] + tail, false);
    assert(t.take(dw.len() as int) =~= dw);
    assert(t.skip(dw.len() + 1int) =~= tail);
    assert(is_ascii_digit(dw[0]));
}

/// Writing a region as a geometry string, with any white space around it,
/// and parsing that string gives the region back, for offsets above -32768
/// (whose magnitude no offset can hold).
pub proof fn lemma_geometry_round_trip(r: Region, pad_l: Seq<char>, pad_r: Seq<char>)
    requires
        r.x > i16::MIN,
        r.y > i16::MIN,
        all_white_space(pad_l),
        all_white_space(pad_r),
    ensures
        geometry_fields(pad_l + geometry_text(r) + pad_r) matches Ok(f) && geometry_region(f) == r,
{
    let ax: nat = (if r.x < 0 { -(r.x as int) } else { r.x as int }) as nat;
    let ay: nat = (if r.y < 0 { -(r.y as int) } else { r.y as int }) as nat;
    let dw = decimal(r.width as nat);
    let dh = decimal(r.height as nat);
    let dx = decimal(ax);
    let dy = decimal(ay);
    lemma_number(r.width as nat);
    lemma_number(r.height as nat);
    lemma_number(ax);
    lemma_number(ay);
    let sx: char = if r.x < 0 { '-' } else { '+' };
    let sy: char = if r.y < 0 { '-' } else { '+' };
    let tail2 = dx + (seq![sy] + dy);
    let tail1 = dh + (seq![sx] + tail2);
    let g = dw + (seq!['x'] + tail1);
    assert(signed_offset(r.x) =~= seq![sx] + dx);
    assert(signed_offset(r.y) =~= seq![sy] + dy);
    assert(geometry_text(r) =~= g);
    assert(is_ascii_digit(dw[0]));
    assert(is_ascii_digit(dy[dy.len() - 1]));
    assert(g[0] == dw[0]);
    assert(g.last() == dy[dy.len() - 1]);
    lemma_trim_padding(pad_l, g, pad_r);
    lemma_offsets_parse(dx, sy, dy, ax, ay, r.width as nat, r.height as nat, sx == '-');
    lemma_height_parse(dh, sx, tail2, r.height as nat, r.width as nat);
    lemma_width_parse(dw, tail1, r.width as nat);
}

/// Clipping to a screen narrower and lower than 32768 pixels keeps exactly the
/// pixels of the region that lie on the screen.
pub proof fn lemma_clip_is_intersection(r: Region, screen_width: u16, screen_height: u16)
    requires
        clip_fits(r, screen_width, screen_height),
        screen_width < 32768,
        screen_height < 32768,
    ensures
        forall|px: int|
            covers(
                clipped(r, screen_width, screen_height).x as int,
                clipped(r, screen_width, screen_height).width as int,
                px,
            ) <==> covers(r.x as int, r.width as int, px) && 0 <= px < screen_width,
        forall|py: int|
            covers(
                clipped(r, screen_width, screen_height).y as int,
                clipped(r, screen_width, screen_height).height as int,
                py,
            ) <==> covers(r.y as int, r.height as int, py) && 0 <= py < screen_height,
{
}

/// A clipped region lies on the screen: it starts at a non-negative position
/// and, unless it is empty, ends within the screen.
pub proof fn lemma_clip_on_screen(r: Region, screen_width: u16, screen_height: u16)
    requires
        clip_fits(r, screen_width, screen_height),
    ensures
        clipped(r, screen_width, screen_height).x >= 0,
        clipped(r, screen_width, screen_height).y >= 0,
        clipped(r, screen_width, screen_height).width > 0 ==> clipped(
            r,
            screen_width,
            screen_height,
        ).x + clipped(r, screen_width, screen_height).width <= screen_width,
        clipped(r, screen_width, screen_height).height > 0 ==> clipped(
            r,
            screen_width,
            screen_height,
        ).y + clipped(r, screen_width, screen_height).height <= screen_height,
{
}

/// Clipping twice to the same screen is the same as clipping once.
pub proof fn lemma_clip_idempotent(r: Region, screen_width: u16, screen_height: u16)
    requires
        clip_fits(r, screen_width, screen_height),
    ensures
        clip_fits(clipped(r, screen_width, screen_height), screen_width, screen_height),
        clipped(clipped(r, screen_width, screen_height), screen_width, screen_height) == clipped(
            r,
            screen_width,
            screen_height,
        ),
{
}

/// Information about a window's geometry.
#[derive(Debug, Clone)]
pub struct WindowGeometry {
    /// Window ID.
    pub id: u32,
    /// X coordinate relative to the root window.
    pub x: i16,
    /// Y coordinate relative to the root window.
    pub y: i16,
    /// Window width.
    pub width: u16,
    /// Window height.
    pub height: u16,
    /// Border width.
    pub border_width: u16,
}

/// The inputs on which `to_region_with_borders` runs without overflow.
pub open spec fn borders_fit(g: WindowGeometry) -> bool {
    &&& i16::MIN <= g.x - wrap_i16(g.border_width) <= i16::MAX
    &&& i16::MIN <= g.y - wrap_i16(g.border_width) <= i16::MAX
    &&& g.border_width * 2 <= u16::MAX
    &&& g.width + g.border_width * 2 <= u16::MAX
    &&& g.height + g.border_width * 2 <= u16::MAX
}

/// Whether `to_region_with_borders` can run on this geometry.
pub fn borders_fit_check(g: &WindowGeometry) -> (b: bool)
    ensures
        b == borders_fit(*g),
{
    let border: i32 = if g.border_width < 32768 {
        g.border_width as i32
    } else {
        g.border_width as i32 - 65536
    };
    let bx = g.x as i32 - border;
    let by = g.y as i32 - border;
    let twice = g.border_width as u32 * 2;
    -32768 <= bx && bx <= 32767 && -32768 <= by && by <= 32767 && twice <= 65535 && g.width as u32
        + twice <= 65535 && g.height as u32 + twice <= 65535
}

impl WindowGeometry {
    /// The capture region of the window's inside.
    pub fn to_region(&self) -> (r: Region)
        ensures
            r == (Region { x: self.x, y: self.y, width: self.width, height: self.height }),
    {
        Region::new(self.x, self.y, self.width, self.height)
    }

    /// The capture region of the window including its border.
    pub fn to_region_with_borders(&self) -> (r: Region)
        requires
            borders_fit(*self),
        ensures
            r.x == self.x - wrap_i16(self.border_width),
            r.y == self.y - wrap_i16(self.border_width),
            r.width == self.width + 2 * self.border_width,
            r.height == self.height + 2 * self.border_width,
    {
        let border: i16 = if self.border_width < 32768 {
            self.border_width as i16
        } else {
            (self.border_width as i32 - 65536) as i16
        };
        Region::new(
            self.x - border,
            self.y - border,
            self.width + self.border_width * 2,
            self.height + self.border_width * 2,
        )
    }
}

/// Information about a monitor.
#[derive(Debug, Clone)]
pub struct Monitor {
    /// Output name (for example "HDMI-1").
    pub name: String,
    /// X coordinate.
    pub x: i16,
    /// Y coordinate.
    pub y: i16,
    /// Width in pixels.
    pub width: u16,
    /// Height in pixels.
    pub height: u16,
    /// Whether this is the primary monitor.
    pub primary: bool,
    /// Output ID.
    pub output_id: u32,
    /// CRTC ID.
    pub crtc_id: u32,
}

impl Monitor {
    /// The capture region of the monitor.
    pub fn to_region(&self) -> (r: Region)
        ensures
            r == (Region { x: self.x, y: self.y, width: self.width, height: self.height }),
    {
        Region::new(self.x, self.y, self.width, self.height)
    }
}

/// Index of the first monitor of `s` named `name`, or of the first primary
/// monitor when `name` is `None`.
pub open spec fn first_monitor(s: Seq<Monitor>, name: Option<Seq<char>>) -> Option<int>
    decreases s.len(),
{
    if s.len() == 0 {
        None
    } else if monitor_matches(s[0], name) {
        Some(0)
    } else {
        match first_monitor(s.skip(1), name) {
            Some(i) => Some(i + 1),
            None => None,
        }
    }
}

/// The monitor has the name `name`, or is primary when `name` is `None`.
pub open spec fn monitor_matches(m: Monitor, name: Option<Seq<char>>) -> bool {
    match name {
        Some(n) => m.name@ == n,
        None => m.primary,
    }
}

proof fn lemma_first_monitor(s: Seq<Monitor>, name: Option<Seq<char>>, i: int)
    requires
        0 <= i <= s.len(),
        forall|j: int| 0 <= j < i ==> !monitor_matches(#[trigger] s[j], name),
        i == s.len() || monitor_matches(s[i], name),
    ensures
        first_monitor(s, name) == if i == s.len() {
            None::<int>
        } else {
            Some(i)
        },
    decreases i,
{
    if i > 0 {
        lemma_first_monitor(s.skip(1), name, i - 1);
    }
}

fn find_monitor_index(monitors: &[Monitor], name: Option<&str>) -> (r: Option<usize>)
    ensures
        first_monitor(
            monitors@,
            match name {
                Some(n) => Some(n@),
                None => None,
            },
        ) == match r {
            Some(i) => Some(i as int),
            None => None::<int>,
        },
        r matches Some(i) ==> i < monitors@.len(),
{
    let ghost key = match name {
        Some(n) => Some(n@),
        None => None,
    };
    let mut i: usize = 0;
    while i < monitors.len()
        invariant
            i <= monitors@.len(),
            key == match name {
                Some(n) => Some(n@),
                None => None::<Seq<char>>,
            },
            forall|j: int| 0 <= j < i ==> !monitor_matches(#[trigger] monitors@[j], key),
        decreases monitors@.len() - i,
    {
        let hit = match name {
            Some(n) => crate::text::str_equal(monitors[i].name.as_str(), n),
            None => monitors[i].primary,
        };
        if hit {
            proof {
                lemma_first_monitor(monitors@, key, i as int);
            }
            return Some(i);
        }
        i = i + 1;
    }
    proof {
        lemma_first_monitor(monitors@, key, i as int);
    }
    None
}

/// Find the first monitor with the given name.
pub fn find_monitor<'a>(monitors: &'a [Monitor], name: &str) -> (r: Option<&'a Monitor>)
    ensures
        match first_monitor(monitors@, Some(name@)) {
            Some(i) => r == Some(&monitors@[i]),
            None => r is None,
        },
{
    match find_monitor_index(monitors, Some(name)) {
        Some(i) => Some(&monitors[i]),
        None => None,
    }
}

/// Find the first primary monitor.
pub fn get_primary_monitor(monitors: &[Monitor]) -> (r: Option<&Monitor>)
    ensures
        match first_monitor(monitors@, None) {
            Some(i) => r == Some(&monitors@[i]),
            None => r is None,
        },
{
    match find_monitor_index(monitors, None) {
        Some(i) => Some(&monitors[i]),
        None => None,
    }
}

/// Whether an output is shown on a monitor: it drives a CRTC and is
/// connected.
pub fn usable_output(crtc: u32, connected: bool) -> (b: bool)
    ensures
        b == (crtc != 0 && connected),
{
    crtc != 0 && connected
}

/// Monitor `a` comes no later than `b`: left to right, then top to bottom.
pub open spec fn position_le(a: Monitor, b: Monitor) -> bool {
    a.x < b.x || (a.x == b.x && a.y <= b.y)
}

/// The monitors are ordered left to right, then top to bottom.
pub open spec fn sorted_by_position(s: Seq<Monitor>) -> bool {
    forall|i: int, j: int| 0 <= i < j < s.len() ==> position_le(#[trigger] s[i], #[trigger] s[j])
}

/// The monitors at position `(x, y)`.
pub open spec fn at_position(x: i16, y: i16) -> spec_fn(Monitor) -> bool {
    |m: Monitor| m.x == x && m.y == y
}

fn comes_before(a: &Monitor, b: &Monitor) -> (r: bool)
    ensures
        r == position_le(*a, *b),
{
    a.x < b.x || (a.x == b.x && a.y <= b.y)
}

proof fn lemma_insert_sorted(s: Seq<Monitor>, p: int, m: Monitor)
    requires
        sorted_by_position(s),
        0 <= p <= s.len(),
        forall|q: int| 0 <= q < p ==> position_le(#[trigger] s[q], m),
        p < s.len() ==> !position_le(s[p], m),
    ensures
        sorted_by_position(s.insert(p, m)),
        forall|x: i16, y: i16|
            #[trigger] s.insert(p, m).filter(at_position(x, y)) == if m.x == x && m.y == y {
                s.filter(at_position(x, y)).push(m)
            } else {
                s.filter(at_position(x, y))
            },
{
    let t = s.insert(p, m);
    assert forall|i: int, j: int| 0 <= i < j < t.len() implies position_le(#[trigger] t[i], #[trigger] t[j]) by {
        if j < p {
            assert(t[i] == s[i] && t[j] == s[j]);
        } else if j == p {
            assert(t[i] == s[i]);
        } else if i == p {
            assert(t[j] == s[j - 1]);
            if j - 1 > p {
                assert(position_le(s[p], s[j - 1]));
            }
        } else if i < p {
            assert(t[i] == s[i] && t[j] == s[j - 1]);
        } else {
            assert(t[i] == s[i - 1] && t[j] == s[j - 1]);
        }
    }
    let a = s.take(p);
    let b = s.skip(p);
    assert(s =~= a + b);
    assert(t =~= a + seq![m] + b);
    assert forall|x: i16, y: i16|
        #[trigger] s.insert(p, m).filter(at_position(x, y)) == if m.x == x && m.y == y {
            s.filter(at_position(x, y)).push(m)
        } else {
            s.filter(at_position(x, y))
        } by {
        let f = at_position(x, y);
        Seq::filter_distributes_over_add(a, b, f);
        Seq::filter_distributes_over_add(a + seq![m], b, f);
        Seq::filter_distributes_over_add(a, seq![m], f);
        seq![m].lemma_filter_push(m, f);
        assert(seq![m] =~= Seq::<Monitor>::empty().push(m));
        Seq::<Monitor>::empty().lemma_filter_push(m, f);
        reveal(Seq::filter);
        assert(Seq::<Monitor>::empty().filter(f) =~= Seq::<Monitor>::empty());
        if m.x == x && m.y == y {
            assert forall|k: int| 0 <= k < b.len() implies !f(#[trigger] b[k]) by {
                assert(b[k] == s[p + k]);
                if k > 0 {
                    assert(position_le(s[p], s[p + k]));
                }
            }
            assert(b.all(|e: Monitor| !f(e)));
            b.lemma_all_neg_filter_empty(f);
            assert(b.filter(f) =~= Seq::<Monitor>::empty());
            assert(a.filter(f) + seq![m] + Seq::<Monitor>::empty() =~= (a.filter(f) + Seq::<Monitor>::empty()).push(m));
        } else {
            assert(a.filter(f) + Seq::<Monitor>::empty() + b.filter(f) =~= a.filter(f) + b.filter(f));
        }
    }
}

/// Order monitors by position, left to right and then top to bottom;
/// monitors at the same position keep their order.
pub fn sort_monitors(monitors: &mut Vec<Monitor>)
    ensures
        sorted_by_position(final(monitors)@),
        forall|x: i16, y: i16|
            #[trigger] final(monitors)@.filter(at_position(x, y)) == old(monitors)@.filter(at_position(x, y)),
{
    let ghost orig = monitors@;
    let mut out: Vec<Monitor> = Vec::new();
    let ghost mut k: int = 0;
    proof {
        reveal(Seq::filter);
        assert forall|x: i16, y: i16| #[trigger] out@.filter(at_position(x, y)) == orig.take(0).filter(at_position(x, y)) by {
            assert(orig.take(0) =~= Seq::<Monitor>::empty());
            assert(out@ =~= Seq::<Monitor>::empty());
        }
        assert(orig.skip(0) =~= orig);
    }
    while monitors.len() > 0
        invariant
            0 <= k <= orig.len(),
            monitors@ == orig.skip(k),
            sorted_by_position(out@),
            forall|x: i16, y: i16| #[trigger] out@.filter(at_position(x, y)) == orig.take(k).filter(at_position(x, y)),
        decreases monitors@.len(),
    {
        let m = monitors.remove(0);
        let mut p: usize = 0;
        while p < out.len() && comes_before(&out[p], &m)
            invariant
                p <= out@.len(),
                forall|q: int| 0 <= q < p ==> position_le(#[trigger] out@[q], m),
            decreases out@.len() - p,
        {
            p = p + 1;
        }
        proof {
            lemma_insert_sorted(out@, p as int, m);
            assert(orig.take(k + 1) =~= orig.take(k).push(m));
            assert forall|x: i16, y: i16| #[trigger] out@.insert(p as int, m).filter(at_position(x, y))
                == orig.take(k + 1).filter(at_position(x, y)) by {
                orig.take(k).lemma_filter_push(m, at_position(x, y));
            }
            assert(monitors@ =~= orig.skip(k + 1));
            k = k + 1;
        }
        out.insert(p, m);
    }
    proof {
        assert(orig.take(k) =~= orig);
    }
    *monitors = out;
}

} // verus!
