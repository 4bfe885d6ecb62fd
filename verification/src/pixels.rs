//! Pixel format conversion between X11's BGRA and RGBA, and blending of the
//! cursor image into a captured screenshot.

use vstd::prelude::*;
use vstd::arithmetic::div_mod::lemma_fundamental_div_mod_converse;
use crate::region::Region;

verus! {

/// Byte `i` of the RGBA form of the BGRA bytes `s`: red and blue trade
/// places, and alpha becomes 255 when `opaque`.
pub open spec fn swapped_byte(s: Seq<u8>, i: int, opaque: bool) -> u8 {
    let base = i - i % 4;
    if i % 4 == 0 {
        s[base + 2]
    } else if i % 4 == 1 {
        s[base + 1]
    } else if i % 4 == 2 {
        s[base]
    } else if opaque {
        255u8
    } else {
        s[base + 3]
    }
}

/// The RGBA form of the whole pixels of `s`; a trailing partial pixel is dropped.
pub open spec fn rgba_of_bgra(s: Seq<u8>, opaque: bool) -> Seq<u8> {
    Seq::new((s.len() / 4 * 4) as nat, |i: int| swapped_byte(s, i, opaque))
}

/// `s` with red and blue swapped (and alpha 255 when `opaque`) in every whole
/// pixel; a trailing partial pixel is left as it is.
pub open spec fn swapped_in_place(s: Seq<u8>, opaque: bool) -> Seq<u8> {
    Seq::new(
        s.len(),
        |i: int|
            if i < s.len() / 4 * 4 {
                swapped_byte(s, i, opaque)
            } else {
                s[i]
            },
    )
}

/// Convert BGRA pixel data (X11 format) to RGBA.
pub fn bgra_to_rgba(data: &[u8]) -> (r: Vec<u8>)
    ensures
        r@ == rgba_of_bgra(data@, false),
{
    bgra_to_rgba_with_alpha(data, false)
}

/// Convert BGRA pixel data (X11 format) to RGBA, setting every alpha to 255
/// when `force_opaque` (the compositor overlay window reports alpha 0).
pub fn bgra_to_rgba_with_alpha(data: &[u8], force_opaque: bool) -> (r: Vec<u8>)
    ensures
        r@ == rgba_of_bgra(data@, force_opaque),
{
    let n = data.len() / 4;
    let mut rgba: Vec<u8> = Vec::with_capacity(data.len());
    let mut k: usize = 0;
    while k < n
        invariant
            k <= n,
            n == data@.len() / 4,
            data@.len() <= usize::MAX,
            rgba@.len() == 4 * k,
            forall|i: int| 0 <= i < 4 * k ==> rgba@[i] == swapped_byte(data@, i, force_opaque),
        decreases n - k,
    {
        let b = 4 * k;
        rgba.push(data[b + 2]);
        rgba.push(data[b + 1]);
        rgba.push(data[b]);
        rgba.push(
            if force_opaque {
                255
            } else {
                data[b + 3]
            },
        );
        k = k + 1;
    }
    proof {
        assert(rgba@ =~= rgba_of_bgra(data@, force_opaque));
    }
    rgba
}

/// Swap red and blue of every whole pixel in place, setting alpha to 255 when
/// `force_opaque`.
pub fn bgra_to_rgba_inplace_with_alpha(data: &mut [u8], force_opaque: bool)
    ensures
        final(data)@ == swapped_in_place(old(data)@, force_opaque),
{
    let n = data.len() / 4;
    let ghost s = data@;
    let mut k: usize = 0;
    while k < n
        invariant
            k <= n,
            n == s.len() / 4,
            s.len() <= usize::MAX,
            data@.len() == s.len(),
            forall|i: int|
                0 <= i < data@.len() ==> data@[i] == if i < 4 * k {
                    swapped_byte(s, i, force_opaque)
                } else {
                    s[i]
                },
        decreases n - k,
    {
        let b = 4 * k;
        let t = data[b];
        data[b] = data[b + 2];
        data[b + 2] = t;
        if force_opaque {
            data[b + 3] = 255;
        }
        k = k + 1;
    }
    proof {
        assert(data@ =~= swapped_in_place(s, force_opaque));
    }
}

/// Swap red and blue of every whole pixel in place.
pub fn bgra_to_rgba_inplace(data: &mut [u8])
    ensures
        final(data)@ == swapped_in_place(old(data)@, false),
{
    bgra_to_rgba_inplace_with_alpha(data, false)
}

/// Convert RGBA to BGRA (X11's native order): a copy with red and blue
/// swapped in every whole pixel.
pub fn rgba_to_bgra(data: &[u8]) -> (r: Vec<u8>)
    ensures
        r@ == swapped_in_place(data@, false),
{
    let mut bgra = vstd::slice::slice_to_vec(data);
    bgra_to_rgba_inplace_with_alpha(bgra.as_mut_slice(), false);
    bgra
}

/// Converting BGRA to RGBA and back gives the same bytes again, for data made
/// of whole pixels.
pub proof fn lemma_bgra_round_trip(s: Seq<u8>)
    requires
        s.len() % 4 == 0,
    ensures
        swapped_in_place(rgba_of_bgra(s, false), false) == s,
        rgba_of_bgra(swapped_in_place(s, false), false) == s,
{
    let t = rgba_of_bgra(s, false);
    let u = swapped_in_place(s, false);
    assert forall|i: int| 0 <= i < s.len() implies #[trigger] swapped_byte(t, i, false) == s[i]
        && swapped_byte(u, i, false) == s[i] by {
        lemma_pixel_offsets(i);
    }
    assert(swapped_in_place(t, false) =~= s);
    assert(rgba_of_bgra(u, false) =~= s);
}

proof fn lemma_pixel_offsets(i: int)
    requires
        0 <= i,
    ensures
        (i - i % 4) % 4 == 0,
        (i - i % 4 + 1) % 4 == 1,
        (i - i % 4 + 2) % 4 == 2,
        (i - i % 4 + 3) % 4 == 3,
        (i - i % 4 + 1) - (i - i % 4 + 1) % 4 == i - i % 4,
        (i - i % 4 + 2) - (i - i % 4 + 2) % 4 == i - i % 4,
        (i - i % 4) - (i - i % 4) % 4 == i - i % 4,
        0 <= i % 4 < 4,
{
}

/// Converting in place and converting into a new buffer give the same
/// bytes, for data made of whole pixels.
pub proof fn lemma_inplace_agrees(s: Seq<u8>, opaque: bool)
    requires
        s.len() % 4 == 0,
    ensures
        swapped_in_place(s, opaque) == rgba_of_bgra(s, opaque),
{
    assert(swapped_in_place(s, opaque) =~= rgba_of_bgra(s, opaque));
}

/// Cursor image data from XFixes.
#[derive(Debug)]
pub struct CursorImage {
    /// Cursor X position on screen.
    pub x: i16,
    /// Cursor Y position on screen.
    pub y: i16,
    /// Cursor image width.
    pub width: u16,
    /// Cursor image height.
    pub height: u16,
    /// Hotspot X offset.
    pub xhot: u16,
    /// Hotspot Y offset.
    pub yhot: u16,
    /// ARGB pixel data (premultiplied alpha).
    pub pixels: Vec<u32>,
}

/// `i32` value that `v as i32` gives.
pub open spec fn wrap_i32(v: u32) -> int {
    if v < 0x8000_0000 {
        v as int
    } else {
        v - 0x1_0000_0000
    }
}

/// Image position of the cursor image's top-left pixel.
pub open spec fn cursor_origin(region: Region, cursor: CursorImage) -> (int, int) {
    (cursor.x - cursor.xhot - region.x, cursor.y - cursor.yhot - region.y)
}

/// Index of cursor pixel `(cx, cy)` in the cursor's pixels.
pub open spec fn cursor_index(cursor: CursorImage, cx: int, cy: int) -> int {
    cy * cursor.width + cx
}

/// The ARGB value of cursor pixel `(cx, cy)`.
pub open spec fn cursor_pixel(cursor: CursorImage, cx: int, cy: int) -> u32 {
    cursor.pixels@[cursor_index(cursor, cx, cy)]
}

/// Alpha of an ARGB pixel.
pub open spec fn pixel_alpha(p: u32) -> int {
    p as int / 0x100_0000
}

/// Red (0), green (1) or blue (2) component of an ARGB pixel.
pub open spec fn pixel_channel(p: u32, ch: int) -> int {
    if ch == 0 {
        (p as int / 0x1_0000) % 256
    } else if ch == 1 {
        (p as int / 0x100) % 256
    } else {
        p as int % 256
    }
}

/// Image position `(ix, iy)` lies in an image of the given size.
pub open spec fn on_image(width: u32, height: u32, ix: int, iy: int) -> bool {
    0 <= ix < wrap_i32(width) && 0 <= iy < wrap_i32(height)
}

/// The inputs on which `blend_cursor` runs without fault: every cursor pixel
/// that lands on the image exists, and every one it writes lies in the buffer,
/// with 32-bit offsets.
pub open spec fn blend_safe(len: int, width: u32, height: u32, region: Region, cursor: CursorImage) -> bool {
    let (ox, oy) = cursor_origin(region, cursor);
    forall|cx: int, cy: int|
        #![trigger cursor_index(cursor, cx, cy)]
        0 <= cx < cursor.width && 0 <= cy < cursor.height && on_image(width, height, ox + cx, oy + cy)
            ==> {
            &&& cursor_index(cursor, cx, cy) < cursor.pixels@.len()
            &&& cursor_index(cursor, cx, cy) <= i32::MAX
            &&& pixel_alpha(cursor_pixel(cursor, cx, cy)) != 0 ==> {
                &&& ((oy + cy) * width + ox + cx) * 4 + 2 < len
                &&& ((oy + cy) * width + ox + cx) * 4 <= i32::MAX
            }
        }
}

/// Whether `blend_cursor` can run on an image buffer of `len` bytes: the
/// executable form of `blend_safe`.
pub fn blend_fits(len: usize, image_width: u32, image_height: u32, region: &Region, cursor: &CursorImage) -> (b: bool)
    ensures
        b == blend_safe(len as int, image_width, image_height, *region, *cursor),
{
    let ghost ox = cursor_origin(*region, *cursor).0;
    let ghost oy = cursor_origin(*region, *cursor).1;
    let cursor_x: i64 = cursor.x as i64 - cursor.xhot as i64 - region.x as i64;
    let cursor_y: i64 = cursor.y as i64 - cursor.yhot as i64 - region.y as i64;
    let w: i64 = if image_width < 0x8000_0000 {
        image_width as i64
    } else {
        image_width as i64 - 0x1_0000_0000
    };
    let h: i64 = if image_height < 0x8000_0000 {
        image_height as i64
    } else {
        image_height as i64 - 0x1_0000_0000
    };
    let n = cursor.pixels.len();
    let cw = cursor.width as i64;
    let ch = cursor.height as i64;
    let mut cy: i64 = 0;
    while cy < ch
        invariant
            0 <= cy <= ch,
            ch == cursor.height,
            cw == cursor.width,
            n == cursor.pixels@.len(),
            cursor_x == ox,
            cursor_y == oy,
            -200000 <= cursor_x <= 200000,
            -200000 <= cursor_y <= 200000,
            ox == cursor_origin(*region, *cursor).0,
            oy == cursor_origin(*region, *cursor).1,
            w == wrap_i32(image_width),
            h == wrap_i32(image_height),
            forall|cx: int, cy2: int|
                #![trigger cursor_index(*cursor, cx, cy2)]
                0 <= cx < cursor.width && 0 <= cy2 < cy && on_image(image_width, image_height, ox + cx, oy + cy2)
                    ==> {
                    &&& cursor_index(*cursor, cx, cy2) < cursor.pixels@.len()
                    &&& cursor_index(*cursor, cx, cy2) <= i32::MAX
                    &&& pixel_alpha(cursor_pixel(*cursor, cx, cy2)) != 0 ==> {
                        &&& ((oy + cy2) * image_width + ox + cx) * 4 + 2 < len
                        &&& ((oy + cy2) * image_width + ox + cx) * 4 <= i32::MAX
                    }
                },
        decreases ch - cy,
    {
        let mut cx: i64 = 0;
        while cx < cw
            invariant
                0 <= cx <= cw,
                0 <= cy < ch,
                ch == cursor.height,
                cw == cursor.width,
                n == cursor.pixels@.len(),
                cursor_x == ox,
                cursor_y == oy,
                -200000 <= cursor_x <= 200000,
                -200000 <= cursor_y <= 200000,
                ox == cursor_origin(*region, *cursor).0,
                oy == cursor_origin(*region, *cursor).1,
                w == wrap_i32(image_width),
                h == wrap_i32(image_height),
                forall|cx2: int, cy2: int|
                    #![trigger cursor_index(*cursor, cx2, cy2)]
                    0 <= cx2 < cursor.width && 0 <= cy2 < cy + 1 && (cy2 < cy || cx2 < cx) && on_image(
                        image_width,
                        image_height,
                        ox + cx2,
                        oy + cy2,
                    ) ==> {
                        &&& cursor_index(*cursor, cx2, cy2) < cursor.pixels@.len()
                        &&& cursor_index(*cursor, cx2, cy2) <= i32::MAX
                        &&& pixel_alpha(cursor_pixel(*cursor, cx2, cy2)) != 0 ==> {
                            &&& ((oy + cy2) * image_width + ox + cx2) * 4 + 2 < len
                            &&& ((oy + cy2) * image_width + ox + cx2) * 4 <= i32::MAX
                        }
                    },
            decreases cw - cx,
        {
            let ix = cursor_x + cx;
            let iy = cursor_y + cy;
            if 0 <= ix && ix < w && 0 <= iy && iy < h {
                assert(cy * cw <= 65535 * 65535) by (nonlinear_arith)
                    requires
                        0 <= cy <= 65535,
                        0 <= cw <= 65535,
                ;
                let idx: i64 = cy * cw + cx;
                assert(idx == cursor_index(*cursor, cx as int, cy as int));
                if (idx as u64) >= (n as u64) || idx > 0x7fff_ffff {
                    proof {
                        assert(on_image(image_width, image_height, ox + cx, oy + cy));
                        assert(!blend_safe(len as int, image_width, image_height, *region, *cursor)) by {
                            if blend_safe(len as int, image_width, image_height, *region, *cursor) {
                                assert(cursor_index(*cursor, cx as int, cy as int) < cursor.pixels@.len());
                            }
                        }
                    }
                    return false;
                }
                let p = cursor.pixels[idx as usize];
                if p / 0x100_0000 != 0 {
                    assert(iy * (image_width as int) <= 0x7fff_ffff * 0xffff_ffff) by (nonlinear_arith)
                        requires
                            0 <= iy < 0x8000_0000,
                            image_width <= 0xffff_ffff,
                    ;
                    let pos: i128 = ((iy as i128) * (image_width as i128) + (ix as i128)) * 4;
                    if !(pos + 2 < len as i128 && pos <= 0x7fff_ffff) {
                        proof {
                            assert(on_image(image_width, image_height, ox + cx, oy + cy));
                            assert(pixel_alpha(cursor_pixel(*cursor, cx as int, cy as int)) != 0);
                            assert(pos == ((oy + cy) * image_width + ox + cx) * 4);
                            assert(!blend_safe(len as int, image_width, image_height, *region, *cursor)) by {
                                if blend_safe(len as int, image_width, image_height, *region, *cursor) {
                                    assert(cursor_index(*cursor, cx as int, cy as int) < cursor.pixels@.len());
                                }
                            }
                        }
                        return false;
                    }
                }
            }
            cx = cx + 1;
        }
        cy = cy + 1;
    }
    true
}

/// The cursor pixel that lands on byte `i` of the image, if `i` is a colour
/// byte of an image pixel covered by the cursor.
pub open spec fn blend_source(width: u32, height: u32, region: Region, cursor: CursorImage, i: int) -> Option<(int, int)> {
    let (ox, oy) = cursor_origin(region, cursor);
    let p = i / 4;
    if i % 4 < 3 && 0 < wrap_i32(width) && 0 < wrap_i32(height) && p < width * height {
        let cx = p % (width as int) - ox;
        let cy = p / (width as int) - oy;
        if 0 <= cx < cursor.width && 0 <= cy < cursor.height {
            Some((cx, cy))
        } else {
            None
        }
    } else {
        None
    }
}

/// Colour byte `ch` of an image pixel `dst` under cursor pixel `p`: unchanged
/// when transparent, replaced when opaque, otherwise premultiplied blending.
pub open spec fn blend_byte(dst: u8, p: u32, ch: int) -> u8 {
    let a = pixel_alpha(p);
    if a == 0 {
        dst
    } else if a == 255 {
        pixel_channel(p, ch) as u8
    } else {
        (pixel_channel(p, ch) + dst * (255 - a) / 255) as u8
    }
}

/// The image after `blend_cursor`.
pub open spec fn blended(s: Seq<u8>, width: u32, height: u32, region: Region, cursor: CursorImage) -> Seq<u8> {
    Seq::new(
        s.len(),
        |i: int|
            match blend_source(width, height, region, cursor, i) {
                Some((cx, cy)) => blend_byte(s[i], cursor_pixel(cursor, cx, cy), i % 4),
                None => s[i],
            },
    )
}

proof fn lemma_pixel_position(i: int, width: int, height: int, ix: int, iy: int, k: int)
    requires
        0 <= ix < width,
        0 <= iy < height,
        0 <= k < 4,
        i == (iy * width + ix) * 4 + k,
    ensures
        i / 4 == iy * width + ix,
        i % 4 == k,
        (i / 4) % width == ix,
        (i / 4) / width == iy,
        i / 4 < width * height,
{
    lemma_fundamental_div_mod_converse(i, 4, iy * width + ix, k);
    lemma_fundamental_div_mod_converse(iy * width + ix, width, iy, ix);
    assert(iy * width + ix < width * height) by (nonlinear_arith)
        requires
            0 <= ix < width,
            0 <= iy < height,
    ;
}

proof fn lemma_source_position(i: int, width: int)
    requires
        0 <= i,
        width > 0,
    ensures
        i == ((i / 4) / width * width + (i / 4) % width) * 4 + i % 4,
{
    let p = i / 4;
    assert(p == p / width * width + p % width) by (nonlinear_arith)
        requires
            width > 0,
    ;
}

proof fn lemma_argb(p: u32)
    ensures
        (p >> 24u32) & 0xFFu32 == p / 0x100_0000u32,
        (p >> 16u32) & 0xFFu32 == (p / 0x1_0000u32) % 256,
        (p >> 8u32) & 0xFFu32 == (p / 0x100u32) % 256,
        p & 0xFFu32 == p % 256,
{
    assert((p >> 24u32) & 0xFFu32 == p / 0x100_0000u32) by (bit_vector);
    assert((p >> 16u32) & 0xFFu32 == (p / 0x1_0000u32) % 256) by (bit_vector);
    assert((p >> 8u32) & 0xFFu32 == (p / 0x100u32) % 256) by (bit_vector);
    assert(p & 0xFFu32 == p % 256) by (bit_vector);
}

fn blend_value(dst: u8, src: u8, alpha: u8) -> (r: u8)
    requires
        0 < alpha < 255,
    ensures
        r == (src + dst * (255 - alpha) / 255) as u8,
{
    let inv_alpha = 255 - alpha as u16;
    assert(dst as u16 * inv_alpha <= 65025) by (nonlinear_arith)
        requires
            dst <= 255,
            inv_alpha <= 255,
    ;
    (src as u16 + (dst as u16 * inv_alpha) / 255) as u8
}

/// Blending the cursor never changes the image's alpha bytes.
pub proof fn lemma_blend_keeps_alpha(s: Seq<u8>, width: u32, height: u32, region: Region, cursor: CursorImage, i: int)
    requires
        0 <= i < s.len(),
        i % 4 == 3,
    ensures
        blended(s, width, height, region, cursor)[i] == s[i],
{
}

/// A cursor lying wholly outside the captured image leaves it unchanged.
pub proof fn lemma_blend_off_image(s: Seq<u8>, width: u32, height: u32, region: Region, cursor: CursorImage)
    requires
        ({
            let (ox, oy) = cursor_origin(region, cursor);
            ox >= wrap_i32(width) || oy >= wrap_i32(height) || ox + cursor.width <= 0 || oy
                + cursor.height <= 0
        }),
    ensures
        blended(s, width, height, region, cursor) == s,
{
    let (ox, oy) = cursor_origin(region, cursor);
    assert forall|i: int| 0 <= i < s.len() implies #[trigger] blended(s, width, height, region, cursor)[i]
        == s[i] by {
        if let Some((cx, cy)) = blend_source(width, height, region, cursor, i) {
            let p = i / 4;
            let w = width as int;
            let h = height as int;
            assert(0 <= i / 4) by (nonlinear_arith)
                requires
                    0 <= i,
            ;
            assert(0 <= p % w < w) by (nonlinear_arith)
                requires
                    0 < w,
            ;
            assert(0 <= p / w < h) by (nonlinear_arith)
                requires
                    0 < w,
                    0 <= p < w * h,
            ;
        }
    }
    assert(blended(s, width, height, region, cursor) =~= s);
}

/// The cursor's pixels are read row by row and placed with the hotspot at
/// the pointer: cursor pixel `(cx, cy)`, the ARGB value
/// `pixels[cy * width + cx]`, lands on image pixel `(ox + cx, oy + cy)`, where
/// `(ox, oy)` is the pointer less the hotspot less the region's corner. An
/// opaque cursor pixel puts its red, green and blue there, and a fully
/// transparent one leaves the image pixel as it was.
pub proof fn lemma_cursor_pixel_placement(
    s: Seq<u8>,
    width: u32,
    height: u32,
    region: Region,
    cursor: CursorImage,
    cx: int,
    cy: int,
    k: int,
)
    requires
        0 <= cx < cursor.width,
        0 <= cy < cursor.height,
        width <= i32::MAX,
        height <= i32::MAX,
        0 <= cursor.x - cursor.xhot - region.x + cx < width,
        0 <= cursor.y - cursor.yhot - region.y + cy < height,
        0 <= k < 3,
        ((cursor.y - cursor.yhot - region.y + cy) * width + (cursor.x - cursor.xhot - region.x + cx)) * 4 + k
            < s.len(),
    ensures
        ({
            let ix = cursor.x - cursor.xhot - region.x + cx;
            let iy = cursor.y - cursor.yhot - region.y + cy;
            let i = (iy * width + ix) * 4 + k;
            let p = cursor.pixels@[cy * cursor.width + cx];
            &&& p / 0x100_0000 == 255 ==> blended(s, width, height, region, cursor)[i] == (if k == 0 {
                p / 0x1_0000 % 256
            } else if k == 1 {
                p / 0x100 % 256
            } else {
                p % 256
            }) as u8
            &&& p / 0x100_0000 == 0 ==> blended(s, width, height, region, cursor)[i] == s[i]
            &&& 0 < p / 0x100_0000 < 255 ==> blended(s, width, height, region, cursor)[i] == ((if k == 0 {
                p / 0x1_0000 % 256
            } else if k == 1 {
                p / 0x100 % 256
            } else {
                p % 256
            }) + s[i] * (255 - p / 0x100_0000) / 255) as u8
        }),
{
    let ix = cursor.x - cursor.xhot - region.x + cx;
    let iy = cursor.y - cursor.yhot - region.y + cy;
    let i = (iy * width + ix) * 4 + k;
    lemma_pixel_position(i, width as int, height as int, ix, iy, k);
    assert(blend_source(width, height, region, cursor, i) == Some((cx, cy)));
}

/// Image pixels that the cursor does not cover keep all their bytes.
pub proof fn lemma_uncovered_pixels_kept(
    s: Seq<u8>,
    width: u32,
    height: u32,
    region: Region,
    cursor: CursorImage,
    ix: int,
    iy: int,
    k: int,
)
    requires
        width <= i32::MAX,
        height <= i32::MAX,
        0 <= ix < width,
        0 <= iy < height,
        0 <= k < 4,
        (iy * width + ix) * 4 + k < s.len(),
        !(0 <= ix - (cursor.x - cursor.xhot - region.x) < cursor.width && 0 <= iy - (cursor.y - cursor.yhot
            - region.y) < cursor.height),
    ensures
        blended(s, width, height, region, cursor)[(iy * width + ix) * 4 + k] == s[(iy * width + ix) * 4 + k],
{
    let i = (iy * width + ix) * 4 + k;
    lemma_pixel_position(i, width as int, height as int, ix, iy, k);
}

/// Blend the cursor onto RGBA image data at its screen position, shifted by
/// the captured region's offset. Cursor pixels off the image are skipped;
/// the alpha bytes of the image are kept.
pub fn blend_cursor(image: &mut [u8], image_width: u32, image_height: u32, region: &Region, cursor: &CursorImage)
    requires
        blend_safe(old(image)@.len() as int, image_width, image_height, *region, *cursor),
    ensures
        final(image)@ == blended(old(image)@, image_width, image_height, *region, *cursor),
{
    let ghost s = image@;
    let ghost ox = cursor_origin(*region, *cursor).0;
    let ghost oy = cursor_origin(*region, *cursor).1;
    let cursor_x: i64 = cursor.x as i64 - cursor.xhot as i64 - region.x as i64;
    let cursor_y: i64 = cursor.y as i64 - cursor.yhot as i64 - region.y as i64;
    let w: i64 = if image_width < 0x8000_0000 {
        image_width as i64
    } else {
        image_width as i64 - 0x1_0000_0000
    };
    let h: i64 = if image_height < 0x8000_0000 {
        image_height as i64
    } else {
        image_height as i64 - 0x1_0000_0000
    };
    let cw: i64 = cursor.width as i64;
    let ch: i64 = cursor.height as i64;
    let mut cy: i64 = 0;
    while cy < ch
        invariant
            0 <= cy <= ch,
            ch == cursor.height,
            cw == cursor.width,
            cursor_x == ox,
            cursor_y == oy,
            -200000 <= cursor_x <= 200000,
            -200000 <= cursor_y <= 200000,
            ox == cursor_origin(*region, *cursor).0,
            oy == cursor_origin(*region, *cursor).1,
            w == wrap_i32(image_width),
            h == wrap_i32(image_height),
            image@.len() == s.len(),
            blend_safe(s.len() as int, image_width, image_height, *region, *cursor),
            forall|i: int|
                0 <= i < s.len() ==> image@[i] == match blend_source(
                    image_width,
                    image_height,
                    *region,
                    *cursor,
                    i,
                ) {
                    Some((cx2, cy2)) => if cy2 < cy {
                        blend_byte(s[i], cursor_pixel(*cursor, cx2, cy2), i % 4)
                    } else {
                        s[i]
                    },
                    None => s[i],
                },
        decreases ch - cy,
    {
        let mut cx: i64 = 0;
        while cx < cw
            invariant
                0 <= cy < ch,
                0 <= cx <= cw,
                ch == cursor.height,
                cw == cursor.width,
                cursor_x == ox,
                cursor_y == oy,
                ox == cursor_origin(*region, *cursor).0,
                oy == cursor_origin(*region, *cursor).1,
                w == wrap_i32(image_width),
                h == wrap_i32(image_height),
                image@.len() == s.len(),
                blend_safe(s.len() as int, image_width, image_height, *region, *cursor),
                forall|i: int|
                    0 <= i < s.len() ==> image@[i] == match blend_source(
                        image_width,
                        image_height,
                        *region,
                        *cursor,
                        i,
                    ) {
                        Some((cx2, cy2)) => if cy2 < cy || (cy2 == cy && cx2 < cx) {
                            blend_byte(s[i], cursor_pixel(*cursor, cx2, cy2), i % 4)
                        } else {
                            s[i]
                        },
                        None => s[i],
                    },
            decreases cw - cx,
        {
            let img_x = cursor_x + cx;
            let img_y = cursor_y + cy;
            let ghost prev = image@;
            if img_x < 0 || img_y < 0 || img_x >= w || img_y >= h {
                proof {
                    assert forall|i: int| 0 <= i < s.len() implies blend_source(
                        image_width,
                        image_height,
                        *region,
                        *cursor,
                        i,
                    ) != Some((cx as int, cy as int)) by {
                        if blend_source(image_width, image_height, *region, *cursor, i) == Some(
                            (cx as int, cy as int),
                        ) {
                            lemma_source_position(i, image_width as int);
                            assert((i / 4) / (image_width as int) < image_height) by (
                            nonlinear_arith)
                                requires
                                    i / 4 < image_width * image_height,
                                    image_width > 0,
                            ;
                        }
                    }
                }
            } else {
                assert(cursor_index(*cursor, cx as int, cy as int) < cursor.pixels@.len());
                let cursor_idx = (cy * cw + cx) as usize;
                let pixel = cursor.pixels[cursor_idx];
                proof {
                    lemma_argb(pixel);
                }
                let src_a = ((pixel >> 24) & 0xFF) as u8;
                if src_a != 0 {
                    let src_r = ((pixel >> 16) & 0xFF) as u8;
                    let src_g = ((pixel >> 8) & 0xFF) as u8;
                    let src_b = (pixel & 0xFF) as u8;
                    assert(((img_y * w + img_x) * 4) as int == ((img_y * image_width + img_x) * 4));
                    let img_idx = ((img_y * w + img_x) * 4) as usize;
                    if src_a == 255 {
                        image[img_idx] = src_r;
                        image[img_idx + 1] = src_g;
                        image[img_idx + 2] = src_b;
                    } else {
                        let v0 = blend_value(image[img_idx], src_r, src_a);
                        image[img_idx] = v0;
                        let v1 = blend_value(image[img_idx + 1], src_g, src_a);
                        image[img_idx + 1] = v1;
                        let v2 = blend_value(image[img_idx + 2], src_b, src_a);
                        image[img_idx + 2] = v2;
                    }
                    proof {
                        let iw = image_width as int;
                        let ih = image_height as int;
                        let idx = img_idx as int;
                        lemma_pixel_position(idx, iw, ih, img_x as int, img_y as int, 0);
                        lemma_pixel_position(idx + 1, iw, ih, img_x as int, img_y as int, 1);
                        lemma_pixel_position(idx + 2, iw, ih, img_x as int, img_y as int, 2);
                        assert forall|i: int| 0 <= i < s.len() && i != idx && i != idx + 1 && i
                            != idx + 2 implies blend_source(
                            image_width,
                            image_height,
                            *region,
                            *cursor,
                            i,
                        ) != Some((cx as int, cy as int)) by {
                            if blend_source(image_width, image_height, *region, *cursor, i) == Some(
                                (cx as int, cy as int),
                            ) {
                                lemma_source_position(i, iw);
                            }
                        }
                    }
                } else {
                    proof {
                        assert forall|i: int|
                            0 <= i < s.len() && blend_source(
                                image_width,
                                image_height,
                                *region,
                                *cursor,
                                i,
                            ) == Some((cx as int, cy as int)) implies blend_byte(
                            s[i],
                            cursor_pixel(*cursor, cx as int, cy as int),
                            i % 4,
                        ) == s[i] by {}
                    }
                }
            }
            cx = cx + 1;
        }
        cy = cy + 1;
    }
    proof {
        assert(image@ =~= blended(s, image_width, image_height, *region, *cursor));
    }
}

} // verus!
