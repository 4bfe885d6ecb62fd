//! Drawing plans of the selection overlay: how an image is split into
//! requests that fit the X11 request size, and where the size label of a
//! selection goes.

use vstd::prelude::*;
use crate::region::{wrap_i16, Region};
use crate::text::{decimal, decimal_chars, push_all, string_of};

verus! {

/// Most bytes of pixel data sent in one image request.
pub const MAX_CHUNK_BYTES: usize = 65536;

/// A band of rows of an image, sent in one request.
#[derive(Debug, Clone, Copy, PartialEq, Eq, Structural)]
pub struct ImageChunk {
    /// First row of the band.
    pub y: u16,
    /// Number of rows.
    pub rows: u16,
    /// Offset of the band's first byte in the image data.
    pub start: usize,
    /// Offset just past the band's last byte.
    pub end: usize,
}

/// Rows per band for an image `width` pixels wide (at least one).
pub open spec fn rows_per_chunk(width: u16) -> int {
    let per = MAX_CHUNK_BYTES as int / (width as int * 4);
    if per < 1 {
        1
    } else {
        per
    }
}

/// A band starting at its row holds as many rows as fit in a request (or
/// what is left of the image), and the byte range of those rows.
pub open spec fn chunk_ok(c: ImageChunk, width: u16, height: u16) -> bool {
    let bpr = width as int * 4;
    let per = rows_per_chunk(width);
    &&& c.rows == if height - c.y < per {
        height - c.y
    } else {
        per
    }
    &&& c.start == c.y * bpr
    &&& c.end == c.start + c.rows * bpr
}

/// The bands cover the rows `0..height` in order, each as many rows as fit
/// in a request (the last one what is left), with its byte range.
pub open spec fn chunks_tile(c: Seq<ImageChunk>, width: u16, height: u16) -> bool {
    &&& (c.len() == 0 <==> height == 0)
    &&& c.len() > 0 ==> c[0].y == 0
    &&& c.len() > 0 ==> c.last().y + c.last().rows == height
    &&& forall|k: int| 0 <= k < c.len() - 1 ==> #[trigger] c[k + 1].y == c[k].y + c[k].rows
    &&& forall|k: int| 0 <= k < c.len() ==> #[trigger] chunk_ok(c[k], width, height)
}

/// Split an image of `width` x `height` pixels into bands for image
/// requests.
pub fn image_chunks(width: u16, height: u16) -> (r: Vec<ImageChunk>)
    requires
        width > 0,
        width * height * 4 <= usize::MAX,
    ensures
        chunks_tile(r@, width, height),
{
    let bytes_per_row: usize = width as usize * 4;
    let q = MAX_CHUNK_BYTES / bytes_per_row;
    let per: usize = if q < 1 {
        1
    } else {
        q
    };
    let mut out: Vec<ImageChunk> = Vec::new();
    let mut y: u16 = 0;
    assert(height as int * bytes_per_row == width * height * 4) by (nonlinear_arith)
        requires
            bytes_per_row == width as int * 4,
    ;
    while y < height
        invariant
            bytes_per_row == width as int * 4,
            height as int * bytes_per_row <= usize::MAX,
            per == rows_per_chunk(width),
            per >= 1,
            y <= height,
            out@.len() == 0 <==> y == 0,
            out@.len() > 0 ==> out@[0].y == 0,
            out@.len() > 0 ==> out@.last().y + out@.last().rows == y,
            forall|k: int| 0 <= k < out@.len() - 1 ==> #[trigger] out@[k + 1].y == out@[k].y + out@[k].rows,
            forall|k: int| 0 <= k < out@.len() ==> #[trigger] chunk_ok(out@[k], width, height),
        decreases height - y,
    {
        let left: usize = (height - y) as usize;
        let rows: u16 = if left < per {
            left as u16
        } else {
            per as u16
        };
        assert((y + rows) as int * bytes_per_row <= height as int * bytes_per_row) by (nonlinear_arith)
            requires
                y + rows <= height,
                bytes_per_row >= 0,
        ;
        assert((y + rows) as int * bytes_per_row == y as int * bytes_per_row + rows as int
            * bytes_per_row) by (nonlinear_arith);
        let start: usize = y as usize * bytes_per_row;
        let end: usize = start + rows as usize * bytes_per_row;
        let ghost before = out@;
        assert(chunk_ok(ImageChunk { y, rows, start, end }, width, height));
        out.push(ImageChunk { y, rows, start, end });
        proof {
            assert forall|k: int| 0 <= k < out@.len() - 1 implies #[trigger] out@[k + 1].y == out@[k].y
                + out@[k].rows by {
                if k + 1 < before.len() {
                    assert(out@[k + 1] == before[k + 1]);
                    assert(out@[k] == before[k]);
                } else {
                    assert(out@[k] == before.last());
                }
            }
        }
        y = y + rows;
    }
    out
}

/// The label of a selection's size: `WxH`.
pub open spec fn size_label(width: u16, height: u16) -> Seq<char> {
    decimal(width as nat) + seq!['x'] + decimal(height as nat)
}

/// The size label of a selected region.
pub fn dimension_label(region: &Region) -> (r: String)
    ensures
        r@ == size_label(region.width, region.height),
{
    let mut out = decimal_chars(region.width as u64);
    out.push('x');
    push_all(&mut out, decimal_chars(region.height as u64).as_slice());
    string_of(out.as_slice())
}

/// The label's position inside a region fits in `i16` coordinates.
pub open spec fn label_fits(r: Region) -> bool {
    &&& r.x + 5 <= i16::MAX
    &&& i16::MIN <= r.y + wrap_i16(r.height) <= i16::MAX
    &&& i16::MIN <= r.y + wrap_i16(r.height) - 5
}

/// Whether the size label's position can be computed for `region`.
pub fn label_in_range(region: &Region) -> (b: bool)
    ensures
        b == label_fits(*region),
{
    let h: i32 = if region.height < 32768 {
        region.height as i32
    } else {
        region.height as i32 - 65536
    };
    let bottom = region.y as i32 + h;
    region.x as i32 + 5 <= 32767 && -32768 <= bottom && bottom <= 32767 && -32768 <= bottom - 5
}

/// Where the size label is drawn: 5 pixels in from the region's left edge
/// and up from its bottom edge.
pub fn label_position(region: &Region) -> (p: (i16, i16))
    requires
        label_fits(*region),
    ensures
        p.0 == region.x + 5,
        p.1 == region.y + wrap_i16(region.height) - 5,
{
    let h: i16 = if region.height < 32768 {
        region.height as i16
    } else {
        (region.height as i32 - 65536) as i16
    };
    (region.x + 5, region.y + h - 5)
}

} // verus!
