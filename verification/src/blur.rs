//! Box blur approximation of a Gaussian blur, used for the selection
//! overlay background.
//!
//! One box pass averages every channel over a window of `2 * radius + 1`
//! samples, first along each row and then along each column; samples past
//! an edge repeat the edge pixel. Three passes approximate a Gaussian.

use vstd::prelude::*;
use vstd::arithmetic::div_mod::lemma_fundamental_div_mod_converse;

verus! {

/// Largest radius whose window sums of 8-bit samples fit in a `u32`
/// (`255 * (2 * radius + 1) <= u32::MAX`).
pub const MAX_BLUR_RADIUS: usize = 8421504;

/// Index `j` moved into `0..n` by repeating the edge.
pub open spec fn clamp_index(j: int, n: int) -> int {
    if j < 0 {
        0
    } else if j >= n {
        n - 1
    } else {
        j
    }
}

/// Byte offset of channel `c` of pixel `(x, y)` in an RGBA image `w` pixels wide.
pub open spec fn pixel_index(w: int, x: int, y: int, c: int) -> int {
    (y * w + x) * 4 + c
}

/// `f(lo) + f(lo + 1) + ... + f(hi - 1)`.
pub open spec fn window_sum(f: spec_fn(int) -> int, lo: int, hi: int) -> int
    decreases hi - lo,
{
    if hi <= lo {
        0
    } else {
        window_sum(f, lo, hi - 1) + f(hi - 1)
    }
}

/// The `j`-th sample of the line of `n` bytes at `start, start + stride, ...`,
/// with the edge samples repeated outside `0..n`.
pub open spec fn line_sample(s: Seq<u8>, start: int, stride: int, n: int) -> spec_fn(int) -> int {
    |j: int| s[start + clamp_index(j, n) * stride] as int
}

/// Average (rounded down) of the `2 * r + 1` samples centred on sample `k`.
pub open spec fn line_average(s: Seq<u8>, start: int, stride: int, n: int, r: int, k: int) -> int {
    window_sum(line_sample(s, start, stride, n), k - r, k + r + 1) / (2 * r + 1)
}

/// Horizontal pass: each byte of the image is the average along its row;
/// bytes past the image are zero (the pass writes into a zeroed buffer).
pub open spec fn horizontal_pass(s: Seq<u8>, w: int, h: int, r: int) -> Seq<u8> {
    Seq::new(
        s.len(),
        |i: int|
            if i < w * h * 4 {
                line_average(s, (i / 4 / w) * w * 4 + i % 4, 4, w, r, i / 4 % w) as u8
            } else {
                0u8
            },
    )
}

/// Vertical pass of `s` written over `onto`: each byte of the image is the
/// average along its column; bytes past the image keep their value in `onto`.
pub open spec fn vertical_pass(s: Seq<u8>, onto: Seq<u8>, w: int, h: int, r: int) -> Seq<u8> {
    Seq::new(
        onto.len(),
        |i: int|
            if i < w * h * 4 {
                line_average(s, (i / 4 % w) * 4 + i % 4, w * 4, h, r, i / 4 / w) as u8
            } else {
                onto[i]
            },
    )
}

/// One box pass: horizontal, then vertical.
pub open spec fn box_pass(s: Seq<u8>, w: int, h: int, r: int) -> Seq<u8> {
    vertical_pass(horizontal_pass(s, w, h, r), s, w, h, r)
}

/// Position of the `k`-th byte of the line at `start` with step `stride`.
pub open spec fn line_pos(start: int, stride: int, k: int) -> int {
    start + k * stride
}

/// `i` is none of the first `count` positions of the line.
pub open spec fn off_line(i: int, start: int, stride: int, count: int) -> bool {
    forall|k: int| 0 <= k < count ==> i != #[trigger] line_pos(start, stride, k)
}

/// The result of `blur_rgba`: three box passes, or the input when the radius is 0.
pub open spec fn blurred(s: Seq<u8>, w: int, h: int, r: int) -> Seq<u8> {
    if r == 0 {
        s
    } else {
        box_pass(box_pass(box_pass(s, w, h, r), w, h, r), w, h, r)
    }
}

/// The inputs on which blurring runs without fault: a non-zero radius needs
/// either an empty image or one whose pixels all lie in the buffer.
pub open spec fn blur_input_ok(len: int, w: int, h: int, r: int) -> bool {
    &&& r <= MAX_BLUR_RADIUS
    &&& r == 0 || (w == 0 && h == 0) || (w > 0 && h > 0 && w * h * 4 <= len)
}

/// Every pixel of the `w` x `h` image has the colour `col`.
pub open spec fn uniform(s: Seq<u8>, w: int, h: int, col: Seq<u8>) -> bool {
    &&& col.len() == 4
    &&& forall|x: int, y: int, c: int|
        0 <= x < w && 0 <= y < h && 0 <= c < 4 ==> s[#[trigger] pixel_index(w, x, y, c)] == col[c]
}

proof fn lemma_window_const(f: spec_fn(int) -> int, lo: int, hi: int, v: int)
    requires
        lo <= hi,
        forall|j: int| lo <= j < hi ==> #[trigger] f(j) == v,
    ensures
        window_sum(f, lo, hi) == v * (hi - lo),
    decreases hi - lo,
{
    if hi > lo {
        lemma_window_const(f, lo, hi - 1, v);
        assert(f(hi - 1) == v);
        assert(window_sum(f, lo, hi) == window_sum(f, lo, hi - 1) + f(hi - 1));
        assert(v * (hi - 1 - lo) + v == v * (hi - lo)) by (nonlinear_arith);
    } else {
        assert(v * (hi - lo) == 0) by (nonlinear_arith)
            requires
                hi == lo,
        ;
    }
}

proof fn lemma_line_const(s: Seq<u8>, start: int, stride: int, n: int, r: int, k: int, v: int)
    requires
        n > 0,
        r >= 0,
        forall|j: int| 0 <= j < n ==> s[#[trigger] line_pos(start, stride, j)] == v,
    ensures
        line_average(s, start, stride, n, r, k) == v,
{
    let f = line_sample(s, start, stride, n);
    assert forall|j: int| k - r <= j < k + r + 1 implies #[trigger] f(j) == v by {
        let cl = clamp_index(j, n);
        assert(s[line_pos(start, stride, cl)] == v);
    }
    lemma_window_const(f, k - r, k + r + 1, v);
    let d = 2 * r + 1;
    assert(v * d / d == v) by (nonlinear_arith)
        requires
            d > 0,
    ;
}

proof fn lemma_box_pass_uniform(s: Seq<u8>, w: int, h: int, r: int, col: Seq<u8>)
    requires
        w > 0,
        h > 0,
        r >= 0,
        w * h * 4 <= s.len(),
        uniform(s, w, h, col),
    ensures
        box_pass(s, w, h, r) == s,
{
    let t = horizontal_pass(s, w, h, r);
    assert forall|x: int, y: int, c: int| 0 <= x < w && 0 <= y < h && 0 <= c < 4 implies t[
        #[trigger] pixel_index(w, x, y, c)] == col[c] by {
        let i = pixel_index(w, x, y, c);
        lemma_pixel_bound(w, h, x, y, c);
        lemma_pixel_decompose(i, w, h);
        lemma_pixel_injective(w, x, y, c, i / 4 % w, i / 4 / w, i % 4);
        let start = (i / 4 / w) * w * 4 + i % 4;
        assert forall|j: int| 0 <= j < w implies s[#[trigger] line_pos(start, 4, j)] == col[c] by {
            lemma_pixel_bound(w, h, j, y, c);
            assert(line_pos(start, 4, j) == pixel_index(w, j, y, c));
        }
        lemma_line_const(s, start, 4, w, r, i / 4 % w, col[c] as int);
    }
    let u = vertical_pass(t, s, w, h, r);
    assert forall|i: int| 0 <= i < s.len() implies #[trigger] u[i] == s[i] by {
        if i < w * h * 4 {
            lemma_pixel_decompose(i, w, h);
            let x = i / 4 % w;
            let y = i / 4 / w;
            let c = i % 4;
            let start = x * 4 + c;
            assert forall|j: int| 0 <= j < h implies t[#[trigger] line_pos(start, w * 4, j)] == col[c] by {
                lemma_pixel_bound(w, h, x, j, c);
                assert(j * (w * 4) == j * w * 4) by (nonlinear_arith);
                assert(line_pos(start, w * 4, j) == pixel_index(w, x, j, c));
            }
            lemma_line_const(t, start, w * 4, h, r, y, col[c] as int);
        }
    }
    assert(u =~= s);
}

/// Blurring an image whose pixels all have one colour leaves it as it is.
pub proof fn lemma_blur_keeps_uniform(s: Seq<u8>, w: int, h: int, r: int, col: Seq<u8>)
    requires
        w > 0,
        h > 0,
        r >= 0,
        w * h * 4 <= s.len(),
        uniform(s, w, h, col),
    ensures
        blurred(s, w, h, r) == s,
{
    if r > 0 {
        lemma_box_pass_uniform(s, w, h, r, col);
        lemma_box_pass_uniform(s, w, h, r, col);
        lemma_box_pass_uniform(s, w, h, r, col);
    }
}

/// Blurring with radius 0 leaves the image as it is.
pub proof fn lemma_blur_zero_radius(s: Seq<u8>, w: int, h: int)
    ensures
        blurred(s, w, h, 0) == s,
{
}

/// A line of one sample averages to that sample.
proof fn lemma_single_sample(s: Seq<u8>, start: int, stride: int, r: int, k: int)
    requires
        r >= 0,
    ensures
        line_average(s, start, stride, 1, r, k) == s[start],
{
    assert(line_pos(start, stride, 0) == start);
    lemma_line_const(s, start, stride, 1, r, k, s[start] as int);
}

/// On a one-pixel-wide image the row pass changes nothing, and the column
/// pass is the row pass of the same bytes taken as a one-pixel-high image;
/// on a one-pixel-high image the column pass changes nothing.
proof fn lemma_passes_on_a_line(s: Seq<u8>, onto: Seq<u8>, n: int, r: int)
    requires
        n > 0,
        r >= 0,
        s.len() == 4 * n,
        onto.len() == 4 * n,
    ensures
        horizontal_pass(s, 1, n, r) == s,
        vertical_pass(s, onto, n, 1, r) == s,
        vertical_pass(s, onto, 1, n, r) == horizontal_pass(s, n, 1, r),
{
    assert forall|i: int| 0 <= i < s.len() implies #[trigger] horizontal_pass(s, 1, n, r)[i] == s[i] by {
        let p = i / 4;
        lemma_fundamental_div_mod_converse(i, 4, p, i - p * 4);
        lemma_fundamental_div_mod_converse(p, 1, p, 0);
        lemma_single_sample(s, p * 1 * 4 + i % 4, 4, r, p % 1);
    }
    assert(horizontal_pass(s, 1, n, r) =~= s);
    assert forall|i: int| 0 <= i < s.len() implies #[trigger] vertical_pass(s, onto, n, 1, r)[i] == s[i] by {
        let p = i / 4;
        lemma_fundamental_div_mod_converse(i, 4, p, i - p * 4);
        lemma_fundamental_div_mod_converse(p, n, 0, p);
        lemma_single_sample(s, p * 4 + i % 4, n * 4, r, 0);
    }
    assert(vertical_pass(s, onto, n, 1, r) =~= s);
    assert forall|i: int| 0 <= i < s.len() implies #[trigger] vertical_pass(s, onto, 1, n, r)[i]
        == horizontal_pass(s, n, 1, r)[i] by {
        let p = i / 4;
        lemma_fundamental_div_mod_converse(i, 4, p, i - p * 4);
        lemma_fundamental_div_mod_converse(p, 1, p, 0);
        lemma_fundamental_div_mod_converse(p, n, 0, p);
    }
    assert(vertical_pass(s, onto, 1, n, r) =~= horizontal_pass(s, n, 1, r));
}

proof fn lemma_box_pass_line(s: Seq<u8>, n: int, r: int)
    requires
        n > 0,
        r >= 0,
        s.len() == 4 * n,
    ensures
        box_pass(s, 1, n, r) == box_pass(s, n, 1, r),
        box_pass(s, n, 1, r).len() == 4 * n,
{
    lemma_passes_on_a_line(s, s, n, r);
    let t = horizontal_pass(s, n, 1, r);
    lemma_passes_on_a_line(t, s, n, r);
}

/// Blurring commutes with turning a line of pixels on its side: a column of
/// `n` pixels is blurred exactly as the same pixels laid out as a row, so
/// the column passes average `2 * r + 1` neighbours just as the row passes
/// do.
pub proof fn lemma_blur_column_as_row(s: Seq<u8>, n: int, r: int)
    requires
        n > 0,
        r >= 0,
        s.len() == 4 * n,
    ensures
        blurred(s, 1, n, r) == blurred(s, n, 1, r),
{
    if r > 0 {
        lemma_box_pass_line(s, n, r);
        let a = box_pass(s, n, 1, r);
        lemma_box_pass_line(a, n, r);
        let b = box_pass(a, n, 1, r);
        lemma_box_pass_line(b, n, r);
    }
}

/// One box pass over a row of `n` pixels: each byte becomes the average,
/// rounded down, of the `2 * r + 1` bytes of the same channel centred on
/// it, the end pixels repeated past the ends of the row.
pub proof fn lemma_row_pass_averages(s: Seq<u8>, n: int, r: int, x: int, c: int)
    requires
        n > 0,
        r >= 0,
        s.len() == 4 * n,
        0 <= x < n,
        0 <= c < 4,
    ensures
        box_pass(s, n, 1, r)[4 * x + c] == window_sum(
            |j: int| s[4 * clamp_index(j, n) + c] as int,
            x - r,
            x + r + 1,
        ) / (2 * r + 1),
{
    let t = horizontal_pass(s, n, 1, r);
    lemma_passes_on_a_line(t, s, n, r);
    let i = 4 * x + c;
    lemma_fundamental_div_mod_converse(i, 4, x, c);
    lemma_fundamental_div_mod_converse(x, n, 0, x);
    let f = line_sample(s, c, 4, n);
    let g = |j: int| s[4 * clamp_index(j, n) + c] as int;
    assert(f =~= g);
    lemma_window_bounds(f, x - r, x + r + 1);
    let d = 2 * r + 1;
    assert(0 <= window_sum(f, x - r, x + r + 1) / d <= 255) by (nonlinear_arith)
        requires
            0 <= window_sum(f, x - r, x + r + 1) <= 255 * d,
            d > 0,
    ;
}

/// The average of the row window of pixel `(x, y)`: the `2 * r + 1` bytes
/// of channel `c` centred on it along its row, edge pixels repeated.
pub open spec fn row_window_average(s: Seq<u8>, w: int, h: int, r: int, x: int, y: int, c: int) -> int {
    window_sum(|i: int| s[pixel_index(w, clamp_index(i, w), clamp_index(y, h), c)] as int, x - r, x + r + 1) / (
    2 * r + 1)
}

/// One box pass in two dimensions: byte `c` of pixel `(x, y)` becomes the
/// average, rounded down, of the row averages (each rounded down) of the
/// `2 * r + 1` rows centred on `y`, taken in column `x`; rows and columns
/// past the edges repeat the edge ones.
pub proof fn lemma_pass_averages_square(s: Seq<u8>, w: int, h: int, r: int, x: int, y: int, c: int)
    requires
        w > 0,
        h > 0,
        r >= 0,
        w * h * 4 <= s.len(),
        0 <= x < w,
        0 <= y < h,
        0 <= c < 4,
    ensures
        box_pass(s, w, h, r)[pixel_index(w, x, y, c)] == window_sum(
            |j: int| row_window_average(s, w, h, r, x, j, c),
            y - r,
            y + r + 1,
        ) / (2 * r + 1),
{
    let t = horizontal_pass(s, w, h, r);
    let i = pixel_index(w, x, y, c);
    lemma_pixel_bound(w, h, x, y, c);
    lemma_pixel_decompose(i, w, h);
    lemma_pixel_injective(w, x, y, c, i / 4 % w, i / 4 / w, i % 4);
    let d = 2 * r + 1;
    let f = line_sample(t, x * 4 + c, w * 4, h);
    let g = |j: int| row_window_average(s, w, h, r, x, j, c);
    assert forall|j: int| #[trigger] f(j) == g(j) by {
        let cj = clamp_index(j, h);
        let k = pixel_index(w, x, cj, c);
        lemma_pixel_bound(w, h, x, cj, c);
        lemma_pixel_decompose(k, w, h);
        lemma_pixel_injective(w, x, cj, c, k / 4 % w, k / 4 / w, k % 4);
        assert(x * 4 + c + cj * (w * 4) == k) by (nonlinear_arith)
            requires
                k == cj * w * 4 + x * 4 + c,
        ;
        let start = cj * w * 4 + c;
        let fs = line_sample(s, start, 4, w);
        let gs = |i2: int| s[pixel_index(w, clamp_index(i2, w), clamp_index(j, h), c)] as int;
        assert forall|i2: int| #[trigger] fs(i2) == gs(i2) by {
            let ci = clamp_index(i2, w);
            lemma_pixel_bound(w, h, ci, cj, c);
        }
        assert(fs =~= gs);
        assert forall|i2: int| x - r <= i2 < x + r + 1 implies 0 <= #[trigger] fs(i2) <= 255 by {}
        lemma_window_bounds(fs, x - r, x + r + 1);
        assert(0 <= window_sum(fs, x - r, x + r + 1) / d <= 255) by (nonlinear_arith)
            requires
                0 <= window_sum(fs, x - r, x + r + 1) <= 255 * (x + r + 1 - (x - r)),
                d == 2 * r + 1,
                r >= 0,
        ;
        assert(t[k] == line_average(s, start, 4, w, r, x) as u8);
    }
    assert(f =~= g);
    assert forall|j: int| y - r <= j < y + r + 1 implies 0 <= #[trigger] f(j) <= 255 by {}
    lemma_window_bounds(f, y - r, y + r + 1);
    assert(0 <= window_sum(f, y - r, y + r + 1) / d <= 255) by (nonlinear_arith)
        requires
            0 <= window_sum(f, y - r, y + r + 1) <= 255 * (y + r + 1 - (y - r)),
            d == 2 * r + 1,
            r >= 0,
    ;
    assert(i / 4 % w == x && i / 4 / w == y && i % 4 == c);
    assert(box_pass(s, w, h, r)[i] == line_average(t, x * 4 + c, w * 4, h, r, y) as u8);
}

proof fn lemma_window_split(f: spec_fn(int) -> int, lo: int, mid: int, hi: int)
    requires
        lo <= mid <= hi,
    ensures
        window_sum(f, lo, hi) == window_sum(f, lo, mid) + window_sum(f, mid, hi),
    decreases hi - mid,
{
    if mid < hi {
        lemma_window_split(f, lo, mid, hi - 1);
    }
}

proof fn lemma_window_bounds(f: spec_fn(int) -> int, lo: int, hi: int)
    requires
        lo <= hi,
        forall|j: int| lo <= j < hi ==> 0 <= #[trigger] f(j) <= 255,
    ensures
        0 <= window_sum(f, lo, hi) <= 255 * (hi - lo),
    decreases hi - lo,
{
    if lo < hi {
        lemma_window_bounds(f, lo, hi - 1);
    }
}

proof fn lemma_window_slide(f: spec_fn(int) -> int, lo: int, hi: int)
    requires
        lo < hi,
    ensures
        window_sum(f, lo + 1, hi + 1) == window_sum(f, lo, hi) - f(lo) + f(hi),
{
    lemma_window_split(f, lo, lo + 1, hi + 1);
    lemma_window_split(f, lo, lo + 1, hi);
    assert(window_sum(f, lo, lo) == 0);
    assert(window_sum(f, lo, lo + 1) == f(lo));
}

proof fn lemma_line_window_bounds(s: Seq<u8>, start: int, stride: int, n: int, lo: int, hi: int)
    requires
        lo <= hi,
    ensures
        0 <= window_sum(line_sample(s, start, stride, n), lo, hi) <= 255 * (hi - lo),
{
    let f = line_sample(s, start, stride, n);
    assert forall|j: int| lo <= j < hi implies 0 <= #[trigger] f(j) <= 255 by {}
    lemma_window_bounds(f, lo, hi);
}

proof fn lemma_pixel_bound(w: int, h: int, x: int, y: int, c: int)
    requires
        0 <= x < w,
        0 <= y < h,
        0 <= c < 4,
    ensures
        0 <= pixel_index(w, x, y, c) < w * h * 4,
        pixel_index(w, x, y, c) == y * w * 4 + x * 4 + c,
{
    assert(0 <= y * w <= (h - 1) * w) by (nonlinear_arith)
        requires
            0 <= y < h,
            0 < w,
    ;
    assert((h - 1) * w + w == w * h) by (nonlinear_arith);
}

proof fn lemma_pixel_injective(w: int, x1: int, y1: int, c1: int, x2: int, y2: int, c2: int)
    requires
        0 <= x1 < w,
        0 <= x2 < w,
        0 <= c1 < 4,
        0 <= c2 < 4,
        pixel_index(w, x1, y1, c1) == pixel_index(w, x2, y2, c2),
    ensures
        x1 == x2,
        y1 == y2,
        c1 == c2,
{
    let p1 = y1 * w + x1;
    let p2 = y2 * w + x2;
    assert(p1 == p2 && c1 == c2);
    lemma_fundamental_div_mod_converse(p1, w, y1, x1);
    lemma_fundamental_div_mod_converse(p2, w, y2, x2);
}

proof fn lemma_pixel_decompose(i: int, w: int, h: int)
    requires
        0 <= i < w * h * 4,
        w > 0,
        h > 0,
    ensures
        0 <= i / 4 % w < w,
        0 <= i / 4 / w < h,
        0 <= i % 4 < 4,
        i == pixel_index(w, i / 4 % w, i / 4 / w, i % 4),
{
    let p = i / 4;
    lemma_fundamental_div_mod_converse(i, 4, p, i - p * 4);
    assert(0 <= p < w * h);
    let x = p % w;
    let y = p / w;
    assert(p == y * w + x && 0 <= x < w) by (nonlinear_arith)
        requires
            w > 0,
            x == p % w,
            y == p / w,
    ;
    assert(0 <= y < h) by (nonlinear_arith)
        requires
            0 <= p < w * h,
            p == y * w + x,
            0 <= x < w,
    ;
}

/// One box average along the line of `count` bytes at
/// `start, start + stride, ...` of `src`, written at the same places of `dst`.
fn blur_line(src: &[u8], dst: &mut [u8], start: usize, stride: usize, count: usize, radius: usize)
    requires
        count > 0,
        stride > 0,
        start + (count - 1) * stride < src@.len(),
        start + (count - 1) * stride < old(dst)@.len(),
        radius <= MAX_BLUR_RADIUS,
    ensures
        final(dst)@.len() == old(dst)@.len(),
        forall|k: int|
            0 <= k < count ==> final(dst)@[line_pos(start as int, stride as int, k)] == line_average(
                src@,
                start as int,
                stride as int,
                count as int,
                radius as int,
                k,
            ) as u8,
        forall|i: int|
            0 <= i < final(dst)@.len() && off_line(i, start as int, stride as int, count as int)
                ==> final(dst)@[i] == old(dst)@[i],
{
    let ghost f = line_sample(src@, start as int, stride as int, count as int);
    let ghost r = radius as int;
    let ghost n = count as int;
    assert forall|k: int| 0 <= k < n implies 0 <= #[trigger] (k * stride) <= (count - 1) * stride
        by {
        assert(0 <= k * stride <= (count - 1) * stride) by (nonlinear_arith)
            requires
                0 <= k < count,
                stride > 0,
        ;
    }
    let src_len = src.len();
    assert(src@.len() <= usize::MAX);
    let diameter: u32 = (radius * 2 + 1) as u32;
    let mut sum: u32 = 0;
    let mut i: usize = 0;
    while i <= radius
        invariant
            i <= radius + 1,
            radius <= MAX_BLUR_RADIUS,
            count > 0,
            stride > 0,
            start + (count - 1) * stride < src@.len(),
            src@.len() <= usize::MAX,
            forall|k: int| 0 <= k < n ==> 0 <= #[trigger] (k * stride) <= (count - 1) * stride,
            f == line_sample(src@, start as int, stride as int, count as int),
            n == count,
            sum == window_sum(f, 0, i as int),
        decreases radius + 1 - i,
    {
        let j = if i < count - 1 {
            i
        } else {
            count - 1
        };
        assert(j == clamp_index(i as int, n));
        assert(0 <= j * stride <= (count - 1) * stride) by (nonlinear_arith)
            requires
                j < count,
                stride > 0,
        ;
        proof {
            lemma_line_window_bounds(src@, start as int, stride as int, n, 0, i + 1);
            assert(window_sum(f, 0, i + 1) == window_sum(f, 0, i as int) + f(i as int));
        }
        sum = sum + src[start + j * stride] as u32;
        i = i + 1;
    }
    let mut m: usize = 0;
    while m < radius
        invariant
            m <= radius,
            radius <= MAX_BLUR_RADIUS,
            start < src@.len(),
            f == line_sample(src@, start as int, stride as int, count as int),
            n == count,
            r == radius,
            sum == window_sum(f, -m, r + 1),
        decreases radius - m,
    {
        proof {
            lemma_window_split(f, -m - 1, -m, r + 1);
            assert(window_sum(f, -m - 1, -m - 1) == 0);
            assert(window_sum(f, -m - 1, -m) == f(-m - 1));
            assert(f(-m - 1) == src@[start as int]);
            lemma_line_window_bounds(src@, start as int, stride as int, n, -m - 1, r + 1);
        }
        sum = sum + src[start] as u32;
        m = m + 1;
    }
    let mut k: usize = 0;
    while k < count
        invariant
            k <= count,
            radius <= MAX_BLUR_RADIUS,
            count > 0,
            stride > 0,
            start + (count - 1) * stride < src@.len(),
            src@.len() <= usize::MAX,
            forall|k: int| 0 <= k < n ==> 0 <= #[trigger] (k * stride) <= (count - 1) * stride,
            dst@.len() == old(dst)@.len(),
            start + (count - 1) * stride < dst@.len(),
            f == line_sample(src@, start as int, stride as int, count as int),
            n == count,
            r == radius,
            diameter == 2 * r + 1,
            sum == window_sum(f, k - r, k + r + 1),
            forall|k2: int|
                0 <= k2 < k ==> dst@[line_pos(start as int, stride as int, k2)] == line_average(
                    src@,
                    start as int,
                    stride as int,
                    n,
                    r,
                    k2,
                ) as u8,
            forall|i: int|
                0 <= i < dst@.len() && off_line(i, start as int, stride as int, k as int)
                    ==> dst@[i] == old(dst)@[i],
        decreases count - k,
    {
        proof {
            lemma_line_window_bounds(src@, start as int, stride as int, n, k - r, k + r + 1);
        }
        assert(0 <= k * stride <= (count - 1) * stride) by (nonlinear_arith)
            requires
                k < count,
                stride > 0,
        ;
        let idx = start + k * stride;
        let value = (sum / diameter) as u8;
        assert(value == line_average(src@, start as int, stride as int, n, r, k as int) as u8);
        let ghost before = dst@;
        dst[idx] = value;
        proof {
            assert forall|k2: int| 0 <= k2 < k implies #[trigger] line_pos(start as int, stride as int, k2) != idx by {
                assert(k2 * stride < k * stride) by (nonlinear_arith)
                    requires
                        0 <= k2 < k,
                        stride > 0,
                ;
            }
            assert forall|k2: int| 0 <= k2 < k + 1 implies dst@[line_pos(start as int, stride as int, k2)]
                == line_average(src@, start as int, stride as int, n, r, k2) as u8 by {
                if k2 < k {
                    assert(line_pos(start as int, stride as int, k2) != idx);
                }
            }
            assert forall|i: int|
                0 <= i < dst@.len() && off_line(i, start as int, stride as int, k + 1) implies dst@[i]
                == old(dst)@[i] by {
                assert(i != line_pos(start as int, stride as int, k as int));
                assert(off_line(i, start as int, stride as int, k as int));
            }
        }
        let left = if k >= radius {
            k - radius
        } else {
            0
        };
        let right = if radius + 1 < count - k {
            k + radius + 1
        } else {
            count - 1
        };
        assert(left == clamp_index(k - r, n));
        assert(right == clamp_index(k + r + 1, n));
        assert(0 <= left * stride <= (count - 1) * stride) by (nonlinear_arith)
            requires
                left < count,
                stride > 0,
        ;
        assert(0 <= right * stride <= (count - 1) * stride) by (nonlinear_arith)
            requires
                right < count,
                stride > 0,
        ;
        proof {
            lemma_window_slide(f, k - r, k + r + 1);
            lemma_window_split(f, k - r, k - r + 1, k + r + 1);
            assert(window_sum(f, k - r, k - r) == 0);
            lemma_line_window_bounds(src@, start as int, stride as int, n, k - r + 1, k + r + 1);
            lemma_line_window_bounds(src@, start as int, stride as int, n, k + 1 - r, k + r + 2);
            assert(f(k - r) == src@[start + left * stride]);
            assert(f(k + r + 1) == src@[start + right * stride]);
        }
        sum = sum - src[start + left * stride] as u32 + src[start + right * stride] as u32;
        k = k + 1;
    }
}

/// Horizontal box pass of `src` into `dst`.
fn box_blur_horizontal(src: &[u8], dst: &mut [u8], width: usize, height: usize, radius: usize)
    requires
        width > 0,
        height > 0,
        width * height * 4 <= src@.len(),
        width * height * 4 <= old(dst)@.len(),
        radius <= MAX_BLUR_RADIUS,
    ensures
        final(dst)@.len() == old(dst)@.len(),
        forall|x: int, y: int, c: int|
            0 <= x < width && 0 <= y < height && 0 <= c < 4 ==> final(dst)@[pixel_index(
                width as int,
                x,
                y,
                c,
            )] == line_average(src@, y * width * 4 + c, 4, width as int, radius as int, x) as u8,
        forall|i: int| width * height * 4 <= i < old(dst)@.len() ==> final(dst)@[i] == old(dst)@[i],
{
    let src_len = src.len();
    let ghost w = width as int;
    let ghost h = height as int;
    let mut y: usize = 0;
    while y < height
        invariant
            y <= height,
            w == width,
            h == height,
            width > 0,
            width * height * 4 <= src@.len(),
            src@.len() <= usize::MAX,
            dst@.len() == old(dst)@.len(),
            width * height * 4 <= dst@.len(),
            radius <= MAX_BLUR_RADIUS,
            forall|x: int, y2: int, c: int|
                0 <= x < w && 0 <= y2 < h && 0 <= c < 4 ==> dst@[pixel_index(w, x, y2, c)] == if y2
                    < y {
                    line_average(src@, y2 * w * 4 + c, 4, w, radius as int, x) as u8
                } else {
                    old(dst)@[pixel_index(w, x, y2, c)]
                },
            forall|i: int| w * h * 4 <= i < dst@.len() ==> dst@[i] == old(dst)@[i],
        decreases height - y,
    {
        let mut c: usize = 0;
        while c < 4
            invariant
                c <= 4,
                y < height,
                w == width,
                h == height,
                width > 0,
                width * height * 4 <= src@.len(),
                src@.len() <= usize::MAX,
                dst@.len() == old(dst)@.len(),
                width * height * 4 <= dst@.len(),
                radius <= MAX_BLUR_RADIUS,
                forall|x: int, y2: int, c2: int|
                    0 <= x < w && 0 <= y2 < h && 0 <= c2 < 4 ==> dst@[pixel_index(w, x, y2, c2)]
                        == if y2 < y || (y2 == y && c2 < c) {
                        line_average(src@, y2 * w * 4 + c2, 4, w, radius as int, x) as u8
                    } else {
                        old(dst)@[pixel_index(w, x, y2, c2)]
                    },
                forall|i: int| w * h * 4 <= i < dst@.len() ==> dst@[i] == old(dst)@[i],
            decreases 4 - c,
        {
            proof {
                lemma_pixel_bound(w, h, w - 1, y as int, c as int);
            }
            let start = y * width * 4 + c;
            let ghost prev = dst@;
            blur_line(src, dst, start, 4, width, radius);
            proof {
                assert forall|x: int, y2: int, c2: int|
                    0 <= x < w && 0 <= y2 < h && 0 <= c2 < 4 implies dst@[pixel_index(
                        w,
                        x,
                        y2,
                        c2,
                    )] == if y2 < y || (y2 == y && c2 < c + 1) {
                        line_average(src@, y2 * w * 4 + c2, 4, w, radius as int, x) as u8
                    } else {
                        old(dst)@[pixel_index(w, x, y2, c2)]
                    } by {
                    lemma_pixel_bound(w, h, x, y2, c2);
                    if y2 == y && c2 == c {
                        assert(pixel_index(w, x, y2, c2) == line_pos(start as int, 4, x));
                        assert(start == y2 * w * 4 + c2);
                    } else {
                        assert forall|k: int| 0 <= k < w implies pixel_index(w, x, y2, c2)
                            != #[trigger] line_pos(start as int, 4, k) by {
                            lemma_pixel_bound(w, h, k, y as int, c as int);
                            if pixel_index(w, x, y2, c2) == start + k * 4 {
                                lemma_pixel_injective(w, x, y2, c2, k, y as int, c as int);
                            }
                        }
                        assert(off_line(pixel_index(w, x, y2, c2), start as int, 4, w));
                        assert(dst@[pixel_index(w, x, y2, c2)] == prev[pixel_index(w, x, y2, c2)]);
                    }
                }
                assert forall|i: int| w * h * 4 <= i < dst@.len() implies dst@[i] == old(dst)@[i] by {
                    assert forall|k: int| 0 <= k < w implies i != #[trigger] line_pos(
                        start as int,
                        4,
                        k,
                    ) by {
                        lemma_pixel_bound(w, h, k, y as int, c as int);
                    }
                }
            }
            c = c + 1;
        }
        y = y + 1;
    }
}

/// Vertical box pass of `src` into `dst`.
fn box_blur_vertical(src: &[u8], dst: &mut [u8], width: usize, height: usize, radius: usize)
    requires
        width > 0,
        height > 0,
        width * height * 4 <= src@.len(),
        width * height * 4 <= old(dst)@.len(),
        radius <= MAX_BLUR_RADIUS,
    ensures
        final(dst)@.len() == old(dst)@.len(),
        forall|x: int, y: int, c: int|
            0 <= x < width && 0 <= y < height && 0 <= c < 4 ==> final(dst)@[pixel_index(
                width as int,
                x,
                y,
                c,
            )] == line_average(
                src@,
                x * 4 + c,
                width * 4,
                height as int,
                radius as int,
                y,
            ) as u8,
        forall|i: int| width * height * 4 <= i < old(dst)@.len() ==> final(dst)@[i] == old(dst)@[i],
{
    let src_len = src.len();
    let ghost w = width as int;
    let ghost h = height as int;
    let mut x: usize = 0;
    while x < width
        invariant
            x <= width,
            w == width,
            h == height,
            height > 0,
            width > 0,
            width * height * 4 <= src@.len(),
            src@.len() <= usize::MAX,
            dst@.len() == old(dst)@.len(),
            width * height * 4 <= dst@.len(),
            radius <= MAX_BLUR_RADIUS,
            forall|x2: int, y: int, c: int|
                0 <= x2 < w && 0 <= y < h && 0 <= c < 4 ==> dst@[pixel_index(w, x2, y, c)] == if x2
                    < x {
                    line_average(src@, x2 * 4 + c, w * 4, h, radius as int, y) as u8
                } else {
                    old(dst)@[pixel_index(w, x2, y, c)]
                },
            forall|i: int| w * h * 4 <= i < dst@.len() ==> dst@[i] == old(dst)@[i],
        decreases width - x,
    {
        let mut c: usize = 0;
        while c < 4
            invariant
                c <= 4,
                x < width,
                w == width,
                h == height,
                height > 0,
                width > 0,
                width * height * 4 <= src@.len(),
                src@.len() <= usize::MAX,
                dst@.len() == old(dst)@.len(),
                width * height * 4 <= dst@.len(),
                radius <= MAX_BLUR_RADIUS,
                forall|x2: int, y: int, c2: int|
                    0 <= x2 < w && 0 <= y < h && 0 <= c2 < 4 ==> dst@[pixel_index(w, x2, y, c2)]
                        == if x2 < x || (x2 == x && c2 < c) {
                        line_average(src@, x2 * 4 + c2, w * 4, h, radius as int, y) as u8
                    } else {
                        old(dst)@[pixel_index(w, x2, y, c2)]
                    },
                forall|i: int| w * h * 4 <= i < dst@.len() ==> dst@[i] == old(dst)@[i],
            decreases 4 - c,
        {
            proof {
                lemma_pixel_bound(w, h, x as int, h - 1, c as int);
                assert((h - 1) * (w * 4) == (h - 1) * w * 4) by (nonlinear_arith);
                assert(width * 4 <= width * height * 4) by (nonlinear_arith)
                    requires
                        height > 0,
                ;
            }
            let start = x * 4 + c;
            let stride = width * 4;
            let ghost prev = dst@;
            blur_line(src, dst, start, stride, height, radius);
            proof {
                assert forall|k: int| #[trigger] (k * (w * 4)) == k * w * 4 by {
                    assert(k * (w * 4) == k * w * 4) by (nonlinear_arith);
                }
                assert forall|x2: int, y: int, c2: int|
                    0 <= x2 < w && 0 <= y < h && 0 <= c2 < 4 implies dst@[pixel_index(
                        w,
                        x2,
                        y,
                        c2,
                    )] == if x2 < x || (x2 == x && c2 < c + 1) {
                        line_average(src@, x2 * 4 + c2, w * 4, h, radius as int, y) as u8
                    } else {
                        old(dst)@[pixel_index(w, x2, y, c2)]
                    } by {
                    lemma_pixel_bound(w, h, x2, y, c2);
                    if x2 == x && c2 == c {
                        assert(y * (w * 4) == y * w * 4);
                        assert(pixel_index(w, x2, y, c2) == line_pos(start as int, stride as int, y));
                        assert(start == x2 * 4 + c2);
                    } else {
                        assert forall|k: int| 0 <= k < h implies pixel_index(w, x2, y, c2)
                            != #[trigger] line_pos(start as int, stride as int, k) by {
                            lemma_pixel_bound(w, h, x as int, k, c as int);
                            assert(k * (w * 4) == k * w * 4);
                            if pixel_index(w, x2, y, c2) == start + k * stride {
                                lemma_pixel_injective(w, x2, y, c2, x as int, k, c as int);
                            }
                        }
                        assert(off_line(pixel_index(w, x2, y, c2), start as int, stride as int, h));
                        assert(dst@[pixel_index(w, x2, y, c2)] == prev[pixel_index(w, x2, y, c2)]);
                    }
                }
                assert forall|i: int| w * h * 4 <= i < dst@.len() implies dst@[i] == old(dst)@[i] by {
                    assert forall|k: int| 0 <= k < h implies i != #[trigger] line_pos(
                        start as int,
                        stride as int,
                        k,
                    ) by {
                        lemma_pixel_bound(w, h, x as int, k, c as int);
                        assert(k * (w * 4) == k * w * 4);
                    }
                }
            }
            c = c + 1;
        }
        x = x + 1;
    }
}

/// One box pass over the image in `data` (horizontal, then vertical).
fn box_blur(data: &mut [u8], width: usize, height: usize, radius: usize)
    requires
        radius > 0,
        blur_input_ok(old(data)@.len() as int, width as int, height as int, radius as int),
    ensures
        final(data)@ == box_pass(old(data)@, width as int, height as int, radius as int),
{
    let ghost w = width as int;
    let ghost h = height as int;
    let ghost r = radius as int;
    let ghost s = data@;
    if width == 0 || height == 0 {
        proof {
            assert(w * h * 4 == 0) by (nonlinear_arith)
                requires
                    w == 0 || h == 0,
            ;
            assert(box_pass(s, w, h, r) =~= s);
        }
        return;
    }
    let mut temp = vec![0u8; data.len()];
    box_blur_horizontal(data, &mut temp, width, height, radius);
    let ghost hp = temp@;
    proof {
        assert(hp =~= horizontal_pass(s, w, h, r)) by {
            assert forall|i: int| 0 <= i < s.len() implies hp[i] == horizontal_pass(s, w, h, r)[i] by {
                if i < w * h * 4 {
                    lemma_pixel_decompose(i, w, h);
                }
            }
        }
    }
    box_blur_vertical(&temp, data, width, height, radius);
    proof {
        assert(data@ =~= box_pass(s, w, h, r)) by {
            assert forall|i: int| 0 <= i < s.len() implies data@[i] == box_pass(s, w, h, r)[i] by {
                if i < w * h * 4 {
                    lemma_pixel_decompose(i, w, h);
                }
            }
        }
    }
}

/// Whether `blur_rgba` can run on a buffer of `len` bytes.
pub fn blur_input_valid(len: usize, width: usize, height: usize, radius: usize) -> (b: bool)
    ensures
        b == blur_input_ok(len as int, width as int, height as int, radius as int),
{
    if radius > MAX_BLUR_RADIUS {
        return false;
    }
    if radius == 0 || (width == 0 && height == 0) {
        return true;
    }
    if width == 0 || height == 0 {
        return false;
    }
    match width.checked_mul(height) {
        Some(p) => match p.checked_mul(4) {
            Some(n) => n <= len,
            None => {
                assert(width * height * 4 > usize::MAX);
                false
            },
        },
        None => {
            assert(width * height * 4 >= width * height) by (nonlinear_arith);
            false
        },
    }
}

/// Apply a box blur approximation of a Gaussian blur to RGBA image data:
/// three box passes of radius `radius`, or nothing when `radius` is 0.
/// Bytes past `width * height` pixels keep their value.
pub fn blur_rgba(data: &mut [u8], width: usize, height: usize, radius: usize)
    requires
        blur_input_ok(old(data)@.len() as int, width as int, height as int, radius as int),
    ensures
        final(data)@ == blurred(old(data)@, width as int, height as int, radius as int),
{
    if radius == 0 {
        return;
    }
    box_blur(data, width, height, radius);
    box_blur(data, width, height, radius);
    box_blur(data, width, height, radius);
}

} // verus!
