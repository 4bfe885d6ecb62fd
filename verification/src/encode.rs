//! Image encoding: PNG through the `png` crate, the uncompressed PPM and PAM
//! formats, base64 text of encoded bytes, and selection of the encoder by
//! format name.

use base64::Engine;
use vstd::prelude::*;
use crate::error::GarshotError;
use crate::text::{chars_of, decimal, decimal_chars, is_ascii_text, push_all, string_of};

verus! {

broadcast use vstd::string::group_string_axioms;

/// The bytes of the characters of `s`, one byte per character (the UTF-8
/// encoding when `s` is ASCII).
pub open spec fn ascii_bytes(s: Seq<char>) -> Seq<u8> {
    s.map_values(|c: char| c as u8)
}

/// Decimal digits of `n` as ASCII bytes.
pub open spec fn decimal_bytes(n: nat) -> Seq<u8> {
    ascii_bytes(decimal(n))
}

/// Append the bytes of the characters of `s` to `buf`.
fn push_ascii(buf: &mut Vec<u8>, s: &[char])
    ensures
        final(buf)@ == old(buf)@ + ascii_bytes(s@),
{
    let mut i: usize = 0;
    while i < s.len()
        invariant
            i <= s@.len(),
            buf@ == old(buf)@ + ascii_bytes(s@.take(i as int)),
        decreases s@.len() - i,
    {
        buf.push(s[i] as u8);
        proof {
            assert(ascii_bytes(s@.take(i + 1)) =~= ascii_bytes(s@.take(i as int)).push(
                s@[i as int] as u8,
            ));
        }
        i = i + 1;
    }
    proof {
        assert(s@.take(s@.len() as int) =~= s@);
    }
}

fn push_literal(buf: &mut Vec<u8>, s: &str)
    ensures
        final(buf)@ == old(buf)@ + ascii_bytes(s@),
{
    let v = chars_of(s);
    push_ascii(buf, v.as_slice());
}

fn push_decimal(buf: &mut Vec<u8>, n: u32)
    ensures
        final(buf)@ == old(buf)@ + decimal_bytes(n as nat),
{
    let d = decimal_chars(n as u64);
    push_ascii(buf, d.as_slice());
}

/// The RGB bytes of the whole RGBA pixels of `s` (alpha dropped, a trailing
/// partial pixel ignored).
pub open spec fn rgb_of_rgba(s: Seq<u8>) -> Seq<u8> {
    Seq::new((s.len() / 4 * 3) as nat, |i: int| s[(i / 3) * 4 + i % 3])
}

/// A binary PPM (`P6`) file of the image.
pub open spec fn ppm_bytes(data: Seq<u8>, width: u32, height: u32) -> Seq<u8> {
    ascii_bytes("P6\n"@) + decimal_bytes(width as nat) + ascii_bytes(" "@) + decimal_bytes(
        height as nat,
    ) + ascii_bytes("\n255\n"@) + rgb_of_rgba(data)
}

/// A PAM (`P7`, RGB_ALPHA) file of the image.
pub open spec fn pam_bytes(data: Seq<u8>, width: u32, height: u32) -> Seq<u8> {
    ascii_bytes("P7\nWIDTH "@) + decimal_bytes(width as nat) + ascii_bytes("\nHEIGHT "@)
        + decimal_bytes(height as nat) + ascii_bytes(
        "\nDEPTH 4\nMAXVAL 255\nTUPLTYPE RGB_ALPHA\nENDHDR\n"@,
    ) + data
}

/// Encode RGBA image data to PPM bytes (RGB, no alpha).
pub fn encode_ppm_to_vec(data: &[u8], width: u32, height: u32) -> (r: Result<Vec<u8>, GarshotError>)
    requires
        width * height * 3 + 50 <= usize::MAX,
    ensures
        r matches Ok(v) && v@ == ppm_bytes(data@, width, height),
{
    let mut buffer: Vec<u8> = Vec::with_capacity(width as usize * height as usize * 3 + 50);
    push_literal(&mut buffer, "P6\n");
    push_decimal(&mut buffer, width);
    push_literal(&mut buffer, " ");
    push_decimal(&mut buffer, height);
    push_literal(&mut buffer, "\n255\n");
    let ghost header = buffer@;
    let n = data.len() / 4;
    let mut k: usize = 0;
    while k < n
        invariant
            k <= n,
            n == data@.len() / 4,
            data@.len() <= usize::MAX,
            buffer@ == header + rgb_of_rgba(data@).take(3 * k),
        decreases n - k,
    {
        let b = 4 * k;
        buffer.push(data[b]);
        buffer.push(data[b + 1]);
        buffer.push(data[b + 2]);
        proof {
            assert(rgb_of_rgba(data@).take(3 * k + 3) =~= rgb_of_rgba(data@).take(3 * k).push(
                data@[4 * k],
            ).push(data@[4 * k + 1]).push(data@[4 * k + 2]));
        }
        k = k + 1;
    }
    proof {
        assert(rgb_of_rgba(data@).take(3 * n) =~= rgb_of_rgba(data@));
    }
    Ok(buffer)
}

/// Encode RGBA image data to PAM bytes (with alpha).
pub fn encode_pam_to_vec(data: &[u8], width: u32, height: u32) -> (r: Result<Vec<u8>, GarshotError>)
    ensures
        r matches Ok(v) && v@ == pam_bytes(data@, width, height),
{
    let mut buffer: Vec<u8> = Vec::with_capacity(data.len().saturating_add(100));
    push_literal(&mut buffer, "P7\nWIDTH ");
    push_decimal(&mut buffer, width);
    push_literal(&mut buffer, "\nHEIGHT ");
    push_decimal(&mut buffer, height);
    push_literal(&mut buffer, "\nDEPTH 4\nMAXVAL 255\nTUPLTYPE RGB_ALPHA\nENDHDR\n");
    let ghost header = buffer@;
    let mut i: usize = 0;
    while i < data.len()
        invariant
            i <= data@.len(),
            buffer@ == header + data@.take(i as int),
        decreases data@.len() - i,
    {
        buffer.push(data[i]);
        proof {
            assert(data@.take(i + 1) =~= data@.take(i as int).push(data@[i as int]));
        }
        i = i + 1;
    }
    proof {
        assert(data@.take(data@.len() as int) =~= data@);
    }
    Ok(buffer)
}

/// The result of the `png` crate's encoder on an 8-bit RGBA image with fast
/// compression and the Sub filter: the file's bytes, or the text of the
/// encoder's error.
pub uninterp spec fn png_encoded(data: Seq<u8>, width: u32, height: u32) -> Result<Seq<u8>, Seq<char>>;

/// The eight-byte PNG file signature.
pub open spec fn png_signature() -> Seq<u8> {
    seq![137u8, 80, 78, 71, 13, 10, 26, 10]
}

/// Encodes with `png::Encoder` (RGBA, 8 bit, `Compression::Fast`,
/// `FilterType::Sub`) into memory; the writer is dropped before the buffer is
/// returned, which writes the closing IEND chunk. Claims: the result is
/// `png_encoded` of the arguments; the encoder writes the PNG signature
/// first; it succeeds on a non-empty image whose buffer holds exactly
/// `width * height` RGBA pixels (writing into a `Vec` cannot fail).
#[verifier::external_body]
fn png_encode_rgba(data: &[u8], width: u32, height: u32) -> (r: Result<Vec<u8>, String>)
    ensures
        match r {
            Ok(v) => png_encoded(data@, width, height) == Ok::<Seq<u8>, Seq<char>>(v@),
            Err(e) => png_encoded(data@, width, height) == Err::<Seq<u8>, Seq<char>>(e@),
        },
        r matches Ok(v) ==> v@.len() >= 8 && v@.take(8) == png_signature(),
        width > 0 && height > 0 && data@.len() == width * height * 4 ==> r is Ok,
{
    let mut buffer = Vec::new();
    {
        let mut encoder = png::Encoder::new(&mut buffer, width, height);
        encoder.set_color(png::ColorType::Rgba);
        encoder.set_depth(png::BitDepth::Eight);
        encoder.set_compression(png::Compression::Fast);
        encoder.set_filter(png::FilterType::Sub);
        let mut writer = encoder.write_header().map_err(|e| e.to_string())?;
        writer.write_image_data(data).map_err(|e| e.to_string())?;
    }
    Ok(buffer)
}

/// The message of a buffer whose size does not match the dimensions.
pub open spec fn size_mismatch_message(len: nat, expected: nat, width: u32, height: u32) -> Seq<char> {
    "Data size "@ + decimal(len) + " does not match expected size "@ + decimal(expected) + " for "@
        + decimal(width as nat) + "x"@ + decimal(height as nat) + " RGBA image"@
}

fn size_mismatch(len: usize, expected: usize, width: u32, height: u32) -> (r: GarshotError)
    ensures
        r matches GarshotError::EncodeError(m) && m@ == size_mismatch_message(
            len as nat,
            expected as nat,
            width,
            height,
        ),
{
    let mut out: Vec<char> = Vec::new();
    push_all(&mut out, chars_of("Data size ").as_slice());
    push_all(&mut out, decimal_chars(len as u64).as_slice());
    push_all(&mut out, chars_of(" does not match expected size ").as_slice());
    push_all(&mut out, decimal_chars(expected as u64).as_slice());
    push_all(&mut out, chars_of(" for ").as_slice());
    push_all(&mut out, decimal_chars(width as u64).as_slice());
    push_all(&mut out, chars_of("x").as_slice());
    push_all(&mut out, decimal_chars(height as u64).as_slice());
    push_all(&mut out, chars_of(" RGBA image").as_slice());
    GarshotError::EncodeError(string_of(out.as_slice()))
}

/// What `encode_png_to_vec` gives: the PNG bytes, an encoder error, or a
/// size error when the buffer is not exactly `width * height` RGBA pixels.
pub open spec fn png_result_matches(
    r: Result<Vec<u8>, GarshotError>,
    data: Seq<u8>,
    width: u32,
    height: u32,
) -> bool {
    if data.len() != width * height * 4 {
        r matches Err(GarshotError::EncodeError(m)) && m@ == size_mismatch_message(
            data.len(),
            (width * height * 4) as nat,
            width,
            height,
        )
    } else {
        match png_encoded(data, width, height) {
            Ok(b) => r matches Ok(v) && v@ == b,
            Err(e) => r matches Err(GarshotError::EncodeError(m)) && m@ == e,
        }
    }
}

/// Encode RGBA image data to PNG bytes in memory.
pub fn encode_png_to_vec(data: &[u8], width: u32, height: u32) -> (r: Result<Vec<u8>, GarshotError>)
    requires
        width * height * 4 <= u32::MAX,
    ensures
        png_result_matches(r, data@, width, height),
        width > 0 && height > 0 && data@.len() == width * height * 4 ==> r is Ok,
        r matches Ok(v) ==> v@.take(8) == png_signature(),
{
    let expected_size = (width * height * 4) as usize;
    if data.len() != expected_size {
        return Err(size_mismatch(data.len(), expected_size, width, height));
    }
    match png_encode_rgba(data, width, height) {
        Ok(v) => Ok(v),
        Err(e) => Err(GarshotError::EncodeError(e)),
    }
}

/// The `str::to_lowercase` result on a string: Unicode lowercase mapping.
pub uninterp spec fn lowercase_of(s: Seq<char>) -> Seq<char>;

/// `s` with the ASCII capitals `A`..`Z` turned into `a`..`z`.
pub open spec fn ascii_lowercase(s: Seq<char>) -> Seq<char> {
    s.map_values(|c: char| if 'A' <= c <= 'Z' { ((c as u32) + 32) as char } else { c })
}

/// Calls `str::to_lowercase`. Claims that the result is `lowercase_of` the
/// argument, and that on ASCII text it is the text with `A`..`Z` lowered
/// and every other character kept (the Unicode lowercase mapping of ASCII).
#[verifier::external_body]
fn to_lowercase(s: &str) -> (r: String)
    ensures
        r@ == lowercase_of(s@),
        is_ascii_text(s@) ==> r@ == ascii_lowercase(s@),
{
    s.to_lowercase()
}

/// The message for a format that no encoder handles.
pub open spec fn unsupported_message(format: Seq<char>) -> Seq<char> {
    "Unsupported format: "@ + format
}

fn unsupported(format: &str) -> (r: GarshotError)
    ensures
        r matches GarshotError::EncodeError(m) && m@ == unsupported_message(format@),
{
    let mut out = chars_of("Unsupported format: ");
    push_all(&mut out, chars_of(format).as_slice());
    GarshotError::EncodeError(string_of(out.as_slice()))
}

/// The format names that the encoders answer to.
pub open spec fn is_known_format(name: Seq<char>) -> bool {
    name == "png"@ || name == "jpeg"@ || name == "webp"@ || name == "ppm"@ || name == "pam"@
}

/// What encoding the image in the known format `name` gives: the result of
/// that format's encoder (`quality` reaches the JPEG encoder only).
pub open spec fn encoded_as(
    r: Result<Vec<u8>, GarshotError>,
    data: Seq<u8>,
    width: u32,
    height: u32,
    name: Seq<char>,
    quality: u8,
) -> bool {
    if name == "png"@ {
        png_result_matches(r, data, width, height)
    } else if name == "jpeg"@ {
        jpeg_result_matches(r, data, width, height, quality)
    } else if name == "webp"@ {
        webp_result_matches(r, data, width, height)
    } else if name == "ppm"@ {
        r matches Ok(v) && v@ == ppm_bytes(data, width, height)
    } else {
        r matches Ok(v) && v@ == pam_bytes(data, width, height)
    }
}

/// A whole, non-empty image within the size limits of the encoder of
/// `name`: JPEG dimensions up to 65535, WebP ones up to 16384.
pub open spec fn encoder_accepts(data: Seq<u8>, width: u32, height: u32, name: Seq<char>) -> bool {
    &&& width > 0
    &&& height > 0
    &&& data.len() == width * height * 4
    &&& name == "jpeg"@ ==> width <= 65535 && height <= 65535
    &&& name == "webp"@ ==> width <= 16384 && height <= 16384
}

/// Run the encoder of the known format `name`.
fn encode_known(data: &[u8], width: u32, height: u32, name: &str, quality: u8) -> (r: Result<Vec<u8>, GarshotError>)
    requires
        width * height * 4 <= u32::MAX,
        is_known_format(name@),
    ensures
        encoded_as(r, data@, width, height, name@, quality),
        encoder_accepts(data@, width, height, name@) ==> r is Ok,
{
    if crate::text::str_equal(name, "png") {
        encode_png_to_vec(data, width, height)
    } else if crate::text::str_equal(name, "jpeg") {
        encode_jpeg_to_vec(data, width, height, quality)
    } else if crate::text::str_equal(name, "webp") {
        encode_webp_to_vec(data, width, height, quality)
    } else if crate::text::str_equal(name, "ppm") {
        assert(width * height * 3 <= width * height * 4) by (nonlinear_arith);
        encode_ppm_to_vec(data, width, height)
    } else {
        encode_pam_to_vec(data, width, height)
    }
}

/// Encode image data to the bytes of the format named `format`, matched
/// without regard to case: PNG, JPEG (at `quality`), lossless WebP, PPM or
/// PAM.
pub fn encode(data: &[u8], width: u32, height: u32, format: &str, quality: u8) -> (r: Result<Vec<u8>, GarshotError>)
    requires
        width * height * 4 <= u32::MAX,
    ensures
        is_known_format(lowercase_of(format@)) ==> encoded_as(r, data@, width, height, lowercase_of(format@), quality),
        is_known_format(lowercase_of(format@)) && encoder_accepts(data@, width, height, lowercase_of(format@))
            ==> r is Ok,
        is_ascii_text(format@) ==> lowercase_of(format@) == ascii_lowercase(format@),
        !is_known_format(lowercase_of(format@)) ==> (r matches Err(GarshotError::EncodeError(m))
            && m@ == unsupported_message(format@)),
{
    let lower = to_lowercase(format);
    if is_save_format(lower.as_str()) {
        encode_known(data, width, height, lower.as_str(), quality)
    } else {
        Err(unsupported(format))
    }
}

/// Whether images can be saved in the format named `format` (matched
/// exactly): `png`, `jpeg`, `webp`, `ppm` or `pam`.
pub fn is_save_format(format: &str) -> (b: bool)
    ensures
        b == is_known_format(format@),
{
    crate::text::str_equal(format, "png") || crate::text::str_equal(format, "jpeg")
        || crate::text::str_equal(format, "webp") || crate::text::str_equal(format, "ppm")
        || crate::text::str_equal(format, "pam")
}

/// The bytes to save for an image in the format named `format` (matched
/// exactly), JPEG at `quality`.
pub fn encode_for_save(data: &[u8], width: u32, height: u32, format: &str, quality: u8) -> (r: Result<Vec<u8>, GarshotError>)
    requires
        width * height * 4 <= u32::MAX,
    ensures
        is_known_format(format@) ==> encoded_as(r, data@, width, height, format@, quality),
        is_known_format(format@) && encoder_accepts(data@, width, height, format@) ==> r is Ok,
        !is_known_format(format@) ==> (r matches Err(GarshotError::EncodeError(m))
            && m@ == unsupported_message(format@)),
{
    if is_save_format(format) {
        encode_known(data, width, height, format, quality)
    } else {
        Err(unsupported(format))
    }
}

/// Standard base64 alphabet.
pub open spec fn base64_digit(v: int) -> char {
    if v < 26 {
        ('A' as int + v) as char
    } else if v < 52 {
        ('a' as int + v - 26) as char
    } else if v < 62 {
        ('0' as int + v - 52) as char
    } else if v == 62 {
        '+'
    } else {
        '/'
    }
}

/// Standard base64 with `=` padding (RFC 4648).
pub open spec fn base64_of(d: Seq<u8>) -> Seq<char>
    decreases d.len(),
{
    if d.len() == 0 {
        seq![]
    } else if d.len() == 1 {
        seq![base64_digit(d[0] as int / 4), base64_digit((d[0] % 4) * 16), '=', '=']
    } else if d.len() == 2 {
        seq![
            base64_digit(d[0] as int / 4),
            base64_digit((d[0] % 4) * 16 + d[1] / 16),
            base64_digit((d[1] % 16) * 4),
            '=',
        ]
    } else {
        seq![
            base64_digit(d[0] as int / 4),
            base64_digit((d[0] % 4) * 16 + d[1] / 16),
            base64_digit((d[1] % 16) * 4 + d[2] / 64),
            base64_digit(d[2] as int % 64),
        ] + base64_of(d.skip(3))
    }
}

/// Calls `base64::engine::general_purpose::STANDARD.encode`. Claims that the
/// text is the standard padded base64 of the bytes; the crate panics only
/// when the output length overflows `usize`, which `requires` excludes.
#[verifier::external_body]
pub(crate) fn base64_standard(data: &[u8]) -> (r: String)
    requires
        4 * ((data@.len() + 2) / 3) <= usize::MAX,
    ensures
        r@ == base64_of(data@),
{
    base64::engine::general_purpose::STANDARD.encode(data)
}

/// The message when the buffer holds fewer bytes than the image needs.
pub open spec fn invalid_dimensions_message() -> Seq<char> {
    "Invalid image dimensions"@
}

fn invalid_dimensions() -> (r: GarshotError)
    ensures
        r matches GarshotError::EncodeError(m) && m@ == invalid_dimensions_message(),
{
    GarshotError::EncodeError("Invalid image dimensions".to_string())
}

/// The bytes of a `width` x `height` RGBA image at the start of `data`, or
/// `None` when `data` is too short for it.
fn image_prefix(data: &[u8], width: u32, height: u32) -> (r: Option<&[u8]>)
    ensures
        r matches Some(p) ==> width * height * 4 <= data@.len() && p@ == data@.take(width * height * 4),
        r is None ==> width * height * 4 > data@.len(),
{
    let n = data.len();
    assert(n <= u64::MAX);
    match (width as u64).checked_mul(height as u64) {
        Some(pixels) => match pixels.checked_mul(4) {
            Some(bytes) => {
                if bytes <= data.len() as u64 {
                    let p = vstd::slice::slice_subrange(data, 0, bytes as usize);
                    assert(p@ =~= data@.take(width * height * 4));
                    Some(p)
                } else {
                    None
                }
            },
            None => None,
        },
        None => {
            assert(width * height * 4 >= width * height) by (nonlinear_arith);
            assert(width * height * 4 > n);
            None
        },
    }
}

/// Calls `image::ImageBuffer::from_raw` and `DynamicImage::to_rgb8`. Claims
/// that the result is the red, green and blue bytes of each pixel, alpha
/// dropped: the RGBA-to-RGB cast of 8-bit pixels copies those channels. With
/// the buffer exactly the image's size `from_raw` cannot fail, so the empty
/// vector of its `None` arm is never returned.
#[verifier::external_body]
fn rgba_to_rgb8(rgba: &[u8], width: u32, height: u32) -> (r: Vec<u8>)
    requires
        rgba@.len() == width * height * 4,
    ensures
        r@ == rgb_of_rgba(rgba@),
{
    match image::RgbaImage::from_raw(width, height, rgba.to_vec()) {
        Some(img) => image::DynamicImage::ImageRgba8(img).to_rgb8().into_raw(),
        None => Vec::new(),
    }
}

/// What `image`'s JPEG encoder writes for RGB8 bytes of a `width` x `height`
/// image at `quality`, or the text of its error.
pub uninterp spec fn jpeg_encoded(rgb: Seq<u8>, width: u32, height: u32, quality: u8) -> Result<Seq<u8>, Seq<char>>;

/// Calls `image::codecs::jpeg::JpegEncoder::new_with_quality` and `encode`
/// with `ExtendedColorType::Rgb8` into a vector. Claims: the result is
/// `jpeg_encoded` of the arguments; the encoder writes the start-of-image
/// marker `FF D8` first; it refuses only a width or height outside
/// `1..=65535` (writing into a vector cannot fail). It panics unless the
/// buffer holds exactly the image, which `requires` ensures.
#[verifier::external_body]
fn jpeg_encode_rgb(rgb: &[u8], width: u32, height: u32, quality: u8) -> (r: Result<Vec<u8>, String>)
    requires
        rgb@.len() == width * height * 3,
    ensures
        match r {
            Ok(v) => jpeg_encoded(rgb@, width, height, quality) == Ok::<Seq<u8>, Seq<char>>(v@),
            Err(e) => jpeg_encoded(rgb@, width, height, quality) == Err::<Seq<u8>, Seq<char>>(e@),
        },
        r matches Ok(v) ==> v@.len() >= 2 && v@[0] == 0xFF && v@[1] == 0xD8,
        1 <= width <= 65535 && 1 <= height <= 65535 ==> r is Ok,
{
    let mut buffer = std::io::Cursor::new(Vec::new());
    let result = image::codecs::jpeg::JpegEncoder::new_with_quality(&mut buffer, quality)
        .encode(rgb, width, height, image::ExtendedColorType::Rgb8);
    match result {
        Ok(()) => Ok(buffer.into_inner()),
        Err(e) => Err(e.to_string()),
    }
}

/// What `encode_jpeg_to_vec` gives: the JPEG of the image's RGB form, the
/// encoder's error, or a dimensions error when `data` is too short.
pub open spec fn jpeg_result_matches(
    r: Result<Vec<u8>, GarshotError>,
    data: Seq<u8>,
    width: u32,
    height: u32,
    quality: u8,
) -> bool {
    if width * height * 4 > data.len() {
        r matches Err(GarshotError::EncodeError(m)) && m@ == invalid_dimensions_message()
    } else {
        match jpeg_encoded(rgb_of_rgba(data.take(width * height * 4)), width, height, quality) {
            Ok(b) => r matches Ok(v) && v@ == b,
            Err(e) => r matches Err(GarshotError::EncodeError(m)) && m@ == e,
        }
    }
}

/// Encode RGBA image data to JPEG bytes (alpha dropped).
pub fn encode_jpeg_to_vec(data: &[u8], width: u32, height: u32, quality: u8) -> (r: Result<Vec<u8>, GarshotError>)
    ensures
        jpeg_result_matches(r, data@, width, height, quality),
        width * height * 4 <= data@.len() && 1 <= width <= 65535 && 1 <= height <= 65535 ==> r is Ok,
        r matches Ok(v) ==> v@.len() >= 2 && v@[0] == 0xFF && v@[1] == 0xD8,
{
    match image_prefix(data, width, height) {
        Some(pixels) => {
            let rgb = rgba_to_rgb8(pixels, width, height);
            assert(rgb@.len() == width * height * 3) by (nonlinear_arith)
                requires
                    rgb@.len() == pixels@.len() / 4 * 3,
                    pixels@.len() == width * height * 4,
            ;
            match jpeg_encode_rgb(rgb.as_slice(), width, height, quality) {
                Ok(v) => Ok(v),
                Err(e) => Err(GarshotError::EncodeError(e)),
            }
        },
        None => Err(invalid_dimensions()),
    }
}

/// What `image`'s lossless WebP encoder writes for RGBA8 bytes of a
/// `width` x `height` image, or the text of its error.
pub uninterp spec fn webp_encoded(rgba: Seq<u8>, width: u32, height: u32) -> Result<Seq<u8>, Seq<char>>;

/// The bytes of `RIFF` and `WEBP`, which open a WebP file.
pub open spec fn webp_container(v: Seq<u8>) -> bool {
    &&& v.len() >= 12
    &&& v.subrange(0, 4) == seq![0x52u8, 0x49, 0x46, 0x46]
    &&& v.subrange(8, 12) == seq![0x57u8, 0x45, 0x42, 0x50]
}

/// Calls `image::write_buffer_with_format` with `ExtendedColorType::Rgba8`
/// and `ImageFormat::WebP` into a vector, as `RgbaImage::write_to` does.
/// Claims: the result is `webp_encoded` of the arguments, and a success
/// is a simple WebP container (`RIFF`, size, `WEBP`); it succeeds exactly
/// when both dimensions lie in `1..=16384` (the encoder's one refusal;
/// writing into a vector cannot fail). It panics unless the buffer holds
/// exactly the image, which `requires` ensures.
#[verifier::external_body]
fn webp_encode_rgba(rgba: &[u8], width: u32, height: u32) -> (r: Result<Vec<u8>, String>)
    requires
        rgba@.len() == width * height * 4,
    ensures
        match r {
            Ok(v) => webp_encoded(rgba@, width, height) == Ok::<Seq<u8>, Seq<char>>(v@),
            Err(e) => webp_encoded(rgba@, width, height) == Err::<Seq<u8>, Seq<char>>(e@),
        },
        r matches Ok(v) ==> webp_container(v@),
        r is Ok <==> (1 <= width <= 16384 && 1 <= height <= 16384),
{
    let mut buffer = std::io::Cursor::new(Vec::new());
    let result = image::write_buffer_with_format(
        &mut buffer,
        rgba,
        width,
        height,
        image::ExtendedColorType::Rgba8,
        image::ImageFormat::WebP,
    );
    match result {
        Ok(()) => Ok(buffer.into_inner()),
        Err(e) => Err(e.to_string()),
    }
}

/// What `encode_webp_to_vec` gives: the lossless WebP of the image, the
/// encoder's error, or a dimensions error when `data` is too short.
pub open spec fn webp_result_matches(r: Result<Vec<u8>, GarshotError>, data: Seq<u8>, width: u32, height: u32) -> bool {
    if width * height * 4 > data.len() {
        r matches Err(GarshotError::EncodeError(m)) && m@ == invalid_dimensions_message()
    } else {
        match webp_encoded(data.take(width * height * 4), width, height) {
            Ok(b) => r matches Ok(v) && v@ == b,
            Err(e) => r matches Err(GarshotError::EncodeError(m)) && m@ == e,
        }
    }
}

/// Encode RGBA image data to lossless WebP bytes; `quality` is not used.
pub fn encode_webp_to_vec(data: &[u8], width: u32, height: u32, quality: u8) -> (r: Result<Vec<u8>, GarshotError>)
    ensures
        webp_result_matches(r, data@, width, height),
        r is Ok <==> (width * height * 4 <= data@.len() && 1 <= width <= 16384 && 1 <= height <= 16384),
        r matches Ok(v) ==> webp_container(v@),
{
    match image_prefix(data, width, height) {
        Some(pixels) => match webp_encode_rgba(pixels, width, height) {
            Ok(v) => Ok(v),
            Err(e) => Err(GarshotError::EncodeError(e)),
        },
        None => Err(invalid_dimensions()),
    }
}

} // verus!
