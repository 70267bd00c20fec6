//! Screen images of instruments: safety limits, decoding and previews.
use vstd::prelude::*;
use vstd::string::*;

use crate::text;

verus! {

// ---------------------------------------------------------------------------
// Decoding
// ---------------------------------------------------------------------------

/// A decoded image: four bytes per pixel, row by row.
pub struct DecodedImage {
    pub width: u32,
    pub height: u32,
    pub rgba: Vec<u8>,
}

/// Model of [`DecodedImage`].
pub struct ImageView {
    pub width: u32,
    pub height: u32,
    pub rgba: Seq<u8>,
}

impl View for DecodedImage {
    type V = ImageView;

    open spec fn view(&self) -> ImageView {
        ImageView { width: self.width, height: self.height, rgba: self.rgba@ }
    }
}

/// What `image::load_from_memory` makes of encoded bytes, as width, height and RGBA bytes, or
/// the text of its error.
pub uninterp spec fn decoded_image(bytes: Seq<u8>) -> Result<(u32, u32, Seq<u8>), Seq<char>>;

/// The RGBA bytes that `image::imageops::thumbnail` makes of an RGBA image.
pub uninterp spec fn thumbnail_rgba(
    width: u32,
    height: u32,
    rgba: Seq<u8>,
    new_width: u32,
    new_height: u32,
) -> Seq<u8>;

/// The RGBA bytes that `image::DynamicImage::resize_exact` with the filter `Lanczos3` makes of
/// an encoded image; none where the image cannot be decoded.
pub uninterp spec fn resized_rgba(bytes: Seq<u8>, new_width: u32, new_height: u32) -> Option<
    Seq<u8>,
>;

/// Calls `image::load_from_memory` and turns the image into RGBA bytes. The result is the one
/// that the bytes determine; a decoded image has at least four bytes for each of its pixels. The
/// decoder refuses an image that takes more than 512 MiB, at a byte for each pixel at least, so
/// no decoded image has more pixels than that.
#[verifier::external_body]
pub(crate) fn decode_image(bytes: &Vec<u8>) -> (r: Result<DecodedImage, String>)
    ensures
        match r {
            Ok(image) => decoded_image(bytes@) == Ok::<(u32, u32, Seq<u8>), Seq<char>>(
                (image.width, image.height, image.rgba@),
            ) && image.rgba@.len() >= 4 * image.width * image.height && image.width * image.height
                <= MAX_DECODED_PIXELS,
            Err(message) => decoded_image(bytes@) == Err::<(u32, u32, Seq<u8>), Seq<char>>(
                message@,
            ),
        },
{
    match image::load_from_memory(bytes) {
        Ok(image) => {
            let rgba = image.into_rgba8();
            let (width, height) = rgba.dimensions();
            Ok(DecodedImage { width, height, rgba: rgba.into_raw() })
        },
        Err(e) => Err(e.to_string()),
    }
}

/// The most pixels that a decoded image has.
pub const MAX_DECODED_PIXELS: u64 = 0x2000_0000;

/// The longest edge whose places are exact in single precision.
pub const EXACT_EDGE: u32 = 0x100_0000;

/// The most pixels of an image that may be summed up for one pixel of a thumbnail: a sum of
/// more bytes, each 255 at most, might not fit in 32 bits.
pub const MAX_BLOCK_PIXELS: u64 = 16_000_000;

/// More than the pixels of an edge that fall to one pixel of the new edge. The places are
/// computed in single precision, which is coarse for very long edges.
pub open spec fn block_edge(long: int, new: int) -> int {
    long / new + if long <= EXACT_EDGE {
        4int
    } else {
        600int
    }
}

/// Whether every pixel of the new edge covers a whole pixel of the old one in single precision.
pub open spec fn edge_is_exact(long: int, new: int) -> bool {
    new <= long && (long <= EXACT_EDGE || long / new >= 1024)
}

/// Whether an image can be scaled to a size without a sum that overflows: the blocks of pixels
/// that are summed up are small enough. An image without pixels gives an image without colour,
/// which only has to fit in memory.
pub open spec fn thumbnail_is_safe(width: int, height: int, new_width: int, new_height: int) -> bool {
    if width == 0 || height == 0 || new_width == 0 || new_height == 0 {
        4 * new_width * new_height <= 0x7fff_ffff
    } else {
        &&& edge_is_exact(width, new_width)
        &&& edge_is_exact(height, new_height)
        &&& block_edge(width, new_width) * block_edge(height, new_height) <= MAX_BLOCK_PIXELS
    }
}

/// Calls `image::imageops::thumbnail`. The bytes are the ones that the image and the new size
/// determine, four for each pixel of the new size. The function sums up bytes in 32 bits, so the
/// image may not have too many pixels for one pixel of the new size.
#[verifier::external_body]
fn thumbnail(image: &DecodedImage, new_width: u32, new_height: u32) -> (r: Vec<u8>)
    requires
        image.rgba@.len() >= 4 * image.width * image.height,
        thumbnail_is_safe(
            image.width as int,
            image.height as int,
            new_width as int,
            new_height as int,
        ),
    ensures
        r@ == thumbnail_rgba(image.width, image.height, image.rgba@, new_width, new_height),
        r@.len() == 4 * new_width * new_height,
{
    let rgba = image::RgbaImage::from_raw(image.width, image.height, image.rgba.clone());
    image::imageops::thumbnail(&rgba.unwrap(), new_width, new_height).into_raw()
}

/// Calls `image::DynamicImage::resize_exact` with the filter `Lanczos3` on an encoded image.
/// The decoded image is scaled in its own kind of colour and turned into RGBA bytes only then, so
/// decoding and scaling stand here together.
/// The bytes are the ones that the encoded image and the new size determine, four for each pixel
/// of the new size; there are some exactly where the image can be decoded.
#[verifier::external_body]
fn resize_exact(bytes: &Vec<u8>, new_width: u32, new_height: u32) -> (r: Option<Vec<u8>>)
    requires
        new_width > 0,
        new_height > 0,
        4 * new_width * new_height <= 0x7fff_ffff,
    ensures
        r is Some <==> decoded_image(bytes@) is Ok,
        match r {
            Some(rgba) => resized_rgba(bytes@, new_width, new_height) == Some(rgba@)
                && rgba@.len() == 4 * new_width * new_height,
            None => resized_rgba(bytes@, new_width, new_height) is None,
        },
{
    let image = image::load_from_memory(bytes).ok()?;
    let filter = image::imageops::FilterType::Lanczos3;
    Some(image.resize_exact(new_width, new_height, filter).to_rgba8().into_raw())
}

// ---------------------------------------------------------------------------
// Safety limits
// ---------------------------------------------------------------------------

/// The largest screenshot in bytes.
pub const MAX_SCREENSHOT_BYTES: usize = 33_554_432;

/// The largest screenshot in pixels.
pub const MAX_SCREENSHOT_PIXELS: u64 = 64_000_000;

/// The largest screenshot that is not a PNG, in bytes.
pub const MAX_OTHER_BYTES: usize = 8_388_608;

/// The bytes that a PNG begins with.
pub open spec fn png_signature() -> Seq<u8> {
    seq![0x89u8, 0x50u8, 0x4eu8, 0x47u8, 0x0du8, 0x0au8, 0x1au8, 0x0au8]
}

/// The name of the first chunk of a PNG.
pub open spec fn header_name() -> Seq<u8> {
    seq![0x49u8, 0x48u8, 0x44u8, 0x52u8]
}

/// The number in the four bytes from `at` on, highest byte first.
pub open spec fn big_endian(bytes: Seq<u8>, at: int) -> int {
    ((bytes[at] * 256 + bytes[at + 1]) * 256 + bytes[at + 2]) * 256 + bytes[at + 3]
}

/// Whether bytes begin like a PNG: signature, header name and both dimensions.
pub open spec fn has_png_header(bytes: Seq<u8>) -> bool {
    &&& bytes.len() >= 24
    &&& bytes.subrange(0, 8) == png_signature()
    &&& bytes.subrange(12, 16) == header_name()
}

fn number_at(bytes: &Vec<u8>, at: usize) -> (r: u32)
    requires
        at + 4 <= bytes.len(),
    ensures
        r == big_endian(bytes@, at as int),
{
    let high: u32 = bytes[at] as u32 * 256 + bytes[at + 1] as u32;
    let low: u32 = bytes[at + 2] as u32 * 256 + bytes[at + 3] as u32;
    high * 65536 + low
}

fn signature_matches(bytes: &Vec<u8>) -> (r: bool)
    requires
        bytes@.len() >= 24,
    ensures
        r == (bytes@.subrange(0, 8) == png_signature()),
{
    let r: bool = bytes[0] == 0x89 && bytes[1] == 0x50 && bytes[2] == 0x4e && bytes[3] == 0x47
        && bytes[4] == 0x0d && bytes[5] == 0x0a && bytes[6] == 0x1a && bytes[7] == 0x0a;
    proof {
        let head = bytes@.subrange(0, 8);
        if r {
            assert(head =~= png_signature());
        } else {
            assert(head[0] == bytes@[0] && head[1] == bytes@[1] && head[2] == bytes@[2] && head[3]
                == bytes@[3]);
            assert(head[4] == bytes@[4] && head[5] == bytes@[5] && head[6] == bytes@[6] && head[7]
                == bytes@[7]);
        }
    }
    r
}

fn header_matches(bytes: &Vec<u8>) -> (r: bool)
    requires
        bytes@.len() >= 24,
    ensures
        r == (bytes@.subrange(12, 16) == header_name()),
{
    let r: bool = bytes[12] == 0x49 && bytes[13] == 0x48 && bytes[14] == 0x44 && bytes[15] == 0x52;
    proof {
        let name = bytes@.subrange(12, 16);
        if r {
            assert(name =~= header_name());
        } else {
            assert(name[0] == bytes@[12] && name[1] == bytes@[13] && name[2] == bytes@[14]
                && name[3] == bytes@[15]);
        }
    }
    r
}

/// Width and height by the header of a PNG; none for other bytes.
pub fn png_ihdr_dimensions(png: &Vec<u8>) -> (r: Option<(u32, u32)>)
    ensures
        r is Some <==> has_png_header(png@),
        r matches Some(d) ==> d.0 == big_endian(png@, 16) && d.1 == big_endian(png@, 20),
{
    if png.len() < 24 || !signature_matches(png) || !header_matches(png) {
        return None;
    }
    Some((number_at(png, 16), number_at(png, 20)))
}

/// Why a screenshot is not shown.
pub enum ScreenshotError {
    TooManyBytes,
    Dimensions { width: u32, height: u32 },
    NotPng,
    Decode(String),
}

/// The text of an error.
pub open spec fn error_text(e: ScreenshotError) -> Seq<char> {
    match e {
        ScreenshotError::TooManyBytes => "PNG exceeds 32 MiB limit"@,
        ScreenshotError::Dimensions { width, height } => "PNG dimensions "@ + text::decimal(
            width as nat,
        ) + "x"@ + text::decimal(height as nat) + " exceed safety limit"@,
        ScreenshotError::NotPng => "screenshot payload is not a PNG and exceeds 8 MiB"@,
        ScreenshotError::Decode(message) => message@,
    }
}

impl ScreenshotError {
    /// The text of the error.
    pub fn message(&self) -> (r: String)
        ensures
            r@ == error_text(*self),
    {
        match self {
            ScreenshotError::TooManyBytes => "PNG exceeds 32 MiB limit".to_owned(),
            ScreenshotError::Dimensions { width, height } => {
                let w = text::decimal_text(*width as u64);
                let h = text::decimal_text(*height as u64);
                let mut r = text::join3("PNG dimensions ", w.as_str(), "x");
                r.append(h.as_str());
                r.append(" exceed safety limit");
                r
            },
            ScreenshotError::NotPng => "screenshot payload is not a PNG and exceeds 8 MiB".to_owned(),
            ScreenshotError::Decode(message) => message.clone(),
        }
    }
}

/// Whether bytes are within the limits, so that they are decoded.
pub open spec fn within_limits(png: Seq<u8>) -> bool {
    &&& png.len() <= MAX_SCREENSHOT_BYTES
    &&& if has_png_header(png) {
        0 < big_endian(png, 16) * big_endian(png, 20) <= MAX_SCREENSHOT_PIXELS
    } else {
        png.len() <= MAX_OTHER_BYTES
    }
}

/// Tests bytes against the limits, before they are decoded.
pub fn check_screenshot(png: &Vec<u8>) -> (r: Result<(), ScreenshotError>)
    ensures
        r is Ok <==> within_limits(png@),
        match r {
            Ok(_) => true,
            Err(ScreenshotError::TooManyBytes) => png@.len() > MAX_SCREENSHOT_BYTES,
            Err(ScreenshotError::Dimensions { width, height }) => png@.len()
                <= MAX_SCREENSHOT_BYTES && has_png_header(png@) && width == big_endian(png@, 16)
                && height == big_endian(png@, 20),
            Err(ScreenshotError::NotPng) => png@.len() <= MAX_SCREENSHOT_BYTES && !has_png_header(
                png@,
            ),
            Err(ScreenshotError::Decode(_)) => false,
        },
{
    if png.len() > MAX_SCREENSHOT_BYTES {
        return Err(ScreenshotError::TooManyBytes);
    }
    match png_ihdr_dimensions(png) {
        Some((width, height)) => {
            let w: u64 = width as u64;
            let h: u64 = height as u64;
            assert(w * h <= u32::MAX * u32::MAX) by (nonlinear_arith)
                requires
                    w <= u32::MAX,
                    h <= u32::MAX,
            ;
            let pixels: u64 = w * h;
            if pixels == 0 || pixels > MAX_SCREENSHOT_PIXELS {
                return Err(ScreenshotError::Dimensions { width, height });
            }
        },
        None => {
            if png.len() > MAX_OTHER_BYTES {
                return Err(ScreenshotError::NotPng);
            }
        },
    }
    Ok(())
}

// ---------------------------------------------------------------------------
// Previews
// ---------------------------------------------------------------------------

/// The shorter edge of a preview whose longer edge is `max_edge`: in proportion, at least 1.
pub open spec fn short_edge(max_edge: int, long: int, short: int) -> int {
    if max_edge * short / long >= 1 {
        max_edge * short / long
    } else {
        1
    }
}

/// The size of a preview; none for an image that is small enough as it is.
pub open spec fn preview_dimensions(width: int, height: int, max_edge: int) -> Option<(int, int)> {
    if width <= max_edge && height <= max_edge {
        None
    } else if width >= height {
        Some((max_edge, short_edge(max_edge, width, height)))
    } else {
        Some((short_edge(max_edge, height, width), max_edge))
    }
}

fn scaled_edge(max_edge: u32, long: u32, short: u32) -> (r: u32)
    requires
        short <= long,
        max_edge < long,
    ensures
        r == short_edge(max_edge as int, long as int, short as int),
        short > 0 ==> r <= short,
        r <= max_edge || r == 1,
{
    let m: u64 = max_edge as u64;
    let s: u64 = short as u64;
    let l: u64 = long as u64;
    assert(m * s <= u32::MAX * u32::MAX) by (nonlinear_arith)
        requires
            m <= u32::MAX,
            s <= u32::MAX,
    ;
    let edge: u64 = m * s / l;
    assert(m * s / (l as int) <= s) by (nonlinear_arith)
        requires
            m < l,
            l > 0,
    ;
    assert(m * s / (l as int) <= m) by (nonlinear_arith)
        requires
            s <= l,
            l > 0,
    ;
    if edge >= 1 {
        edge as u32
    } else {
        1
    }
}

/// The size of a preview of an image; none for an image that is small enough as it is.
pub fn preview_size(width: u32, height: u32, max_edge: u32) -> (r: Option<(u32, u32)>)
    ensures
        match r {
            Some(d) => preview_dimensions(width as int, height as int, max_edge as int) == Some(
                (d.0 as int, d.1 as int),
            ),
            None => preview_dimensions(width as int, height as int, max_edge as int) is None,
        },
{
    if width <= max_edge && height <= max_edge {
        return None;
    }
    if width >= height {
        Some((max_edge, scaled_edge(max_edge, width, height)))
    } else {
        Some((scaled_edge(max_edge, height, width), max_edge))
    }
}

/// Law: no edge of a preview is longer than the limit, and no edge is lost.
pub proof fn law_preview_fits(width: int, height: int, max_edge: int)
    requires
        0 < width,
        0 < height,
        0 < max_edge,
    ensures
        match preview_dimensions(width, height, max_edge) {
            Some(d) => 1 <= d.0 <= max_edge && 1 <= d.1 <= max_edge && d.0 <= width && d.1
                <= height,
            None => width <= max_edge && height <= max_edge,
        },
{
    if width > max_edge || height > max_edge {
        let long = if width >= height {
            width
        } else {
            height
        };
        let short = if width >= height {
            height
        } else {
            width
        };
        assert(max_edge * short / long <= max_edge) by (nonlinear_arith)
            requires
                0 < short <= long,
                0 < max_edge,
        ;
        assert(max_edge * short / long <= short) by (nonlinear_arith)
            requires
                0 < max_edge < long,
                0 < short,
        ;
    }
}

/// What is shown of a decoded image.
pub open spec fn preview_of(image: (u32, u32, Seq<u8>), max_edge: u32) -> ImageView {
    match preview_dimensions(image.0 as int, image.1 as int, max_edge as int) {
        Some(d) => ImageView {
            width: d.0 as u32,
            height: d.1 as u32,
            rgba: thumbnail_rgba(image.0, image.1, image.2, d.0 as u32, d.1 as u32),
        },
        None => ImageView { width: image.0, height: image.1, rgba: image.2 },
    }
}

/// Whether an image can be scaled down for a preview.
pub open spec fn preview_is_safe(width: int, height: int, max_edge: int) -> bool {
    match preview_dimensions(width, height, max_edge) {
        Some(d) => thumbnail_is_safe(width, height, d.0, d.1),
        None => true,
    }
}

fn edge_exact(long: u32, new: u32) -> (r: bool)
    requires
        new > 0,
    ensures
        r == edge_is_exact(long as int, new as int),
{
    new <= long && (long <= EXACT_EDGE || long / new >= 1024)
}

fn block_of(long: u32, new: u32) -> (r: u64)
    requires
        new > 0,
    ensures
        r == block_edge(long as int, new as int),
        r >= 4,
{
    let slack: u64 = if long <= EXACT_EDGE {
        4
    } else {
        600
    };
    (long / new) as u64 + slack
}

/// Tells whether an image can be scaled down for a preview.
pub fn can_scale_preview(width: u32, height: u32, max_edge: u32) -> (r: bool)
    ensures
        r == preview_is_safe(width as int, height as int, max_edge as int),
{
    let (w, h): (u32, u32) = match preview_size(width, height, max_edge) {
        Some(d) => d,
        None => {
            return true;
        },
    };
    if width == 0 || height == 0 || w == 0 || h == 0 {
        assert(4 * w * h <= 4 * u32::MAX * u32::MAX) by (nonlinear_arith)
            requires
                w <= u32::MAX,
                h <= u32::MAX,
        ;
        return (4 * w as u128 * h as u128) <= 0x7fff_ffff;
    }
    if !edge_exact(width, w) || !edge_exact(height, h) {
        return false;
    }
    let a: u64 = block_of(width, w);
    let b: u64 = block_of(height, h);
    if a > MAX_BLOCK_PIXELS || b > MAX_BLOCK_PIXELS {
        assert(a * b > MAX_BLOCK_PIXELS) by (nonlinear_arith)
            requires
                a >= 4,
                b >= 4,
                a > MAX_BLOCK_PIXELS || b > MAX_BLOCK_PIXELS,
        ;
        return false;
    }
    assert(a * b <= 16_000_000 * 16_000_000) by (nonlinear_arith)
        requires
            a <= 16_000_000,
            b <= 16_000_000,
    ;
    a * b <= MAX_BLOCK_PIXELS
}

/// The shortest edge of a preview that every decoded image can be scaled to; the longest one is
/// [`SAFE_EDGE_TO`].
pub const SAFE_EDGE_FROM: u32 = 1024;

/// The longest edge of a preview that every decoded image can be scaled to.
pub const SAFE_EDGE_TO: u32 = 16_384;

proof fn lemma_safe_for_long_edge(e: int, long: int, short: int)
    requires
        SAFE_EDGE_FROM <= e <= SAFE_EDGE_TO,
        0 < short <= long <= u32::MAX,
        e < long,
        long * short <= MAX_DECODED_PIXELS,
    ensures
        edge_is_exact(long, e),
        edge_is_exact(short, short_edge(e, long, short)),
        block_edge(long, e) * block_edge(short, short_edge(e, long, short)) <= MAX_BLOCK_PIXELS,
        block_edge(short, short_edge(e, long, short)) * block_edge(long, e) <= MAX_BLOCK_PIXELS,
{
    let n = short_edge(e, long, short);
    assert(e * short / long <= short) by (nonlinear_arith)
        requires
            0 < e < long,
            0 < short,
    ;
    assert(short <= 23_171) by (nonlinear_arith)
        requires
            0 < short <= long,
            long * short <= 0x2000_0000,
    ;
    assert(long <= 0x2000_0000) by (nonlinear_arith)
        requires
            0 < short,
            0 < long,
            long * short <= 0x2000_0000,
    ;
    assert(long > EXACT_EDGE ==> short <= 32) by (nonlinear_arith)
        requires
            0 < short,
            long * short <= 0x2000_0000,
    ;
    assert(long > EXACT_EDGE ==> long / e >= 1024) by (nonlinear_arith)
        requires
            0 < e <= 16_384,
    ;
    assert(short / n <= short) by (nonlinear_arith)
        requires
            short > 0,
            n >= 1,
    ;
    let q = long / e;
    assert(q * e <= long) by (nonlinear_arith)
        requires
            e > 0,
            q == long / e,
            long > 0,
    ;
    assert(q * short <= 524_288) by (nonlinear_arith)
        requires
            q * e <= long,
            e >= 1024,
            q >= 0,
            short > 0,
            long * short <= 0x2000_0000,
    ;
    assert(q <= 524_288) by (nonlinear_arith)
        requires
            q * e <= long,
            e >= 1024,
            q >= 0,
            long <= 0x2000_0000,
    ;
    let b = block_edge(short, n);
    let s = block_edge(long, e) - q;
    assert(b <= short + 4);
    assert((q + s) * b <= MAX_BLOCK_PIXELS) by (nonlinear_arith)
        requires
            0 <= q,
            q <= 524_288,
            q * short <= 524_288,
            0 < short <= 23_171,
            0 <= b <= short + 4,
            s == 4 || (s == 600 && short <= 32),
    {
        assert((q + s) * b <= (q + s) * (short + 4));
        assert((q + s) * (short + 4) == q * short + 4 * q + s * short + 4 * s);
        assert(s * short <= 100_000);
    }
    assert(block_edge(short, n) * block_edge(long, e) == block_edge(long, e) * block_edge(
        short,
        n,
    )) by (nonlinear_arith);
}

/// Law: every image that the decoder gives can be scaled down to a preview whose longest edge is
/// within the safe range.
pub proof fn law_safe_edges_are_safe(width: int, height: int, max_edge: int)
    requires
        0 <= width <= u32::MAX,
        0 <= height <= u32::MAX,
        width * height <= MAX_DECODED_PIXELS,
        SAFE_EDGE_FROM <= max_edge <= SAFE_EDGE_TO,
    ensures
        preview_is_safe(width, height, max_edge),
{
    if width > max_edge || height > max_edge {
        if width == 0 || height == 0 {
            assert(max_edge * 0 == 0) by (nonlinear_arith);
            let long = width + height;
            assert(0int / long == 0) by (nonlinear_arith)
                requires
                    long > 0,
            ;
            assert(short_edge(max_edge, long, 0) == 1);
            assert(4 * max_edge * 1 <= 0x7fff_ffff && 4 * 1 * max_edge <= 0x7fff_ffff);
        } else if width >= height {
            lemma_safe_for_long_edge(max_edge, width, height);
        } else {
            assert(height * width == width * height) by (nonlinear_arith);
            lemma_safe_for_long_edge(max_edge, height, width);
        }
    }
}

/// Scales a decoded image down so that no edge is longer than `max_edge`.
pub fn scale_preview(image: DecodedImage, max_edge: u32) -> (r: DecodedImage)
    requires
        image.rgba@.len() >= 4 * image.width * image.height,
        preview_is_safe(image.width as int, image.height as int, max_edge as int),
    ensures
        r@ == preview_of((image.width, image.height, image.rgba@), max_edge),
{
    if image.width <= max_edge && image.height <= max_edge {
        return image;
    }
    let (width, height): (u32, u32) = if image.width >= image.height {
        (max_edge, scaled_edge(max_edge, image.width, image.height))
    } else {
        (scaled_edge(max_edge, image.height, image.width), max_edge)
    };
    let rgba = thumbnail(&image, width, height);
    DecodedImage { width, height, rgba }
}

/// Whether `e` is why a screenshot has no preview.
pub open spec fn fails_with(png: Seq<u8>, e: ScreenshotError) -> bool {
    match e {
        ScreenshotError::Decode(message) => within_limits(png) && decoded_image(png) == Err::<
            (u32, u32, Seq<u8>),
            Seq<char>,
        >(message@),
        ScreenshotError::TooManyBytes => png.len() > MAX_SCREENSHOT_BYTES,
        ScreenshotError::Dimensions { width, height } => !within_limits(png) && png.len()
            <= MAX_SCREENSHOT_BYTES && has_png_header(png) && width == big_endian(png, 16)
            && height == big_endian(png, 20),
        ScreenshotError::NotPng => !within_limits(png) && png.len() <= MAX_SCREENSHOT_BYTES
            && !has_png_header(png),
    }
}

/// Whether the image in a screenshot can be scaled down for a preview.
pub open spec fn shot_is_safe(png: Seq<u8>, max_edge: u32) -> bool {
    match decoded_image(png) {
        Ok(image) => preview_is_safe(image.0 as int, image.1 as int, max_edge as int),
        Err(_) => true,
    }
}

/// Decodes a screenshot that is within the limits and scales it down for the preview. Outside
/// the safe range of edges it is for images that can be scaled down so far; where that is not
/// known, [`try_screenshot_preview`] asks.
pub fn prepare_screenshot_preview(png: &Vec<u8>, max_edge: u32) -> (r: Result<
    DecodedImage,
    ScreenshotError,
>)
    requires
        SAFE_EDGE_FROM <= max_edge <= SAFE_EDGE_TO || !within_limits(png@) || shot_is_safe(
            png@,
            max_edge,
        ),
    ensures
        match r {
            Ok(preview) => within_limits(png@) && decoded_image(png@) is Ok && preview@
                == preview_of(decoded_image(png@)->Ok_0, max_edge) && shot_is_safe(png@, max_edge),
            Err(e) => fails_with(png@, e),
        },
{
    match check_screenshot(png) {
        Ok(_) => {},
        Err(e) => {
            return Err(e);
        },
    }
    match decode_image(png) {
        Ok(image) => {
            proof {
                if SAFE_EDGE_FROM <= max_edge <= SAFE_EDGE_TO {
                    law_safe_edges_are_safe(
                        image.width as int,
                        image.height as int,
                        max_edge as int,
                    );
                }
            }
            Ok(scale_preview(image, max_edge))
        },
        Err(message) => Err(ScreenshotError::Decode(message)),
    }
}

/// Prepares a preview of any size: none where the image cannot be scaled down so far.
pub fn try_screenshot_preview(png: &Vec<u8>, max_edge: u32) -> (r: Option<
    Result<DecodedImage, ScreenshotError>,
>)
    ensures
        r is None <==> within_limits(png@) && !shot_is_safe(png@, max_edge),
        match r {
            Some(Ok(preview)) => within_limits(png@) && decoded_image(png@) is Ok && preview@
                == preview_of(decoded_image(png@)->Ok_0, max_edge),
            Some(Err(e)) => fails_with(png@, e),
            None => true,
        },
{
    if (max_edge < SAFE_EDGE_FROM || max_edge > SAFE_EDGE_TO) && check_screenshot(png).is_ok() {
        match decode_image(png) {
            Ok(image) => {
                if !can_scale_preview(image.width, image.height, max_edge) {
                    return None;
                }
            },
            Err(_) => {},
        }
    }
    Some(prepare_screenshot_preview(png, max_edge))
}

/// The image that the bytes of a photo give; none where they are no image.
pub fn load_photo(bytes: &Vec<u8>) -> (r: Option<DecodedImage>)
    ensures
        match r {
            Some(photo) => decoded_image(bytes@) == Ok::<(u32, u32, Seq<u8>), Seq<char>>(
                (photo.width, photo.height, photo.rgba@),
            ),
            None => decoded_image(bytes@) is Err,
        },
{
    match decode_image(bytes) {
        Ok(image) => Some(image),
        Err(_) => None,
    }
}

// ---------------------------------------------------------------------------
// The icon of the window
// ---------------------------------------------------------------------------

/// The edge of the icon of the window.
pub const ICON_EDGE: u32 = 32;

/// The icon that encoded bytes give: the image itself where it has the right size, or else the
/// image scaled to it.
pub open spec fn icon_of(bytes: Seq<u8>) -> Option<ImageView> {
    match decoded_image(bytes) {
        Ok(image) => if image.0 == ICON_EDGE && image.1 == ICON_EDGE {
            Some(ImageView { width: image.0, height: image.1, rgba: image.2 })
        } else {
            match resized_rgba(bytes, ICON_EDGE, ICON_EDGE) {
                Some(rgba) => Some(ImageView { width: ICON_EDGE, height: ICON_EDGE, rgba }),
                None => None,
            }
        },
        Err(_) => None,
    }
}

/// The icon of the window from the bytes of an image file; none where they are no image.
pub fn icon_from_bytes(bytes: &Vec<u8>) -> (r: Option<DecodedImage>)
    ensures
        match r {
            Some(icon) => icon_of(bytes@) == Some(icon@),
            None => icon_of(bytes@) is None,
        },
        r is Some <==> decoded_image(bytes@) is Ok,
        r matches Some(icon) ==> icon.width == ICON_EDGE && icon.height == ICON_EDGE
            && icon.rgba@.len() >= 4 * ICON_EDGE * ICON_EDGE,
{
    match decode_image(bytes) {
        Ok(image) => if image.width == ICON_EDGE && image.height == ICON_EDGE {
            Some(image)
        } else {
            match resize_exact(bytes, ICON_EDGE, ICON_EDGE) {
                Some(rgba) => Some(DecodedImage { width: ICON_EDGE, height: ICON_EDGE, rgba }),
                None => None,
            }
        },
        Err(_) => None,
    }
}

// ---------------------------------------------------------------------------
// What holds of screen images
// ---------------------------------------------------------------------------

/// Law: a PNG is known by its eight bytes of signature and its header chunk, which tells width
/// and height in four bytes each, the highest first.
pub proof fn law_png_is_known_by_its_header(bytes: Seq<u8>)
    ensures
        has_png_header(bytes) <==> bytes.len() >= 24 && bytes[0] == 0x89 && bytes[1] == 0x50
            && bytes[2] == 0x4e && bytes[3] == 0x47 && bytes[4] == 0x0d && bytes[5] == 0x0a
            && bytes[6] == 0x1a && bytes[7] == 0x0a && bytes[12] == 0x49 && bytes[13] == 0x48
            && bytes[14] == 0x44 && bytes[15] == 0x52,
        big_endian(bytes, 16) == 0x100_0000 * bytes[16] + 0x1_0000 * bytes[17] + 0x100 * bytes[18]
            + bytes[19],
        big_endian(bytes, 20) == 0x100_0000 * bytes[20] + 0x1_0000 * bytes[21] + 0x100 * bytes[22]
            + bytes[23],
{
    if bytes.len() >= 24 {
        let s = bytes.subrange(0, 8);
        let h = bytes.subrange(12, 16);
        if has_png_header(bytes) {
            assert(s[0] == 0x89 && s[1] == 0x50 && s[2] == 0x4e && s[3] == 0x47);
            assert(s[4] == 0x0d && s[5] == 0x0a && s[6] == 0x1a && s[7] == 0x0a);
            assert(h[0] == 0x49 && h[1] == 0x48 && h[2] == 0x44 && h[3] == 0x52);
        }
        if bytes[0] == 0x89 && bytes[1] == 0x50 && bytes[2] == 0x4e && bytes[3] == 0x47
            && bytes[4] == 0x0d && bytes[5] == 0x0a && bytes[6] == 0x1a && bytes[7] == 0x0a
            && bytes[12] == 0x49 && bytes[13] == 0x48 && bytes[14] == 0x44 && bytes[15] == 0x52 {
            assert(s =~= png_signature());
            assert(h =~= header_name());
        }
    }
}

/// Law: a screenshot is decoded up to 32 MiB; a PNG only with pixels, and no more than 64 million
/// of them; other bytes only up to 8 MiB. The first limit that is passed is the error.
pub proof fn law_large_screenshots_are_refused(png: Seq<u8>, e: ScreenshotError)
    ensures
        png.len() > 33_554_432 ==> !within_limits(png),
        png.len() <= 33_554_432 && has_png_header(png) ==> (within_limits(png) <==> 0 < big_endian(
            png,
            16,
        ) * big_endian(png, 20) <= 64_000_000),
        png.len() <= 33_554_432 && !has_png_header(png) ==> (within_limits(png) <==> png.len()
            <= 8_388_608),
        fails_with(png, e) ==> {
            &&& e is TooManyBytes <==> png.len() > 33_554_432
            &&& e is Dimensions ==> has_png_header(png)
            &&& e is NotPng ==> !has_png_header(png) && png.len() > 8_388_608
            &&& e is Decode <==> within_limits(png)
            &&& e is Dimensions ==> e->width == big_endian(png, 16) && e->height == big_endian(
                png,
                20,
            )
        },
{
}

/// Law: an error about the size names width and height in this order.
pub proof fn law_size_error_names_both_edges(width: u32, height: u32)
    ensures
        ({
            let r = error_text(ScreenshotError::Dimensions { width, height });
            let (w, h) = (text::decimal(width as nat), text::decimal(height as nat));
            &&& ("PNG dimensions "@ + w + "x"@).is_prefix_of(r)
            &&& (h + " exceed safety limit"@).is_suffix_of(r)
            &&& r.len() == 15 + w.len() + 1 + h.len() + 20
        }),
        error_text(ScreenshotError::TooManyBytes) == "PNG exceeds 32 MiB limit"@,
        error_text(ScreenshotError::NotPng) == "screenshot payload is not a PNG and exceeds 8 MiB"@,
        forall|message: String| (#[trigger] error_text(ScreenshotError::Decode(message)))
            == message@,
{
    reveal_strlit("PNG dimensions ");
    reveal_strlit("x");
    reveal_strlit(" exceed safety limit");
    let (w, h) = (text::decimal(width as nat), text::decimal(height as nat));
    let r = error_text(ScreenshotError::Dimensions { width, height });
    assert(r =~= ("PNG dimensions "@ + w + "x"@) + (h + " exceed safety limit"@));
}

/// Law: a preview has the shape of its image: its longer edge is the longer edge of the image,
/// brought to the limit, and the other is in proportion, rounded down but never to nothing. An
/// image within the limit is shown as it is.
pub proof fn law_preview_keeps_the_shape(width: int, height: int, max_edge: int)
    requires
        0 < width,
        0 < height,
        0 < max_edge,
    ensures
        width <= max_edge && height <= max_edge <==> preview_dimensions(width, height, max_edge)
            is None,
        preview_dimensions(width, height, max_edge) matches Some(d) ==> {
            &&& width >= height ==> d.0 == max_edge && (d.1 == 1 || (d.1 * width <= max_edge
                * height < (d.1 + 1) * width)) && (d.1 == 1 ==> max_edge * height < 2 * width)
            &&& width < height ==> d.1 == max_edge && (d.0 == 1 || (d.0 * height <= max_edge * width
                < (d.0 + 1) * height)) && (d.0 == 1 ==> max_edge * width < 2 * height)
        },
{
    if width >= height {
        let q = max_edge * height / width;
        vstd::arithmetic::div_mod::lemma_fundamental_div_mod(max_edge * height, width);
        vstd::arithmetic::div_mod::lemma_mod_bound(max_edge * height, width);
        assert(width * q == q * width) by (nonlinear_arith);
        assert((q + 1) * width == q * width + width) by (nonlinear_arith);
        assert(0 <= max_edge * height) by (nonlinear_arith)
            requires
                0 < max_edge,
                0 < height,
        ;
        if q < 0 {
            assert((q + 1) * width <= 0) by (nonlinear_arith)
                requires
                    q + 1 <= 0,
                    0 < width,
            ;
        }
    } else {
        let q = max_edge * width / height;
        vstd::arithmetic::div_mod::lemma_fundamental_div_mod(max_edge * width, height);
        vstd::arithmetic::div_mod::lemma_mod_bound(max_edge * width, height);
        assert(height * q == q * height) by (nonlinear_arith);
        assert((q + 1) * height == q * height + height) by (nonlinear_arith);
        assert(0 <= max_edge * width) by (nonlinear_arith)
            requires
                0 < max_edge,
                0 < width,
        ;
        if q < 0 {
            assert((q + 1) * height <= 0) by (nonlinear_arith)
                requires
                    q + 1 <= 0,
                    0 < height,
            ;
        }
    }
}

/// Law: what is shown of an image is the image itself within the limit, and else its thumbnail in
/// the size of the preview.
pub proof fn law_small_image_is_shown_as_it_is(image: (u32, u32, Seq<u8>), max_edge: u32)
    ensures
        image.0 <= max_edge && image.1 <= max_edge ==> preview_of(image, max_edge) == (ImageView {
            width: image.0,
            height: image.1,
            rgba: image.2,
        }),
        image.0 > max_edge && image.0 >= image.1 && image.1 > 0 && max_edge > 0 ==> ({
            let p = preview_of(image, max_edge);
            p.width == max_edge && p.rgba == thumbnail_rgba(
                image.0,
                image.1,
                image.2,
                p.width,
                p.height,
            )
        }),
        image.1 > max_edge && image.0 < image.1 && image.0 > 0 && max_edge > 0 ==> ({
            let p = preview_of(image, max_edge);
            p.height == max_edge && p.rgba == thumbnail_rgba(
                image.0,
                image.1,
                image.2,
                p.width,
                p.height,
            )
        }),
{
}

/// Law: an icon has 32 pixels on each edge; an image of that size is taken as it is, any other is
/// scaled to it.
pub proof fn law_icon_has_its_size(bytes: Seq<u8>)
    ensures
        icon_of(bytes) matches Some(icon) ==> icon.width == 32 && icon.height == 32,
        decoded_image(bytes) matches Ok(image) ==> (image.0 == 32 && image.1 == 32 ==> icon_of(
            bytes,
        ) is Some && icon_of(bytes)->0.rgba == image.2) && (image.0 != 32 || image.1 != 32 ==> (
        icon_of(bytes) matches Some(icon) ==> resized_rgba(bytes, 32, 32) == Some(icon.rgba))),
        decoded_image(bytes) is Err ==> icon_of(bytes) is None,
{
}

} // verus!
