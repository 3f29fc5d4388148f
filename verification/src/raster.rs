//! The raster asset pipeline: decoding embedded JPEG and PNG data
//! through their decoder crates, and normalizing the decoded pixels to
//! a buffer format the rasterizer supports. The decoding itself is
//! trusted to the decoder crates; everything around it — size
//! validation, channel expansion, the per-format policy for
//! unsupported subformats — is verified.

use vstd::prelude::*;

use crate::backend::BufFormat;
use crate::backend::RenderError;

verus! {

/// The pixel format of a decoded JPEG image.
#[derive(Debug, Clone, Copy, PartialEq, Eq, Structural)]
pub enum JpegFormat {
    /// 8-bit grayscale.
    L8,
    /// 16-bit grayscale (recognized, not rendered: zero-filled).
    L16,
    /// 8-bit-per-channel RGB.
    Rgb24,
    /// 8-bit-per-channel CMYK (recognized, not rendered: zero-filled).
    Cmyk32,
}

/// The metadata of a JPEG image.
#[derive(Debug, Clone, Copy, PartialEq, Eq, Structural)]
pub struct JpegInfo {
    pub width: u16,
    pub height: u16,
    pub format: JpegFormat,
}

/// The color type of a PNG image, before any output transformation.
#[derive(Debug, Clone, Copy, PartialEq, Eq, Structural)]
pub enum PngColor {
    Grayscale,
    Rgb,
    Indexed,
    GrayscaleAlpha,
    Rgba,
}

/// The metadata of a PNG image: its header fields and the byte size of
/// a decoded frame.
#[derive(Debug, Clone, Copy, PartialEq, Eq, Structural)]
pub struct PngInfo {
    pub width: u32,
    pub height: u32,
    pub color: PngColor,
    /// Whether the bit depth is sixteen bits per sample.
    pub bit16: bool,
    pub buf_size: usize,
}

/// What reading a JPEG header returns for given bytes: the decoder is a
/// function of its input alone.
pub uninterp spec fn jpeg_info_of(data: Seq<u8>) -> Option<JpegInfo>;

/// What decoding a JPEG returns for given bytes.
pub uninterp spec fn jpeg_pixels_of(data: Seq<u8>) -> Option<Seq<u8>>;

/// What reading a PNG header returns for given bytes.
pub uninterp spec fn png_info_of(data: Seq<u8>) -> Option<PngInfo>;

/// What decoding one PNG frame returns for given bytes: the frame's
/// output width and height and the decoded bytes.
pub uninterp spec fn png_pixels_of(data: Seq<u8>) -> Option<(u32, u32, Seq<u8>)>;

/// Relies on jpeg_decoder's `Decoder::read_info` and `Decoder::info`:
/// reads the image's width, height and pixel format without decoding.
#[verifier::external_body]
pub fn jpeg_read_info(data: &Vec<u8>) -> (r: Option<JpegInfo>)
    ensures
        r == jpeg_info_of(data@),
{
    let mut dec = jpeg_decoder::Decoder::new(std::io::Cursor::new(data.as_slice()));
    if dec.read_info().is_err() {
        return None;
    }
    let info = dec.info()?;
    let format = match info.pixel_format {
        jpeg_decoder::PixelFormat::L8 => JpegFormat::L8,
        jpeg_decoder::PixelFormat::L16 => JpegFormat::L16,
        jpeg_decoder::PixelFormat::RGB24 => JpegFormat::Rgb24,
        jpeg_decoder::PixelFormat::CMYK32 => JpegFormat::Cmyk32,
    };
    Some(JpegInfo { width: info.width, height: info.height, format })
}

/// Relies on jpeg_decoder's `Decoder::decode`: decodes the image into
/// its raw pixel bytes.
#[verifier::external_body]
pub fn jpeg_decode_pixels(data: &Vec<u8>) -> (r: Option<Vec<u8>>)
    ensures
        match r {
            Some(v) => jpeg_pixels_of(data@) == Some(v@),
            None => jpeg_pixels_of(data@) is None,
        },
{
    let mut dec = jpeg_decoder::Decoder::new(std::io::Cursor::new(data.as_slice()));
    dec.decode().ok()
}

/// Relies on the png crate's `Decoder::read_info`, `Reader::info` and
/// `Reader::output_buffer_size`: reads the header fields and the byte
/// size of a decoded frame.
#[verifier::external_body]
pub fn png_read_info(data: &Vec<u8>) -> (r: Option<PngInfo>)
    ensures
        r == png_info_of(data@),
{
    let reader = png::Decoder::new(std::io::Cursor::new(data.as_slice())).read_info().ok()?;
    let info = reader.info();
    let color = match info.color_type {
        png::ColorType::Grayscale => PngColor::Grayscale,
        png::ColorType::Rgb => PngColor::Rgb,
        png::ColorType::Indexed => PngColor::Indexed,
        png::ColorType::GrayscaleAlpha => PngColor::GrayscaleAlpha,
        png::ColorType::Rgba => PngColor::Rgba,
    };
    let bit16 = info.bit_depth == png::BitDepth::Sixteen;
    let (width, height) = (info.width, info.height);
    let buf_size = reader.output_buffer_size()?;
    Some(PngInfo { width, height, color, bit16, buf_size })
}

/// Relies on the png crate's `Reader::next_frame`: decodes the first
/// frame into a buffer of the reported output size and returns the
/// frame's output width and height with the bytes.
#[verifier::external_body]
pub fn png_decode_pixels(data: &Vec<u8>) -> (r: Option<(u32, u32, Vec<u8>)>)
    ensures
        match r {
            Some(p) => png_pixels_of(data@) == Some((p.0, p.1, p.2@)),
            None => png_pixels_of(data@) is None,
        },
{
    let mut reader = png::Decoder::new(std::io::Cursor::new(data.as_slice())).read_info().ok()?;
    let mut buf = vec![0u8; reader.output_buffer_size()?];
    let out = reader.next_frame(&mut buf).ok()?;
    Some((out.width, out.height, buf))
}

/// Expands 24-bit RGB pixels to 32-bit RGBA: each complete source
/// triple becomes four destination bytes, the three channels preserved
/// in order and an opaque alpha of 255 appended; bytes of the
/// destination beyond the converted prefix keep their old values.
pub fn convert_rgb24_to_rgb32(src: &Vec<u8>, dst: &mut Vec<u8>)
    requires
        (old(dst)@.len() as int) / 4 >= (src@.len() as int) / 3,
    ensures
        final(dst)@.len() == old(dst)@.len(),
        forall|k: int|
            0 <= k < src@.len() / 3 ==> {
                &&& #[trigger] final(dst)@[4 * k] == src@[3 * k]
                &&& final(dst)@[4 * k + 1] == src@[3 * k + 1]
                &&& final(dst)@[4 * k + 2] == src@[3 * k + 2]
                &&& final(dst)@[4 * k + 3] == 255
            },
        forall|i: int|
            4 * (src@.len() / 3) <= i < final(dst)@.len() ==> final(dst)@[i] == old(dst)@[i],
{
    let triples: usize = src.len() / 3;
    let mut k: usize = 0;
    while k < triples
        invariant
            triples == src@.len() / 3,
            (dst@.len() as int) / 4 >= triples,
            0 <= k <= triples,
            dst@.len() == old(dst)@.len(),
            forall|j: int|
                0 <= j < k ==> {
                    &&& #[trigger] dst@[4 * j] == src@[3 * j]
                    &&& dst@[4 * j + 1] == src@[3 * j + 1]
                    &&& dst@[4 * j + 2] == src@[3 * j + 2]
                    &&& dst@[4 * j + 3] == 255
                },
            forall|i: int| 4 * (k as int) <= i < dst@.len() ==> dst@[i] == old(dst)@[i],
        decreases triples - k,
    {
        proof {
            assert(src@.len() == src.len());
            assert(dst@.len() == dst.len());
            vstd::arithmetic::div_mod::lemma_remainder(src@.len() as int, 3);
            vstd::arithmetic::div_mod::lemma_remainder(dst@.len() as int, 4);
            vstd::arithmetic::mul::lemma_mul_inequality(
                k as int + 1,
                (src@.len() as int) / 3,
                3,
            );
            vstd::arithmetic::mul::lemma_mul_inequality(
                k as int + 1,
                (dst@.len() as int) / 4,
                4,
            );
            assert(3 * (k as int) + 2 < src@.len());
            assert(4 * (k as int) + 3 < dst@.len());
        }
        let b0 = src[3 * k];
        let b1 = src[3 * k + 1];
        let b2 = src[3 * k + 2];
        dst[4 * k] = b0;
        dst[4 * k + 1] = b1;
        dst[4 * k + 2] = b2;
        dst[4 * k + 3] = 255;
        k = k + 1;
    }
}

/// How normalization turned decoded pixels into buffer contents.
pub open spec fn jpeg_normalized(
    r: Result<Vec<u8>, RenderError>,
    format: JpegFormat,
    pixels: Seq<u8>,
    buf_size: nat,
) -> bool {
    match format {
        JpegFormat::L8 => match r {
            Ok(out) => pixels.len() == buf_size && out@ == pixels,
            Err(e) => pixels.len() != buf_size && e == RenderError::MalformedInput,
        },
        JpegFormat::L16 => match r {
            Ok(out) => zero_filled(out@, buf_size),
            Err(_) => false,
        },
        JpegFormat::Cmyk32 => match r {
            Ok(out) => zero_filled(out@, buf_size),
            Err(_) => false,
        },
        JpegFormat::Rgb24 => match r {
            Ok(out) => {
                &&& pixels.len() * 4 == buf_size * 3
                &&& out@.len() == buf_size
                &&& rgb_expanded(pixels, out@)
            },
            Err(e) => pixels.len() * 4 != buf_size * 3 && e == RenderError::MalformedInput,
        },
    }
}

/// A buffer of the given size holding only zero bytes.
pub open spec fn zero_filled(out: Seq<u8>, size: nat) -> bool {
    out.len() == size && forall|i: int| 0 <= i < out.len() ==> out[i] == 0
}

/// Every destination quadruple holds the source triple's channels in
/// order, followed by an opaque alpha byte.
pub open spec fn rgb_expanded(src: Seq<u8>, dst: Seq<u8>) -> bool {
    forall|k: int|
        0 <= k < src.len() / 3 ==> {
            &&& #[trigger] dst[4 * k] == src[3 * k]
            &&& dst[4 * k + 1] == src[3 * k + 1]
            &&& dst[4 * k + 2] == src[3 * k + 2]
            &&& dst[4 * k + 3] == 255
        }
}

/// Normalizes decoded JPEG pixels to the transient buffer's contents:
/// 8-bit grayscale is copied through after a size check, RGB is
/// expanded to RGBA with opaque alpha, and the recognized-unsupported
/// 16-bit grayscale and CMYK subformats consistently zero-fill the
/// buffer, so nothing of them is ever drawn.
pub fn normalize_jpeg(format: JpegFormat, pixels: &Vec<u8>, buf_size: usize) -> (r: Result<
    Vec<u8>,
    RenderError,
>)
    ensures
        jpeg_normalized(r, format, pixels@, buf_size as nat),
{
    match format {
        JpegFormat::L8 => {
            if pixels.len() == buf_size {
                Ok(pixels.clone())
            } else {
                Err(RenderError::MalformedInput)
            }
        },
        JpegFormat::L16 => Ok(zero_buffer(buf_size)),
        JpegFormat::Cmyk32 => Ok(zero_buffer(buf_size)),
        JpegFormat::Rgb24 => expand_rgb24(pixels, buf_size),
    }
}

/// Expands 24-bit RGB pixels into a fresh 32-bit RGBA buffer of the
/// given size, after validating that the sizes agree; a mismatch is a
/// malformed input.
pub fn expand_rgb24(pixels: &Vec<u8>, buf_size: usize) -> (r: Result<Vec<u8>, RenderError>)
    ensures
        match r {
            Ok(out) => {
                &&& pixels@.len() * 4 == buf_size * 3
                &&& out@.len() == buf_size
                &&& rgb_expanded(pixels@, out@)
            },
            Err(e) => pixels@.len() * 4 != buf_size * 3 && e == RenderError::MalformedInput,
        },
{
    let lhs: u128 = (pixels.len() as u128) * 4;
    let rhs: u128 = (buf_size as u128) * 3;
    if lhs == rhs {
        let mut out = zero_buffer(buf_size);
        proof {
            vstd::arithmetic::div_mod::lemma_remainder(pixels@.len() as int, 3);
            vstd::arithmetic::div_mod::lemma_remainder(buf_size as int, 4);
            assert((buf_size as int) / 4 >= (pixels@.len() as int) / 3);
        }
        convert_rgb24_to_rgb32(pixels, &mut out);
        Ok(out)
    } else {
        Err(RenderError::MalformedInput)
    }
}

/// Copies decoded bytes into a fresh buffer of the given size, zero
/// padding the tail; decoded bytes that do not fit are a malformed
/// input.
pub fn pad_to(pixels: &Vec<u8>, buf_size: usize) -> (r: Result<Vec<u8>, RenderError>)
    ensures
        match r {
            Ok(out) => {
                &&& pixels@.len() <= buf_size
                &&& out@.len() == buf_size
                &&& forall|i: int| 0 <= i < pixels@.len() ==> out@[i] == pixels@[i]
                &&& forall|i: int| pixels@.len() <= i < buf_size ==> out@[i] == 0
            },
            Err(e) => pixels@.len() > buf_size && e == RenderError::MalformedInput,
        },
{
    if pixels.len() > buf_size {
        return Err(RenderError::MalformedInput);
    }
    let mut out: Vec<u8> = Vec::new();
    let mut i: usize = 0;
    while i < pixels.len()
        invariant
            0 <= i <= pixels@.len(),
            out@.len() == i,
            forall|j: int| 0 <= j < i ==> out@[j] == pixels@[j],
        decreases pixels@.len() - i,
    {
        out.push(pixels[i]);
        i = i + 1;
    }
    while i < buf_size
        invariant
            pixels@.len() <= i <= buf_size,
            out@.len() == i,
            forall|j: int| 0 <= j < pixels@.len() ==> out@[j] == pixels@[j],
            forall|j: int| pixels@.len() <= j < i ==> out@[j] == 0,
        decreases buf_size - i,
    {
        out.push(0);
        i = i + 1;
    }
    Ok(out)
}

/// A zeroed buffer of the given size.
pub fn zero_buffer(size: usize) -> (r: Vec<u8>)
    ensures
        zero_filled(r@, size as nat),
{
    let mut out: Vec<u8> = Vec::new();
    let mut i: usize = 0;
    while i < size
        invariant
            0 <= i <= size,
            out@.len() == i,
            forall|j: int| 0 <= j < i ==> out@[j] == 0,
        decreases size - i,
    {
        out.push(0);
        i = i + 1;
    }
    out
}

/// Which buffer format an embedded JPEG decodes into.
pub fn jpeg_buffer_format(format: JpegFormat) -> (r: BufFormat)
    ensures
        r == spec_jpeg_buffer_format(format),
{
    match format {
        JpegFormat::L8 => BufFormat::L8,
        JpegFormat::L16 => BufFormat::L8,
        JpegFormat::Rgb24 => BufFormat::Bgra8888,
        JpegFormat::Cmyk32 => BufFormat::Rgba8888,
    }
}

/// The buffer format per decoded JPEG pixel format: grayscale stays
/// 8-bit, RGB expands into the backend's 32-bit order for decoded RGB,
/// CMYK falls back to a zero-filled 32-bit buffer.
pub open spec fn spec_jpeg_buffer_format(format: JpegFormat) -> BufFormat {
    match format {
        JpegFormat::L8 => BufFormat::L8,
        JpegFormat::L16 => BufFormat::L8,
        JpegFormat::Rgb24 => BufFormat::Bgra8888,
        JpegFormat::Cmyk32 => BufFormat::Rgba8888,
    }
}

} // verus!
