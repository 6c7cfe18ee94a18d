use vstd::prelude::*;
use crate::image::{is_premultiplied, Color, Image};
use crate::types::Vec2i;

verus! {

#[verifier::external_type_specification]
#[verifier::external_body]
pub struct ExDecodingError(png::DecodingError);

/// Why a sprite sheet could not be turned into an image.
#[derive(PartialEq, Eq, Structural, Clone, Copy, Debug)]
pub enum DecodeError {
    /// The PNG stream is unreadable or corrupt.
    Malformed,
    /// The PNG stream decodes to something other than 8-bit RGBA.
    UnsupportedFormat,
    /// A width or height does not fit an `i32`.
    TooLarge,
    /// The byte count is not four bytes per pixel of the given size.
    SizeMismatch,
}

/// The PNG color type code of 8-bit-per-sample RGBA (red, green, blue, alpha).
pub const PNG_COLOR_RGBA: u8 = 6;

/// The PNG bit depth accepted for sprite sheets.
pub const PNG_DEPTH_EIGHT: u8 = 8;

/// The first frame of a PNG stream as the decoder hands it out: its size,
/// its PNG color type and bit depth codes, and its row-major bytes.
pub(crate) struct PngFrame {
    pub(crate) width: u32,
    pub(crate) height: u32,
    pub(crate) color: u8,
    pub(crate) depth: u8,
    pub(crate) pixels: Vec<u8>,
}

/// What png's decoder yields for the stream `data`: `None` when it fails, else
/// the first frame's width, height, color type code, bit depth code and bytes.
pub uninterp spec fn png_frame_of(data: Seq<u8>) -> Option<(u32, u32, u8, u8, Seq<u8>)>;

/// Relies on png's `Decoder::new`, `Decoder::read_info`, `Reader::output_buffer_size`
/// and `Reader::next_frame`: decodes the first frame of `data` without transformations.
/// The outcome depends on the bytes of `data` alone.
#[verifier::external_body]
fn decode_png_frame(data: &[u8]) -> (r: Result<PngFrame, png::DecodingError>)
    ensures
        (r is Err) == (png_frame_of(data@) is None),
        r matches Ok(f) ==> png_frame_of(data@) == Some(
            (f.width, f.height, f.color, f.depth, f.pixels@),
        ),
{
    let mut reader = png::Decoder::new(data).read_info()?;
    let mut pixels = vec![0u8; reader.output_buffer_size()];
    let info = reader.next_frame(&mut pixels)?;
    let color = info.color_type as u8;
    let depth = info.bit_depth as u8;
    Ok(PngFrame { width: info.width, height: info.height, color, depth, pixels })
}

/// `c * a / 255`, rounded down: a straight channel scaled by alpha.
pub open spec fn premultiply_channel(c: u8, a: u8) -> u8 {
    (c * a / 255) as u8
}

/// The premultiplied color of the straight RGBA quadruple `(r, g, b, a)`.
pub open spec fn premultiply_spec(r: u8, g: u8, b: u8, a: u8) -> Color {
    (premultiply_channel(r, a), premultiply_channel(g, a), premultiply_channel(b, a), a)
}

/// The premultiplied pixels of a packed straight-RGBA byte sequence.
pub open spec fn premultiplied_pixels(bytes: Seq<u8>) -> Seq<Color> {
    Seq::new(
        bytes.len() / 4,
        |i: int| premultiply_spec(bytes[4 * i], bytes[4 * i + 1], bytes[4 * i + 2], bytes[4 * i + 3]),
    )
}

fn premultiply_channel_exec(c: u8, a: u8) -> (r: u8)
    ensures
        r == premultiply_channel(c, a),
        r <= a,
{
    assert(c * a / 255 <= a) by (nonlinear_arith)
        requires
            c <= 255,
            a >= 0,
    ;
    (c as u32 * a as u32 / 255) as u8
}

/// Premultiplies the straight RGBA quadruple `(r, g, b, a)`.
pub fn premultiply(r: u8, g: u8, b: u8, a: u8) -> (c: Color)
    ensures
        c == premultiply_spec(r, g, b, a),
        is_premultiplied(c),
{
    (premultiply_channel_exec(r, a), premultiply_channel_exec(g, a), premultiply_channel_exec(b, a), a)
}

/// `r` is the outcome of building a `width` by `height` image from the packed
/// straight RGBA bytes `bytes`: each dimension must fit an `i32`, and there
/// must be exactly four bytes per pixel.
pub open spec fn rgba8_outcome(
    width: u32,
    height: u32,
    bytes: Seq<u8>,
    r: Result<Image, DecodeError>,
) -> bool {
    if width > i32::MAX || height > i32::MAX {
        r == Err::<Image, DecodeError>(DecodeError::TooLarge)
    } else if bytes.len() != 4 * width * height {
        r == Err::<Image, DecodeError>(DecodeError::SizeMismatch)
    } else {
        &&& r is Ok
        &&& r->Ok_0.wf()
        &&& r->Ok_0.sz == Vec2i { x: width as i32, y: height as i32 }
        &&& r->Ok_0.buffer@ == premultiplied_pixels(bytes)
    }
}

impl Image {
    /// An image of `width` by `height` pixels from packed straight (not
    /// premultiplied) RGBA bytes in row-major order, premultiplying each pixel.
    pub fn from_rgba8(width: u32, height: u32, bytes: &[u8]) -> (r: Result<Image, DecodeError>)
        ensures
            rgba8_outcome(width, height, bytes@, r),
            r matches Ok(img) ==> forall|k: int|
                0 <= k < img.buffer@.len() ==> is_premultiplied(#[trigger] img.buffer@[k]),
    {
        if width > i32::MAX as u32 || height > i32::MAX as u32 {
            return Err(DecodeError::TooLarge);
        }
        assert((width as int) * (height as int) <= 0x4000_0000_0000_0000) by (nonlinear_arith)
            requires
                width <= 0x7fff_ffff,
                height <= 0x7fff_ffff,
        ;
        assert(4 * width * height == 4 * ((width as int) * (height as int))) by (nonlinear_arith);
        let n: u64 = width as u64 * height as u64;
        let len = bytes.len() as u64;
        if len % 4 != 0 || len / 4 != n {
            return Err(DecodeError::SizeMismatch);
        }
        let blen = bytes.len();
        let count = blen / 4;
        let mut buffer: Vec<Color> = Vec::with_capacity(count);
        let mut i: usize = 0;
        while i < count
            invariant
                i <= count,
                count == bytes@.len() / 4,
                blen == bytes@.len(),
                bytes@.len() % 4 == 0,
                buffer@.len() == i,
                forall|k: int|
                    0 <= k < i ==> #[trigger] buffer@[k] == premultiplied_pixels(bytes@)[k]
                        && is_premultiplied(buffer@[k]),
            decreases count - i,
        {
            assert(4 * i + 3 < bytes@.len());
            let c = premultiply(bytes[4 * i], bytes[4 * i + 1], bytes[4 * i + 2], bytes[4 * i + 3]);
            buffer.push(c);
            i = i + 1;
        }
        assert(buffer@ =~= premultiplied_pixels(bytes@));
        Ok(Image { buffer, sz: Vec2i { x: width as i32, y: height as i32 } })
    }

    /// Decodes the first frame of a PNG stream into a premultiplied image.
    /// Only 8-bit RGBA streams are accepted.
    pub fn from_png(data: &[u8]) -> (r: Result<Image, DecodeError>)
        ensures
            png_frame_of(data@) is None ==> r == Err::<Image, DecodeError>(DecodeError::Malformed),
            png_frame_of(data@) matches Some((w, h, color, depth, bytes)) ==> {
                if color != PNG_COLOR_RGBA || depth != PNG_DEPTH_EIGHT {
                    r == Err::<Image, DecodeError>(DecodeError::UnsupportedFormat)
                } else {
                    rgba8_outcome(w, h, bytes, r)
                }
            },
            r matches Ok(img) ==> {
                &&& img.wf()
                &&& forall|k: int| 0 <= k < img.buffer@.len() ==> is_premultiplied(
                    #[trigger] img.buffer@[k],
                )
            },
    {
        match decode_png_frame(data) {
            Err(_) => Err(DecodeError::Malformed),
            Ok(frame) => {
                if frame.color != PNG_COLOR_RGBA || frame.depth != PNG_DEPTH_EIGHT {
                    Err(DecodeError::UnsupportedFormat)
                } else {
                    Image::from_rgba8(frame.width, frame.height, frame.pixels.as_slice())
                }
            },
        }
    }
}

} // verus!
