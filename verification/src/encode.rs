//! The raster encoder: a pixel buffer in, a PNG stream out.

use vstd::prelude::*;
use crate::failure::Failure;

verus! {

/// The error of the `png` crate's encoder. Nothing is known of what it holds.
#[verifier::external_type_specification]
#[verifier::external_body]
pub struct ExEncodingError(png::EncodingError);

/// The PNG stream that the `png` crate's encoder writes for an image of
/// `width` by `height` pixels with 8-bit RGB colour whose pixel bytes are
/// `data`, under the encoder's default settings; `None` where it refuses the
/// image.
pub uninterp spec fn png_rgb8(data: Seq<u8>, width: u32, height: u32) -> Option<Seq<u8>>;

/// The four bytes of `x`, most significant first.
pub open spec fn be_bytes(x: u32) -> Seq<u8> {
    seq![
        (x / 0x100_0000) as u8,
        (x / 0x1_0000 % 0x100) as u8,
        (x / 0x100 % 0x100) as u8,
        (x % 0x100) as u8,
    ]
}

/// Whether `stream` opens as a PNG stream that declares an 8-bit RGB image
/// of `width` by `height` pixels: the eight bytes of the PNG signature, then
/// the header chunk, which is 13 bytes long, is named `IHDR` and holds the
/// width, the height, the bit depth 8, the colour type 2 for RGB, and zero
/// for the compression method, the filter method and the interlace method;
/// four bytes of checksum end the chunk.
pub open spec fn opens_as_rgb8(stream: Seq<u8>, width: u32, height: u32) -> bool {
    &&& stream.len() >= 33
    &&& stream.subrange(0, 8) == seq![137u8, 80, 78, 71, 13, 10, 26, 10]
    &&& stream.subrange(8, 12) == seq![0u8, 0, 0, 13]
    &&& stream.subrange(12, 16) == seq![73u8, 72, 68, 82]
    &&& stream.subrange(16, 20) == be_bytes(width)
    &&& stream.subrange(20, 24) == be_bytes(height)
    &&& stream.subrange(24, 29) == seq![8u8, 2, 0, 0, 0]
}

/// Runs `png::Encoder` on a byte vector: `Encoder::new`, `set_color` with
/// `ColorType::Rgb`, `set_depth` with `BitDepth::Eight`, `write_header`, then
/// `Writer::write_image_data` and `Writer::finish`.
///
/// The contract gives the outcome its name, and claims of the encoder that it
/// refuses an image with no columns or no rows and that a stream it returns
/// opens with the signature and the header chunk that `opens_as_rgb8` spells
/// out. The buffer must have three bytes for each pixel: the encoder
/// multiplies the dimensions before it looks at the buffer's length.
#[verifier::external_body]
fn png_encode_rgb8(data: &[u8], width: u32, height: u32) -> (outcome: Result<
    Vec<u8>,
    png::EncodingError,
>)
    requires
        data@.len() == 3 * width * height,
    ensures
        match outcome {
            Ok(stream) => png_rgb8(data@, width, height) == Some(stream@),
            Err(_) => png_rgb8(data@, width, height) is None,
        },
        outcome is Ok ==> width > 0 && height > 0,
        outcome matches Ok(stream) ==> opens_as_rgb8(stream@, width, height),
{
    let mut stream = Vec::new();
    let mut encoder = png::Encoder::new(&mut stream, width, height);
    encoder.set_color(png::ColorType::Rgb);
    encoder.set_depth(png::BitDepth::Eight);
    let mut writer = encoder.write_header()?;
    writer.write_image_data(data)?;
    writer.finish()?;
    Ok(stream)
}

/// Whether `data` can be the pixel buffer of an image of the given width and
/// height: both fit the 32 bits that a PNG header has for each, and the
/// buffer has three bytes for each pixel.
pub open spec fn fits_raster(data: Seq<u8>, size: (usize, usize)) -> bool {
    &&& size.0 <= u32::MAX
    &&& size.1 <= u32::MAX
    &&& data.len() == 3 * size.0 * size.1
}

/// The PNG stream of the image with pixel buffer `data`, where there is one.
pub open spec fn encoding(data: Seq<u8>, size: (usize, usize)) -> Option<Seq<u8>> {
    if fits_raster(data, size) {
        png_rgb8(data, size.0 as u32, size.1 as u32)
    } else {
        None
    }
}

/// What the encoder's outcome means for the conversion: its stream, or an
/// encode failure whatever its error was.
pub fn encoded(outcome: Result<Vec<u8>, png::EncodingError>) -> (stream: Result<Vec<u8>, Failure>)
    ensures
        match outcome {
            Ok(bytes) => stream == Ok::<Vec<u8>, Failure>(bytes),
            Err(_) => stream == Err::<Vec<u8>, Failure>(Failure::EncodeFailure),
        },
{
    match outcome {
        Ok(bytes) => Ok(bytes),
        Err(_) => Err(Failure::EncodeFailure),
    }
}

/// Whether `data` has three bytes for each pixel of a `width` by `height`
/// grid.
pub fn has_pixel_bytes(data: &[u8], width: u32, height: u32) -> (yes: bool)
    ensures
        yes == (data@.len() == 3 * width * height),
{
    assert(width * height <= 0xffff_ffff * 0xffff_ffff) by (nonlinear_arith)
        requires
            width <= 0xffff_ffff,
            height <= 0xffff_ffff,
    ;
    let pixels: u128 = (width as u128) * (height as u128);
    let bytes: u128 = 3 * pixels;
    assert(bytes == 3 * width * height) by (nonlinear_arith)
        requires
            bytes == 3 * (width * height),
    ;
    data.len() as u128 == bytes
}

/// Encodes the pixel buffer `data` of an image `size.0` pixels wide and
/// `size.1` pixels high as a PNG stream: RGB colour, 8 bits for each channel.
///
/// Fails where a dimension does not fit a PNG header, where the buffer does
/// not have three bytes for each pixel, and where the encoder refuses the
/// image, as it does when the image has no pixels.
pub fn encode_image(data: &[u8], size: (usize, usize)) -> (stream: Result<Vec<u8>, Failure>)
    ensures
        match stream {
            Ok(bytes) => encoding(data@, size) == Some(bytes@),
            Err(failure) => failure == Failure::EncodeFailure && encoding(data@, size) is None,
        },
        stream is Ok ==> size.0 > 0 && size.1 > 0,
        stream matches Ok(bytes) ==> opens_as_rgb8(bytes@, size.0 as u32, size.1 as u32),
{
    if size.0 > 0xffff_ffff || size.1 > 0xffff_ffff {
        return Err(Failure::EncodeFailure);
    }
    let width: u32 = size.0 as u32;
    let height: u32 = size.1 as u32;
    if !has_pixel_bytes(data, width, height) {
        return Err(Failure::EncodeFailure);
    }
    encoded(png_encode_rgb8(data, width, height))
}

} // verus!
