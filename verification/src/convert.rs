//! The conversion as a whole: tag, size, palette, pixel rows, PNG stream.

use vstd::prelude::*;
use crate::color::Color;
use crate::cursor::{advance, split, Cursor, NEWLINE};
use crate::encode::{encode_image, encoding, opens_as_rgb8};
use crate::failure::Failure;
use crate::header::{check_file, declared_size, get_size, has_tag};
use crate::palette::{declared_palette, load_colors, palette_read};
use crate::pixels::{create_image, image_bytes, rows_ok};

verus! {

/// The lines of `text` behind the tag and the two lines of the size.
pub open spec fn palette_lines(text: Seq<u8>) -> Seq<Seq<u8>> {
    advance(advance(split(text, NEWLINE), 1), 2)
}

/// The lines of `text` behind those that the palette has read.
pub open spec fn row_lines(text: Seq<u8>) -> Seq<Seq<u8>> {
    advance(palette_lines(text), palette_read(palette_lines(text)))
}

/// The image that `text` describes, as its size and its pixel buffer, or the
/// failure of the first stage that fails. The stages run in a fixed order:
/// tag, size, palette, pixel rows.
pub open spec fn decoding(text: Seq<u8>) -> Result<((usize, usize), Seq<u8>), Failure> {
    let lines = split(text, NEWLINE);
    if !has_tag(lines) {
        Err(Failure::FormatMismatch)
    } else {
        match declared_size(advance(lines, 1)) {
            None => Err(Failure::MalformedHeader),
            Some(size) => match declared_palette(palette_lines(text)) {
                None => Err(Failure::MalformedPalette),
                Some(palette) => if rows_ok(
                    row_lines(text),
                    palette.len(),
                    size.0 as nat,
                    size.1 as nat,
                ) {
                    Ok(
                        (
                            size,
                            image_bytes(row_lines(text), palette, size.0 as nat, size.1 as nat),
                        ),
                    )
                } else {
                    Err(Failure::MalformedPixelRow)
                },
            },
        }
    }
}

/// The PNG stream of the image that `text` describes, or the failure of the
/// first stage that fails; the encoder is the last stage.
pub open spec fn conversion(text: Seq<u8>) -> Result<Seq<u8>, Failure> {
    match decoding(text) {
        Ok((size, data)) => match encoding(data, size) {
            Some(stream) => Ok(stream),
            None => Err(Failure::EncodeFailure),
        },
        Err(failure) => Err(failure),
    }
}

/// A text whose tag, size and palette are in order, but which has fewer lines
/// left than the height it declares, fails at its pixel rows.
pub proof fn lemma_missing_rows_fail(text: Seq<u8>)
    requires
        has_tag(split(text, NEWLINE)),
        declared_size(advance(split(text, NEWLINE), 1)) is Some,
        declared_palette(palette_lines(text)) is Some,
        declared_size(advance(split(text, NEWLINE), 1)).unwrap().1 > row_lines(text).len(),
    ensures
        decoding(text) == Err::<((usize, usize), Seq<u8>), Failure>(Failure::MalformedPixelRow),
        conversion(text) == Err::<Seq<u8>, Failure>(Failure::MalformedPixelRow),
{
}

/// Reads the image that `text` describes: its size and its pixel buffer of
/// three bytes, red, green and blue, for each pixel, row by row.
pub fn decode(text: &[u8]) -> (image: Result<((usize, usize), Vec<u8>), Failure>)
    ensures
        match image {
            Ok((size, data)) => decoding(text@) == Ok::<((usize, usize), Seq<u8>), Failure>(
                (size, data@),
            ),
            Err(failure) => decoding(text@) == Err::<((usize, usize), Seq<u8>), Failure>(failure),
        },
        image matches Ok((size, data)) ==> data@.len() == 3 * size.0 * size.1,
{
    let mut iter = Cursor::lines(text);
    if !check_file(&mut iter) {
        return Err(Failure::FormatMismatch);
    }
    let size: (usize, usize) = match get_size(&mut iter) {
        Some(size) => size,
        None => {
            return Err(Failure::MalformedHeader);
        },
    };
    let palette: Vec<Color> = match load_colors(&mut iter) {
        Some(palette) => palette,
        None => {
            return Err(Failure::MalformedPalette);
        },
    };
    match create_image(&mut iter, palette.as_slice(), size) {
        Some(data) => Ok((size, data)),
        None => Err(Failure::MalformedPixelRow),
    }
}

/// Converts the text of an indexed image to a PNG stream.
///
/// A text may declare an image of no rows. Such an image has an empty pixel
/// buffer, and the encoder refuses it. An image of no columns that has rows
/// fails sooner, at its first row: every line has at least one token.
pub fn convert(text: &[u8]) -> (stream: Result<Vec<u8>, Failure>)
    ensures
        match stream {
            Ok(bytes) => conversion(text@) == Ok::<Seq<u8>, Failure>(bytes@),
            Err(failure) => conversion(text@) == Err::<Seq<u8>, Failure>(failure),
        },
        stream matches Ok(bytes) ==> decoding(text@) matches Ok((size, _)) && opens_as_rgb8(
            bytes@,
            size.0 as u32,
            size.1 as u32,
        ),
{
    match decode(text) {
        Ok((size, data)) => encode_image(data.as_slice(), size),
        Err(failure) => Err(failure),
    }
}

} // verus!
