//! The pixel rows: lines of palette indices, resolved to colours.

use vstd::prelude::*;
use vstd::arithmetic::div_mod::lemma_fundamental_div_mod_converse;
use crate::color::Color;
use crate::cursor::{advance, split, Cursor, SPACE};
use crate::number::{digits_value, is_decimal, parse_usize, unsigned_part};

verus! {

/// The palette index that `token` writes, for a palette of `colors` entries:
/// a decimal number below `colors`.
pub open spec fn index_of_token(token: Seq<u8>, colors: nat) -> Option<nat> {
    if is_decimal(token) && digits_value(unsigned_part(token)) < colors {
        Some(digits_value(unsigned_part(token)))
    } else {
        None
    }
}

/// Whether `line` is a pixel row of an image `width` pixels wide: exactly
/// `width` tokens with one space between neighbours, each an index into a
/// palette of `colors` entries.
pub open spec fn row_ok(line: Seq<u8>, colors: nat, width: nat) -> bool {
    let tokens = split(line, SPACE);
    &&& tokens.len() == width
    &&& forall|c: int| 0 <= c < width ==> index_of_token(#[trigger] tokens[c], colors) is Some
}

/// Whether the first `height` of `lines` are there and are pixel rows.
pub open spec fn rows_ok(lines: Seq<Seq<u8>>, colors: nat, width: nat, height: nat) -> bool {
    &&& height <= lines.len()
    &&& forall|r: int| 0 <= r < height ==> row_ok(#[trigger] lines[r], colors, width)
}

/// The number written at column `c` of row `r`.
pub open spec fn pixel_index(lines: Seq<Seq<u8>>, r: int, c: int) -> int {
    digits_value(unsigned_part(split(lines[r], SPACE)[c])) as int
}

/// Byte `i` of the pixel buffer of an image `width` pixels wide. Pixels lie
/// row by row, three bytes each.
pub open spec fn image_byte(lines: Seq<Seq<u8>>, palette: Seq<Color>, width: nat, i: int) -> u8 {
    let pixel = i / 3;
    palette[pixel_index(lines, pixel / width as int, pixel % width as int)].channels()[i % 3]
}

/// The pixel buffer that `lines` describe: `3 * width * height` bytes, where
/// the pixel at row `r` and column `c` is the colour that the palette holds at
/// the index written there.
pub open spec fn image_bytes(
    lines: Seq<Seq<u8>>,
    palette: Seq<Color>,
    width: nat,
    height: nat,
) -> Seq<u8> {
    Seq::new(3 * width * height, |i: int| image_byte(lines, palette, width, i))
}

/// How many lines the reading of `height` rows asks the cursor for: `height`
/// when every line is there and is a pixel row, else those up to and
/// including the first that is missing or is none.
pub open spec fn rows_read(lines: Seq<Seq<u8>>, colors: nat, width: nat, height: nat) -> nat
    decreases height,
{
    if height == 0 {
        0
    } else if lines.len() == 0 || !row_ok(lines.first(), colors, width) {
        1
    } else {
        1 + rows_read(lines.drop_first(), colors, width, (height - 1) as nat)
    }
}

/// After `k` good rows, reading goes on with the lines behind them.
pub proof fn lemma_rows_read_after(
    lines: Seq<Seq<u8>>,
    colors: nat,
    width: nat,
    height: nat,
    k: nat,
)
    requires
        k <= height,
        rows_ok(lines, colors, width, k),
    ensures
        rows_read(lines, colors, width, height) == k + rows_read(
            lines.skip(k as int),
            colors,
            width,
            (height - k) as nat,
        ),
    decreases k,
{
    if k == 0 {
        assert(lines.skip(0) =~= lines);
    } else {
        let rest = lines.drop_first();
        assert(row_ok(lines[0], colors, width));
        assert forall|r: int| 0 <= r < k - 1 implies row_ok(#[trigger] rest[r], colors, width) by {
            assert(rest[r] == lines[r + 1]);
        }
        lemma_rows_read_after(rest, colors, width, (height - 1) as nat, (k - 1) as nat);
        assert(rest.skip(k - 1) =~= lines.skip(k as int));
    }
}

/// Where byte `k` of the pixel at row `r` and column `c` lies in the buffer.
pub proof fn lemma_byte_position(width: int, r: int, c: int, k: int)
    requires
        0 <= r,
        0 <= c < width,
        0 <= k < 3,
    ensures
        ({
            let i: int = 3 * (width * r + c) + k;
            &&& (i / 3) / width == r
            &&& (i / 3) % width == c
            &&& i % 3 == k
        }),
{
    let p: int = width * r + c;
    let i: int = 3 * p + k;
    lemma_fundamental_div_mod_converse(i, 3, p, k);
    assert(p == r * width + c) by (nonlinear_arith)
        requires
            p == width * r + c,
    ;
    lemma_fundamental_div_mod_converse(p, width, r, c);
}

/// In the buffer of a well-formed image, the pixel at row `r` and column `c`
/// is the palette's colour at the index written there; the buffer has three
/// bytes for each pixel of the grid and no others.
pub proof fn lemma_pixel_is_palette_color(
    lines: Seq<Seq<u8>>,
    palette: Seq<Color>,
    width: nat,
    height: nat,
    r: int,
    c: int,
)
    requires
        rows_ok(lines, palette.len(), width, height),
        0 <= r < height,
        0 <= c < width,
    ensures
        image_bytes(lines, palette, width, height).len() == 3 * width * height,
        0 <= pixel_index(lines, r, c) < palette.len(),
        0 <= 3 * (width * r + c) < 3 * (width * r + c) + 3 <= 3 * width * height,
        image_bytes(lines, palette, width, height).subrange(
            3 * (width * r + c),
            3 * (width * r + c) + 3,
        ) == palette[pixel_index(lines, r, c)].channels(),
{
    let bytes = image_bytes(lines, palette, width, height);
    let base: int = 3 * (width * r + c);
    assert(0 <= base && base + 3 <= 3 * width * height) by (nonlinear_arith)
        requires
            base == 3 * (width * r + c),
            0 <= r < height,
            0 <= c < width,
    ;
    assert(row_ok(lines[r], palette.len(), width));
    assert(index_of_token(split(lines[r], SPACE)[c], palette.len()) is Some);
    let color = palette[pixel_index(lines, r, c)];
    lemma_byte_position(width as int, r, c, 0);
    lemma_byte_position(width as int, r, c, 1);
    lemma_byte_position(width as int, r, c, 2);
    assert(bytes[base] == color.r);
    assert(bytes[base + 1] == color.g);
    assert(bytes[base + 2] == color.b);
    assert(bytes.subrange(base, base + 3) =~= color.channels());
}

/// A token that writes the number of colours in the palette, one past its
/// last index, is no index; one that writes the number before it is.
pub proof fn lemma_index_bound(token: Seq<u8>, colors: nat)
    requires
        is_decimal(token),
    ensures
        digits_value(unsigned_part(token)) == colors ==> index_of_token(token, colors) is None,
        digits_value(unsigned_part(token)) + 1 == colors ==> index_of_token(token, colors) == Some(
            (colors - 1) as nat,
        ),
{
}

/// A line whose tokens are all indices into the palette is a pixel row if it
/// has exactly as many tokens as the image is wide, and with one token more
/// or less it is none.
pub proof fn lemma_row_length(line: Seq<u8>, colors: nat, width: nat)
    requires
        forall|c: int|
            0 <= c < split(line, SPACE).len() ==> index_of_token(
                #[trigger] split(line, SPACE)[c],
                colors,
            ) is Some,
    ensures
        row_ok(line, colors, width) <==> split(line, SPACE).len() == width,
{
}

/// Rows are pixel rows only if there is a line for each of them.
pub proof fn lemma_rows_need_lines(lines: Seq<Seq<u8>>, colors: nat, width: nat, height: nat)
    requires
        height > lines.len(),
    ensures
        !rows_ok(lines, colors, width, height),
{
}

/// Resolves `size.1` rows of `size.0` palette indices each to the pixel buffer
/// of the image.
///
/// Each row is one line of the cursor, its indices separated by single
/// spaces. Fails at the first line that is missing, holds a token that is no
/// index into `palette`, or has more or fewer than `size.0` tokens; the lines
/// behind it are left unread.
pub fn create_image(iter: &mut Cursor, palette: &[Color], size: (usize, usize)) -> (data: Option<
    Vec<u8>,
>)
    ensures
        data is Some <==> rows_ok(
            old(iter).remaining(),
            palette@.len(),
            size.0 as nat,
            size.1 as nat,
        ),
        data matches Some(bytes) ==> bytes@.len() == 3 * size.0 * size.1 && bytes@ == image_bytes(
            old(iter).remaining(),
            palette@,
            size.0 as nat,
            size.1 as nat,
        ),
        final(iter).remaining() == advance(
            old(iter).remaining(),
            rows_read(old(iter).remaining(), palette@.len(), size.0 as nat, size.1 as nat),
        ),
{
    let width: usize = size.0;
    let height: usize = size.1;
    let ghost lines = iter.remaining();
    let count: usize = palette.len();
    let ghost colors = palette@.len();
    let mut data: Vec<u8> = Vec::new();
    let mut r: usize = 0;
    while r < height
        invariant
            r <= height,
            width == size.0,
            height == size.1,
            lines == old(iter).remaining(),
            colors == palette@.len(),
            count == colors,
            rows_ok(lines, colors, width as nat, r as nat),
            iter.remaining() == lines.skip(r as int),
            data@.len() == 3 * (width * r),
            forall|i: int|
                0 <= i < data@.len() ==> data@[i] == image_byte(lines, palette@, width as nat, i),
        decreases height - r,
    {
        proof {
            lemma_rows_read_after(lines, colors, width as nat, height as nat, r as nat);
        }
        let line: &[u8] = iter.next()?;
        assert(line@ == lines[r as int]);
        assert(iter.remaining() == lines.skip(r + 1)) by {
            assert(lines.skip(r as int).skip(1) =~= lines.skip(r + 1));
        }
        let ghost tokens = split(line@, SPACE);
        let mut fields = Cursor::new(line, SPACE);
        let mut c: usize = 0;
        loop
            invariant
                c <= width,
                r < height,
                width == size.0,
                height == size.1,
                lines == old(iter).remaining(),
                colors == palette@.len(),
                count == colors,
                rows_ok(lines, colors, width as nat, r as nat),
                rows_read(lines, colors, width as nat, height as nat) == r + rows_read(
                    lines.skip(r as int),
                    colors,
                    width as nat,
                    (height - r) as nat,
                ),
                iter.remaining() == lines.skip(r + 1),
                r < lines.len(),
                tokens == split(lines[r as int], SPACE),
                c <= tokens.len(),
                fields.remaining() == tokens.skip(c as int),
                forall|j: int| 0 <= j < c ==> index_of_token(#[trigger] tokens[j], colors) is Some,
                data@.len() == 3 * (width * r + c),
                forall|i: int|
                    0 <= i < data@.len() ==> data@[i] == image_byte(
                        lines,
                        palette@,
                        width as nat,
                        i,
                    ),
            ensures
                c == tokens.len(),
            decreases tokens.len() - c,
        {
            let token: &[u8] = match fields.next() {
                Some(token) => token,
                None => {
                    break ;
                },
            };
            assert(token@ == tokens[c as int]);
            assert(fields.remaining() == tokens.skip(c + 1)) by {
                assert(tokens.skip(c as int).skip(1) =~= tokens.skip(c + 1));
            }
            if c == width {
                return None;
            }
            let index: usize = parse_usize(token)?;
            if index >= count {
                return None;
            }
            let color: Color = palette[index];
            proof {
                assert(index == pixel_index(lines, r as int, c as int));
                lemma_byte_position(width as int, r as int, c as int, 0);
                lemma_byte_position(width as int, r as int, c as int, 1);
                lemma_byte_position(width as int, r as int, c as int, 2);
            }
            data.push(color.r);
            data.push(color.g);
            data.push(color.b);
            c += 1;
        }
        if c != width {
            return None;
        }
        proof {
            assert(row_ok(lines[r as int], colors, width as nat));
            assert(width * r + width == width * (r + 1)) by (nonlinear_arith);
        }
        r += 1;
    }
    proof {
        lemma_rows_read_after(lines, colors, width as nat, height as nat, height as nat);
        assert(3 * (width * height) == 3 * width * height) by (nonlinear_arith);
        assert(data@ =~= image_bytes(lines, palette@, width as nat, height as nat));
    }
    Some(data)
}

} // verus!
