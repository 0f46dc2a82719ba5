//! The palette: a count, then one line for each colour.

use vstd::prelude::*;
use crate::color::Color;
use crate::cursor::{advance, split, Cursor, SPACE};
use crate::number::{decimal, first_number, next_u8, next_usize};

verus! {

/// The colour that `line` writes: its first three tokens, with one space
/// between neighbours, are the red, green and blue channel, each a number
/// from 0 to 255. What follows a third space is not looked at.
pub open spec fn color_of_line(line: Seq<u8>) -> Option<Color> {
    let tokens = split(line, SPACE);
    if tokens.len() >= 3 && decimal(tokens[0], 255) is Some && decimal(tokens[1], 255) is Some
        && decimal(tokens[2], 255) is Some {
        Some(
            Color {
                r: decimal(tokens[0], 255).unwrap() as u8,
                g: decimal(tokens[1], 255).unwrap() as u8,
                b: decimal(tokens[2], 255).unwrap() as u8,
            },
        )
    } else {
        None
    }
}

/// Whether the first `count` of `lines` are there and each writes a colour.
pub open spec fn colors_ok(lines: Seq<Seq<u8>>, count: nat) -> bool {
    &&& count <= lines.len()
    &&& forall|i: int| 0 <= i < count ==> color_of_line(#[trigger] lines[i]) is Some
}

/// The colours that the first `count` of `lines` write, in their order.
pub open spec fn colors_of(lines: Seq<Seq<u8>>, count: nat) -> Seq<Color> {
    Seq::new(count, |i: int| color_of_line(lines[i]).unwrap())
}

/// How many lines the reading of `count` colours asks the cursor for:
/// `count` when every line is there and writes a colour, else those up to and
/// including the first that is missing or writes none.
pub open spec fn colors_read(lines: Seq<Seq<u8>>, count: nat) -> nat
    decreases count,
{
    if count == 0 {
        0
    } else if lines.len() == 0 || color_of_line(lines.first()) is None {
        1
    } else {
        1 + colors_read(lines.drop_first(), (count - 1) as nat)
    }
}

/// The number of colours that the palette declares on its first line.
pub open spec fn declared_count(lines: Seq<Seq<u8>>) -> Option<nat> {
    first_number(lines, usize::MAX as nat)
}

/// The palette that `lines` write: a count on the first line, which fits the
/// machine word, and then as many colours, one on each line.
pub open spec fn declared_palette(lines: Seq<Seq<u8>>) -> Option<Seq<Color>> {
    match declared_count(lines) {
        Some(count) => if colors_ok(lines.skip(1), count) {
            Some(colors_of(lines.skip(1), count))
        } else {
            None
        },
        None => None,
    }
}

/// How many lines the reading of the palette asks the cursor for: one for
/// the count and, where that is a number, those of the colours.
pub open spec fn palette_read(lines: Seq<Seq<u8>>) -> nat {
    match declared_count(lines) {
        Some(count) => 1 + colors_read(lines.skip(1), count),
        None => 1,
    }
}

/// After `k` good colours, reading goes on with the lines behind them.
pub proof fn lemma_colors_read_after(lines: Seq<Seq<u8>>, count: nat, k: nat)
    requires
        k <= count,
        colors_ok(lines, k),
    ensures
        colors_read(lines, count) == k + colors_read(lines.skip(k as int), (count - k) as nat),
    decreases k,
{
    if k == 0 {
        assert(lines.skip(0) =~= lines);
    } else {
        let rest = lines.drop_first();
        assert(color_of_line(lines[0]) is Some);
        assert forall|i: int| 0 <= i < k - 1 implies color_of_line(#[trigger] rest[i]) is Some by {
            assert(rest[i] == lines[i + 1]);
        }
        lemma_colors_read_after(rest, (count - 1) as nat, (k - 1) as nat);
        assert(rest.skip(k - 1) =~= lines.skip(k as int));
    }
}

/// Reads the colour that `line` writes.
pub fn parse_color(line: &[u8]) -> (color: Option<Color>)
    ensures
        color == color_of_line(line@),
{
    let ghost tokens = split(line@, SPACE);
    let mut fields = Cursor::new(line, SPACE);
    let r: u8 = next_u8(&mut fields)?;
    let g: u8 = next_u8(&mut fields)?;
    assert(tokens.skip(1)[0] == tokens[1]);
    let b: u8 = next_u8(&mut fields)?;
    assert(tokens.skip(1).skip(1)[0] == tokens[2]);
    Some(Color::new(r, g, b))
}

/// Reads the palette: one line with the number of colours, then one line for
/// each colour.
///
/// Fails where the count is missing or is no number that fits the machine
/// word, and at the first colour line that is missing or writes no colour;
/// the lines behind it are left unread.
pub fn load_colors(iter: &mut Cursor) -> (palette: Option<Vec<Color>>)
    ensures
        match palette {
            Some(colors) => declared_palette(old(iter).remaining()) == Some(colors@),
            None => declared_palette(old(iter).remaining()) is None,
        },
        final(iter).remaining() == advance(
            old(iter).remaining(),
            palette_read(old(iter).remaining()),
        ),
{
    let ghost lines = iter.remaining();
    let count: usize = next_usize(iter)?;
    let ghost body = lines.skip(1);
    let mut palette: Vec<Color> = Vec::new();
    let mut i: usize = 0;
    while i < count
        invariant
            i <= count,
            lines == old(iter).remaining(),
            declared_count(lines) == Some(count as nat),
            body == lines.skip(1),
            colors_ok(body, i as nat),
            iter.remaining() == body.skip(i as int),
            palette@ == colors_of(body, i as nat),
        decreases count - i,
    {
        proof {
            lemma_colors_read_after(body, count as nat, i as nat);
        }
        let line: &[u8] = iter.next()?;
        assert(line@ == body[i as int]);
        assert(iter.remaining() == body.skip(i + 1)) by {
            assert(body.skip(i as int).skip(1) =~= body.skip(i + 1));
        }
        palette.push(parse_color(line)?);
        i += 1;
        assert(palette@ =~= colors_of(body, i as nat));
    }
    proof {
        lemma_colors_read_after(body, count as nat, count as nat);
    }
    Some(palette)
}

} // verus!
