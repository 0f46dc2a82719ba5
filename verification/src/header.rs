//! The head of the text: the format tag and the size of the image.

use vstd::prelude::*;
use crate::cursor::{advance, Cursor};
use crate::number::{decimal, next_usize};

verus! {

/// The line that opens every text of this format: the ten ASCII letters of
/// `indeximage`, in lower case.
pub const TAG: [u8; 10] = [0x69, 0x6e, 0x64, 0x65, 0x78, 0x69, 0x6d, 0x61, 0x67, 0x65];

/// The tag as a sequence of bytes.
pub open spec fn tag() -> Seq<u8> {
    TAG@
}

/// Whether the first of `lines` is the tag, byte for byte.
pub open spec fn has_tag(lines: Seq<Seq<u8>>) -> bool {
    lines.len() > 0 && lines[0] == tag()
}

/// The width and height that the first two of `lines` declare, where both
/// are numbers that fit the machine word.
pub open spec fn declared_size(lines: Seq<Seq<u8>>) -> Option<(usize, usize)> {
    if lines.len() >= 2 && decimal(lines[0], usize::MAX as nat) is Some && decimal(
        lines[1],
        usize::MAX as nat,
    ) is Some {
        Some(
            (
                decimal(lines[0], usize::MAX as nat).unwrap() as usize,
                decimal(lines[1], usize::MAX as nat).unwrap() as usize,
            ),
        )
    } else {
        None
    }
}

/// Whether `line` is the format tag.
pub fn is_tag(line: &[u8]) -> (yes: bool)
    ensures
        yes == (line@ == tag()),
{
    if line.len() != TAG.len() {
        return false;
    }
    let mut i: usize = 0;
    while i < line.len()
        invariant
            i <= line@.len() == TAG@.len(),
            forall|j: int| 0 <= j < i ==> line@[j] == TAG@[j],
        decreases line@.len() - i,
    {
        if line[i] != TAG[i] {
            return false;
        }
        i += 1;
    }
    assert(line@ =~= TAG@);
    true
}

/// Reads one line and tells whether it is the format tag. A text that has
/// no line left has no tag.
pub fn check_file(iter: &mut Cursor) -> (ok: bool)
    ensures
        ok == has_tag(old(iter).remaining()),
        final(iter).remaining() == advance(old(iter).remaining(), 1),
{
    match iter.next() {
        Some(line) => is_tag(line),
        None => false,
    }
}

/// Reads two lines, the width and then the height of the image.
///
/// Fails where one of them is missing or is no number that fits the machine
/// word. Neither has to be positive.
pub fn get_size(iter: &mut Cursor) -> (size: Option<(usize, usize)>)
    ensures
        size == declared_size(old(iter).remaining()),
        final(iter).remaining() == advance(old(iter).remaining(), 2),
{
    let ghost lines = iter.remaining();
    let width: Option<usize> = next_usize(iter);
    let height: Option<usize> = next_usize(iter);
    proof {
        if lines.len() >= 2 {
            assert(lines.skip(1).skip(1) =~= lines.skip(2));
            assert(lines.skip(1)[0] == lines[1]);
        }
    }
    Some((width?, height?))
}

} // verus!
