//! Splitting text at a separator byte, and a forward-only cursor over the
//! pieces.

use vstd::prelude::*;

verus! {

/// The byte that ends a line.
pub const NEWLINE: u8 = 10;

/// The byte that separates the tokens of a line.
pub const SPACE: u8 = 32;

/// How many bytes stand in front of the first `sep` in `s`; the length of `s`
/// where it holds none.
pub open spec fn head_len(s: Seq<u8>, sep: u8) -> nat
    decreases s.len(),
{
    if s.len() == 0 || s.first() == sep {
        0
    } else {
        1 + head_len(s.drop_first(), sep)
    }
}

/// The pieces of `s` between occurrences of `sep`, in order. A text with `n`
/// separators has `n + 1` pieces; a piece may be empty, and so the empty text
/// has one empty piece.
pub open spec fn split(s: Seq<u8>, sep: u8) -> Seq<Seq<u8>>
    decreases s.len(),
{
    let n = head_len(s, sep) as int;
    if n >= s.len() {
        seq![s]
    } else {
        seq![s.take(n)] + split(s.skip(n + 1), sep)
    }
}

/// What is left of `pieces` once `n` of them were read: nothing, where there
/// were fewer than `n`.
pub open spec fn advance(pieces: Seq<Seq<u8>>, n: nat) -> Seq<Seq<u8>> {
    if n <= pieces.len() {
        pieces.skip(n as int)
    } else {
        Seq::empty()
    }
}

/// `head_len` is the position of the first separator, or the length.
pub proof fn lemma_head_len(s: Seq<u8>, sep: u8)
    ensures
        head_len(s, sep) <= s.len(),
        forall|i: int| 0 <= i < head_len(s, sep) ==> s[i] != sep,
        head_len(s, sep) < s.len() ==> s[head_len(s, sep) as int] == sep,
    decreases s.len(),
{
    if s.len() == 0 || s.first() == sep {
    } else {
        let t = s.drop_first();
        lemma_head_len(t, sep);
        assert forall|i: int| 0 <= i < head_len(s, sep) implies s[i] != sep by {
            if i > 0 {
                assert(s[i] == t[i - 1]);
            }
        }
        if head_len(s, sep) < s.len() {
            assert(s[head_len(s, sep) as int] == t[head_len(t, sep) as int]);
        }
    }
}

/// A position with no separator in front of it, which holds one or is the
/// end, is `head_len`.
pub proof fn lemma_head_len_is(s: Seq<u8>, sep: u8, n: int)
    requires
        0 <= n <= s.len(),
        forall|i: int| 0 <= i < n ==> s[i] != sep,
        n < s.len() ==> s[n] == sep,
    ensures
        head_len(s, sep) == n,
{
    lemma_head_len(s, sep);
    let m = head_len(s, sep) as int;
    if m < n {
        assert(s[m] == sep);
    } else if n < m {
        assert(s[n] != sep);
    }
}

/// A forward-only cursor over the pieces of a text. Reading a piece moves the
/// cursor past it; there is no way back.
pub struct Cursor<'a> {
    text: &'a [u8],
    sep: u8,
    at: usize,
    done: bool,
}

impl<'a> Cursor<'a> {
    #[verifier::type_invariant]
    spec fn inv(self) -> bool {
        self.at <= self.text@.len()
    }

    /// The pieces that were not read yet, in order.
    pub closed spec fn remaining(self) -> Seq<Seq<u8>> {
        if self.done {
            Seq::empty()
        } else {
            split(self.text@.skip(self.at as int), self.sep)
        }
    }

    /// A cursor in front of the first piece of `text`, split at `sep`.
    pub fn new(text: &'a [u8], sep: u8) -> (cursor: Cursor<'a>)
        ensures
            cursor.remaining() == split(text@, sep),
    {
        assert(text@.skip(0) =~= text@);
        Cursor { text, sep, at: 0, done: false }
    }

    /// A cursor in front of the first line of `text`.
    pub fn lines(text: &'a [u8]) -> (cursor: Cursor<'a>)
        ensures
            cursor.remaining() == split(text@, NEWLINE),
    {
        Cursor::new(text, NEWLINE)
    }

    /// Reads the next piece. Returns `None`, and changes nothing, once every
    /// piece was read.
    pub fn next(&mut self) -> (piece: Option<&'a [u8]>)
        ensures
            old(self).remaining().len() == 0 ==> piece is None,
            old(self).remaining().len() > 0 ==> piece is Some && piece.unwrap()@
                == old(self).remaining().first(),
            final(self).remaining() == advance(old(self).remaining(), 1),
    {
        proof {
            use_type_invariant(&*self);
        }
        if self.done {
            return None;
        }
        let text: &'a [u8] = self.text;
        let start: usize = self.at;
        let ghost rest = text@.skip(start as int);
        let mut end: usize = start;
        while end < text.len() && text[end] != self.sep
            invariant
                start <= end <= text@.len(),
                rest == text@.skip(start as int),
                forall|i: int| 0 <= i < end - start ==> rest[i] != self.sep,
            decreases text@.len() - end,
        {
            end += 1;
        }
        proof {
            lemma_head_len_is(rest, self.sep, end - start);
            assert(rest.take(end - start) =~= text@.subrange(start as int, end as int));
        }
        let piece: &'a [u8] = &text[start..end];
        if end < text.len() {
            proof {
                assert(rest.skip(end - start + 1) =~= text@.skip(end + 1));
                let tail = split(text@.skip(end + 1), self.sep);
                assert((seq![rest.take(end - start)] + tail).skip(1) =~= tail);
            }
            self.at = end + 1;
        } else {
            proof {
                assert(rest.take(end - start) =~= rest);
                assert(seq![rest].skip(1) =~= Seq::<Seq<u8>>::empty());
            }
            self.done = true;
        }
        Some(piece)
    }
}

} // verus!
