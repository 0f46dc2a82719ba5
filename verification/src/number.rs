//! Unsigned decimal numbers as the text writes them.

use vstd::prelude::*;
use crate::cursor::{advance, Cursor};

verus! {

/// The character `0`; the other digits follow it in order.
pub const DIGIT_ZERO: u8 = 48;

/// The character `9`.
pub const DIGIT_NINE: u8 = 57;

/// The character `+`.
pub const PLUS: u8 = 43;

/// Whether `b` is one of the characters `0` to `9`.
pub open spec fn is_digit(b: u8) -> bool {
    DIGIT_ZERO <= b <= DIGIT_NINE
}

/// The number that a run of digits writes in base ten, most significant digit
/// first. Leading zeros change nothing.
pub open spec fn digits_value(s: Seq<u8>) -> nat
    decreases s.len(),
{
    if s.len() == 0 {
        0
    } else {
        10 * digits_value(s.drop_last()) + (s.last() - DIGIT_ZERO) as nat
    }
}

/// The digits of a token: the token without a leading `+`, if it has one.
pub open spec fn unsigned_part(s: Seq<u8>) -> Seq<u8> {
    if s.len() > 0 && s[0] == PLUS {
        s.skip(1)
    } else {
        s
    }
}

/// Whether `s` writes a number: an optional `+`, then at least one digit and
/// nothing else. No blank, no `-`, no other sign is accepted.
pub open spec fn is_decimal(s: Seq<u8>) -> bool {
    let d = unsigned_part(s);
    d.len() > 0 && forall|i: int| 0 <= i < d.len() ==> is_digit(#[trigger] d[i])
}

/// The number that `s` writes, if it writes one that is at most `max`.
pub open spec fn decimal(s: Seq<u8>, max: nat) -> Option<nat> {
    if is_decimal(s) && digits_value(unsigned_part(s)) <= max {
        Some(digits_value(unsigned_part(s)))
    } else {
        None
    }
}

/// Reading more digits never makes the number smaller.
pub proof fn lemma_digits_value_grows(s: Seq<u8>, k: int)
    requires
        0 <= k <= s.len(),
        forall|i: int| 0 <= i < s.len() ==> is_digit(#[trigger] s[i]),
    ensures
        digits_value(s.take(k)) <= digits_value(s),
    decreases s.len() - k,
{
    if k == s.len() {
        assert(s.take(k) =~= s);
    } else {
        let t = s.drop_last();
        assert(is_digit(s[s.len() - 1]));
        if k == t.len() {
            assert(s.take(k) =~= t);
        } else {
            assert(t.take(k) =~= s.take(k));
            assert forall|i: int| 0 <= i < t.len() implies is_digit(#[trigger] t[i]) by {
                assert(t[i] == s[i]);
            }
            lemma_digits_value_grows(t, k);
        }
    }
}

/// Parses `token` as an unsigned decimal number that is at most `max`.
pub fn parse_number(token: &[u8], max: usize) -> (value: Option<usize>)
    ensures
        match value {
            Some(v) => decimal(token@, max as nat) == Some(v as nat),
            None => decimal(token@, max as nat) is None,
        },
{
    let len: usize = token.len();
    let first: usize = if len > 0 && token[0] == PLUS {
        1
    } else {
        0
    };
    let ghost digits = unsigned_part(token@);
    assert(digits == token@.skip(first as int));
    if first == len {
        return None;
    }
    let mut value: usize = 0;
    let mut i: usize = first;
    while i < len
        invariant
            first <= i <= len,
            len == token@.len(),
            digits == unsigned_part(token@),
            digits == token@.skip(first as int),
            forall|j: int| 0 <= j < i - first ==> is_digit(#[trigger] digits[j]),
            value == digits_value(digits.take(i - first)),
            value <= max,
        decreases len - i,
    {
        let b: u8 = token[i];
        assert(b == digits[i - first]);
        if b < DIGIT_ZERO || b > DIGIT_NINE {
            return None;
        }
        let d: usize = (b - DIGIT_ZERO) as usize;
        proof {
            let next = digits.take(i - first + 1);
            assert(next.drop_last() =~= digits.take(i - first));
            assert(next.last() == b);
            assert(digits_value(next) == 10 * value + d);
        }
        if d > max || value > (max - d) / 10 {
            proof {
                if is_decimal(token@) {
                    lemma_digits_value_grows(digits, i - first + 1);
                }
            }
            return None;
        }
        value = value * 10 + d;
        i += 1;
    }
    assert(digits.take(i - first) =~= digits);
    Some(value)
}

/// Parses `token` as a number that fits the machine word.
pub fn parse_usize(token: &[u8]) -> (value: Option<usize>)
    ensures
        match value {
            Some(v) => decimal(token@, usize::MAX as nat) == Some(v as nat),
            None => decimal(token@, usize::MAX as nat) is None,
        },
{
    parse_number(token, usize::MAX)
}

/// Parses `token` as a number from 0 to 255.
pub fn parse_u8(token: &[u8]) -> (value: Option<u8>)
    ensures
        match value {
            Some(v) => decimal(token@, 255) == Some(v as nat),
            None => decimal(token@, 255) is None,
        },
{
    match parse_number(token, 255) {
        Some(v) => Some(v as u8),
        None => None,
    }
}

/// The number, at most `max`, that the first of `pieces` writes.
pub open spec fn first_number(pieces: Seq<Seq<u8>>, max: nat) -> Option<nat> {
    if pieces.len() > 0 {
        decimal(pieces[0], max)
    } else {
        None
    }
}

/// Reads one piece, as a number that fits the machine word.
pub fn next_usize(iter: &mut Cursor) -> (value: Option<usize>)
    ensures
        match value {
            Some(v) => first_number(old(iter).remaining(), usize::MAX as nat) == Some(v as nat),
            None => first_number(old(iter).remaining(), usize::MAX as nat) is None,
        },
        final(iter).remaining() == advance(old(iter).remaining(), 1),
{
    parse_usize(iter.next()?)
}

/// Reads one piece, as a number from 0 to 255.
pub fn next_u8(iter: &mut Cursor) -> (value: Option<u8>)
    ensures
        match value {
            Some(v) => first_number(old(iter).remaining(), 255) == Some(v as nat),
            None => first_number(old(iter).remaining(), 255) is None,
        },
        final(iter).remaining() == advance(old(iter).remaining(), 1),
{
    parse_u8(iter.next()?)
}

} // verus!
