use indeximage::cursor::Cursor;
use indeximage::number::{next_u8, next_usize, parse_number, parse_u8, parse_usize};

#[test]
fn digits_are_read_in_base_ten() {
    assert_eq!(parse_usize(b"0"), Some(0));
    assert_eq!(parse_usize(b"7"), Some(7));
    assert_eq!(parse_usize(b"1234567890"), Some(1234567890));
}

#[test]
fn leading_zeros_change_nothing() {
    assert_eq!(parse_usize(b"007"), Some(7));
    assert_eq!(parse_u8(b"000000000000000000000000000255"), Some(255));
}

#[test]
fn a_plus_sign_may_lead() {
    assert_eq!(parse_usize(b"+5"), Some(5));
    assert_eq!(parse_u8(b"+0"), Some(0));
}

#[test]
fn a_sign_alone_is_no_number() {
    assert_eq!(parse_usize(b"+"), None);
    assert_eq!(parse_usize(b"-"), None);
    assert_eq!(parse_usize(b"++1"), None);
}

#[test]
fn a_minus_sign_is_refused() {
    assert_eq!(parse_usize(b"-1"), None);
    assert_eq!(parse_usize(b"-0"), None);
    assert_eq!(parse_u8(b"-1"), None);
}

#[test]
fn the_empty_token_is_no_number() {
    assert_eq!(parse_usize(b""), None);
    assert_eq!(parse_u8(b""), None);
}

#[test]
fn blanks_and_other_characters_are_refused() {
    assert_eq!(parse_usize(b" 1"), None);
    assert_eq!(parse_usize(b"1 "), None);
    assert_eq!(parse_usize(b"1\r"), None);
    assert_eq!(parse_usize(b"1_000"), None);
    assert_eq!(parse_usize(b"0x10"), None);
    assert_eq!(parse_usize(b"12a"), None);
    assert_eq!(parse_usize(b"1.0"), None);
}

#[test]
fn a_channel_is_at_most_255() {
    assert_eq!(parse_u8(b"0"), Some(0));
    assert_eq!(parse_u8(b"255"), Some(255));
    assert_eq!(parse_u8(b"256"), None);
    assert_eq!(parse_u8(b"1000"), None);
}

#[test]
fn the_largest_word_is_read_and_the_next_number_is_not() {
    let largest = format!("{}", usize::MAX);
    assert_eq!(parse_usize(largest.as_bytes()), Some(usize::MAX));
    let next = format!("{}", usize::MAX as u128 + 1);
    assert_eq!(parse_usize(next.as_bytes()), None);
    assert_eq!(parse_usize(b"99999999999999999999999999999999999999999"), None);
}

#[test]
fn the_bound_is_part_of_the_number() {
    assert_eq!(parse_number(b"10", 10), Some(10));
    assert_eq!(parse_number(b"11", 10), None);
    assert_eq!(parse_number(b"9", 5), None);
    assert_eq!(parse_number(b"0", 0), Some(0));
    assert_eq!(parse_number(b"1", 0), None);
}

#[test]
fn numbers_are_read_as_str_parse_reads_them() {
    let tokens = [
        "0",
        "1",
        "+1",
        "-1",
        "",
        "+",
        "255",
        "256",
        "0255",
        " 3",
        "3 ",
        "18446744073709551615",
        "18446744073709551616",
        "٣",
        "1e3",
    ];
    for token in tokens {
        assert_eq!(parse_usize(token.as_bytes()), token.parse::<usize>().ok());
        assert_eq!(parse_u8(token.as_bytes()), token.parse::<u8>().ok());
    }
}

#[test]
fn the_next_piece_is_read_as_a_number() {
    let mut cursor = Cursor::lines(b"12\n300\nx\n");
    assert_eq!(next_usize(&mut cursor), Some(12));
    assert_eq!(next_u8(&mut cursor), None);
    assert_eq!(next_usize(&mut cursor), None);
    assert_eq!(cursor.next(), Some(&b""[..]));
    assert_eq!(next_usize(&mut cursor), None);
    assert_eq!(next_u8(&mut cursor), None);
}

#[test]
fn a_piece_that_is_no_number_is_read_all_the_same() {
    let mut cursor = Cursor::new(b"a 7", b' ');
    assert_eq!(next_u8(&mut cursor), None);
    assert_eq!(next_u8(&mut cursor), Some(7));
    assert_eq!(cursor.next(), None);
}
