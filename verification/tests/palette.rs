use indeximage::color::Color;
use indeximage::cursor::Cursor;
use indeximage::palette::{load_colors, parse_color};

#[test]
fn color_new_keeps_the_channels() {
    let color = Color::new(1, 2, 3);
    assert_eq!(color.r, 1);
    assert_eq!(color.g, 2);
    assert_eq!(color.b, 3);
}

#[test]
fn the_default_color_is_black() {
    assert_eq!(Color::default(), Color::new(0, 0, 0));
}

#[test]
fn colors_are_read_in_order() {
    let mut cursor = Cursor::lines(b"2\n255 0 0\n0 255 0\n0 1\n");
    assert_eq!(
        load_colors(&mut cursor),
        Some(vec![Color::new(255, 0, 0), Color::new(0, 255, 0)])
    );
    assert_eq!(cursor.next(), Some(&b"0 1"[..]));
}

#[test]
fn channels_of_0_and_255_are_read() {
    let mut cursor = Cursor::lines(b"1\n0 255 0");
    assert_eq!(load_colors(&mut cursor), Some(vec![Color::new(0, 255, 0)]));
    assert_eq!(parse_color(b"255 255 255"), Some(Color::new(255, 255, 255)));
    assert_eq!(parse_color(b"0 0 0"), Some(Color::new(0, 0, 0)));
}

#[test]
fn a_channel_of_256_fails() {
    let mut cursor = Cursor::lines(b"1\n256 0 0\n");
    assert_eq!(load_colors(&mut cursor), None);
    assert_eq!(parse_color(b"0 256 0"), None);
    assert_eq!(parse_color(b"0 0 256"), None);
}

#[test]
fn a_negative_channel_fails() {
    let mut cursor = Cursor::lines(b"1\n-1 0 0\n");
    assert_eq!(load_colors(&mut cursor), None);
    assert_eq!(parse_color(b"0 -1 0"), None);
    assert_eq!(parse_color(b"0 0 -1"), None);
}

#[test]
fn a_color_needs_three_channels() {
    assert_eq!(parse_color(b""), None);
    assert_eq!(parse_color(b"1"), None);
    assert_eq!(parse_color(b"1 2"), None);
    assert_eq!(parse_color(b"1 2 "), None);
}

#[test]
fn what_follows_the_third_channel_is_not_read() {
    assert_eq!(parse_color(b"1 2 3 4"), Some(Color::new(1, 2, 3)));
    assert_eq!(parse_color(b"1 2 3 red"), Some(Color::new(1, 2, 3)));
    assert_eq!(parse_color(b"1 2 3 "), Some(Color::new(1, 2, 3)));
}

#[test]
fn channels_are_separated_by_one_space() {
    assert_eq!(parse_color(b"1  2 3"), None);
    assert_eq!(parse_color(b" 1 2 3"), None);
    assert_eq!(parse_color(b"1\t2\t3"), None);
    assert_eq!(parse_color(b"1,2,3"), None);
}

#[test]
fn an_empty_palette_reads_only_its_count() {
    let mut cursor = Cursor::lines(b"0\nnext");
    assert_eq!(load_colors(&mut cursor), Some(vec![]));
    assert_eq!(cursor.next(), Some(&b"next"[..]));
}

#[test]
fn a_missing_count_is_no_palette() {
    let mut cursor = Cursor::lines(b"");
    assert_eq!(cursor.next(), Some(&b""[..]));
    assert_eq!(load_colors(&mut cursor), None);
}

#[test]
fn a_count_that_is_no_number_is_no_palette() {
    let mut cursor = Cursor::lines(b"two\n1 2 3\n4 5 6");
    assert_eq!(load_colors(&mut cursor), None);
    assert_eq!(cursor.next(), Some(&b"1 2 3"[..]));
}

#[test]
fn a_palette_with_too_few_lines_fails() {
    let mut cursor = Cursor::lines(b"3\n1 2 3\n4 5 6");
    assert_eq!(load_colors(&mut cursor), None);
    assert_eq!(cursor.next(), None);
}

#[test]
fn reading_stops_behind_the_first_bad_color() {
    let mut cursor = Cursor::lines(b"3\n1 2 3\n4 5\n7 8 9\nrest");
    assert_eq!(load_colors(&mut cursor), None);
    assert_eq!(cursor.next(), Some(&b"7 8 9"[..]));
}

#[test]
fn a_huge_count_fails_for_want_of_lines() {
    let mut cursor = Cursor::lines(b"18446744073709551615\n1 2 3\n");
    assert_eq!(load_colors(&mut cursor), None);
}
