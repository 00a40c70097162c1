use cc_quadstat::render::{bg256, fg256, format_tokens};
use cc_quadstat::text::visible_length;

#[test]
fn ascii_width_equals_char_count() {
    assert_eq!(visible_length(""), 0);
    assert_eq!(visible_length("a"), 1);
    assert_eq!(visible_length("hello world"), 11);
    assert_eq!(visible_length(" v1.2.3 "), 8);
}

#[test]
fn one_pictographic_adds_two() {
    // n ASCII characters plus one pictographic codepoint: width n + 2.
    assert_eq!(visible_length("\u{1f9e0}"), 2);
    assert_eq!(visible_length(" \u{1f9e0} 75% "), 6 + 2);
    assert_eq!(visible_length("abc\u{1f4ca}def"), 6 + 2);
}

#[test]
fn cjk_counts_double() {
    // U+4E2D and U+6587 lie in the CJK range, so each takes two cells.
    assert_eq!(visible_length("\u{4e2d}\u{6587}"), 4);
    assert_eq!(visible_length("a\u{3000}b"), 4);
}

#[test]
fn separator_glyph_is_single_width() {
    // U+E0B0 is outside both double-width ranges.
    assert_eq!(visible_length("\u{e0b0}"), 1);
    assert_eq!(visible_length("\u{238b}"), 1);
}

#[test]
fn token_abbreviation_millions() {
    assert_eq!(format_tokens(1_000_000), "1M");
    assert_eq!(format_tokens(1_999_999), "1M");
    assert_eq!(format_tokens(123_456_789), "123M");
}

#[test]
fn token_abbreviation_thousands() {
    assert_eq!(format_tokens(1_000), "1k");
    assert_eq!(format_tokens(999_999), "999k");
    assert_eq!(format_tokens(170_000), "170k");
}

#[test]
fn token_abbreviation_literal_below_thousand() {
    assert_eq!(format_tokens(0), "0");
    assert_eq!(format_tokens(999), "999");
    assert_eq!(format_tokens(-5), "-5");
}

#[test]
fn color_escapes_are_exact() {
    assert_eq!(fg256(15), "\u{1b}[38;5;15m");
    assert_eq!(fg256(0), "\u{1b}[38;5;0m");
    assert_eq!(bg256(197), "\u{1b}[48;5;197m");
}
