use inkless::style::Ansi;
use inkless::sink::render_plaintext_string;
use inkless::text::{Overflow, RenderableError, Text};
use inkless::unicode::AmbiguityPolicy;

fn plain(text: &str, overflow: Overflow) -> Text {
    Text::of_tagged(text, Ansi::plain()).with_overflow(overflow)
}

#[test]
fn clip_single_cell() {
    // "Hi" clipped into a single column keeps "H" and drops "i".
    let t = plain("Hi", Overflow::Clip);
    let out = render_plaintext_string(&t, 1, 1, AmbiguityPolicy::Standard).unwrap();
    assert_eq!(out, "H\n");
}

#[test]
fn word_wrap_single_column() {
    // "AB": each letter is its own word, so each goes on its own line.
    let t = plain("AB", Overflow::WordWrap);
    let out = render_plaintext_string(&t, 1, 1, AmbiguityPolicy::Standard).unwrap();
    assert_eq!(out, "A\nB\n");
}

#[test]
fn word_wrap_words() {
    let t = plain("hello world", Overflow::WordWrap);
    let out = render_plaintext_string(&t, 6, 4, AmbiguityPolicy::Standard).unwrap();
    assert_eq!(out, "hello \nworld \n");
}

#[test]
fn grapheme_wrap_narrow() {
    let t = plain("abc", Overflow::GraphemeWrap);
    let out = render_plaintext_string(&t, 1, 2, AmbiguityPolicy::Standard).unwrap();
    assert_eq!(out, "a\nb\nc\n");
}

#[test]
fn page_height_does_not_change_output() {
    let t = plain("The quick brown fox jumps over the lazy dog", Overflow::WordWrap);
    let reference = render_plaintext_string(&t, 10, 64, AmbiguityPolicy::Standard).unwrap();
    for h in 1..8usize {
        let t2 = plain("The quick brown fox jumps over the lazy dog", Overflow::WordWrap);
        let out = render_plaintext_string(&t2, 10, h, AmbiguityPolicy::Standard).unwrap();
        assert_eq!(out, reference);
    }
}

#[test]
fn ellipsis_right_hello_world() {
    let t = plain("Hello, world!", Overflow::Ellipsis(inkless::style::EllipsisPosition::Right));
    let out = render_plaintext_string(&t, 7, 1, AmbiguityPolicy::Standard).unwrap();
    assert_eq!(out, "Hello,\u{2026}\n");
}

#[test]
fn ellipsis_left_hello_world() {
    let t = plain("Hello, world!", Overflow::Ellipsis(inkless::style::EllipsisPosition::Left));
    let out = render_plaintext_string(&t, 7, 1, AmbiguityPolicy::Standard).unwrap();
    assert_eq!(out, "\u{2026}world!\n");
}

#[test]
fn ellipsis_center_hello_world() {
    let t = plain("Hello, world!", Overflow::Ellipsis(inkless::style::EllipsisPosition::Center));
    let out = render_plaintext_string(&t, 7, 1, AmbiguityPolicy::Standard).unwrap();
    assert_eq!(out, "Hel\u{2026}ld!\n");
}

#[test]
fn ellipsis_fitting_line_untouched() {
    let t = plain("Hi", Overflow::Ellipsis(inkless::style::EllipsisPosition::Right));
    let out = render_plaintext_string(&t, 7, 1, AmbiguityPolicy::Standard).unwrap();
    assert_eq!(out, "Hi     \n");
}

#[test]
fn ellipsis_too_narrow_skips_line() {
    // Not even the glyph fits into a zero-width line: nothing is painted,
    // nothing is ever targeted, so no page is emitted at all.
    let t = plain("Hello", Overflow::Ellipsis(inkless::style::EllipsisPosition::Right));
    let out = render_plaintext_string(&t, 0, 1, AmbiguityPolicy::Standard).unwrap();
    assert_eq!(out, "");
}

#[test]
fn error_policy_overflow() {
    let t = plain("Hello", Overflow::Error);
    let r = render_plaintext_string(&t, 3, 1, AmbiguityPolicy::Standard);
    assert!(matches!(r, Err(RenderableError::Overflow)));
}

#[test]
fn error_policy_fits() {
    let t = plain("Hey", Overflow::Error);
    let out = render_plaintext_string(&t, 3, 1, AmbiguityPolicy::Standard).unwrap();
    assert_eq!(out, "Hey\n");
}

#[test]
fn newline_starts_fresh_line_at_start_column() {
    let t = plain("ab\ncd", Overflow::Clip);
    let out = render_plaintext_string(&t, 4, 2, AmbiguityPolicy::Standard).unwrap();
    assert_eq!(out, "ab  \ncd  \n");
}

#[test]
fn wide_grapheme_occupies_two_columns() {
    // A fullwidth character is emitted once; the column it covers is
    // skipped rather than re-emitted as a gap.
    let t = plain("\u{3042}", Overflow::Clip);
    let out = render_plaintext_string(&t, 4, 1, AmbiguityPolicy::Standard).unwrap();
    assert_eq!(out, "\u{3042}  \n");
}

#[test]
fn empty_text_renders_nothing() {
    let t = Text::empty();
    let out = render_plaintext_string(&t, 5, 2, AmbiguityPolicy::Standard).unwrap();
    assert_eq!(out, "");
}

#[test]
fn nested_content_renders_at_cursor() {
    let inner = Text::of_tagged("B", Ansi::plain()).clip();
    let t = Text::of_tagged("A", Ansi::plain()).with_component(inner).with("C").clip();
    let out = render_plaintext_string(&t, 3, 1, AmbiguityPolicy::Standard).unwrap();
    assert_eq!(out, "ABC\n");
}

#[test]
fn multi_segment_continues_at_cursor() {
    let t = Text::of("ab").with("cd").clip();
    let out = render_plaintext_string(&t, 4, 1, AmbiguityPolicy::Standard).unwrap();
    assert_eq!(out, "abcd\n");
}

#[test]
fn ellipsis_handles_empty_sub_lines() {
    let t = plain("a\n\nb", Overflow::Ellipsis(inkless::style::EllipsisPosition::Right));
    let out = render_plaintext_string(&t, 3, 2, AmbiguityPolicy::Standard).unwrap();
    assert_eq!(out, "a  \n   \nb  \n");
}

#[test]
fn clip_reports_overflow_but_keeps_prefix() {
    let t = plain("abcd", Overflow::Clip);
    let out = render_plaintext_string(&t, 2, 1, AmbiguityPolicy::Standard).unwrap();
    assert_eq!(out, "ab\n");
}

#[test]
fn ellipsis_crlf_starts_fresh_sub_line() {
    // The carriage-return/line-feed pair is one grapheme cluster and
    // starts a fresh sub-line, like a bare line feed.
    let t = plain("a\r\nb", Overflow::Ellipsis(inkless::style::EllipsisPosition::Right));
    let out = render_plaintext_string(&t, 3, 2, AmbiguityPolicy::Standard).unwrap();
    assert_eq!(out, "a  \nb  \n");
}

#[test]
fn word_wrap_crlf_starts_fresh_sub_line() {
    let t = plain("a\r\nb", Overflow::WordWrap);
    let out = render_plaintext_string(&t, 3, 2, AmbiguityPolicy::Standard).unwrap();
    assert_eq!(out, "a  \nb  \n");
}
