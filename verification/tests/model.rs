use inkless::buffer::StaticRenderBuffer;
use inkless::canvas::RenderBufferCanvas;
use inkless::position::RenderPosition;
use inkless::static_grapheme::StaticGrapheme;
use inkless::style::{Ansi, TextTag};
use inkless::text::{Overflow, Text};
use inkless::unicode::{AmbiguityPolicy, Grapheme};

#[test]
fn ascii_grapheme_width_is_one() {
    let g = Grapheme::from_char('A');
    assert_eq!(g.width(AmbiguityPolicy::Standard), 1);
    assert_eq!(g.width(AmbiguityPolicy::Wide), 1);
}

#[test]
fn standard_width_never_exceeds_wide_width() {
    // An ambiguous character widens under Wide, a fullwidth one does not.
    for s in ["a", "\u{00b1}", "\u{3042}", "\u{2026}", "\u{1f44d}"] {
        let g = Grapheme::from_single_grapheme_str(s).unwrap();
        assert!(g.width_normal() <= g.width_cjk());
    }
    let ambiguous = Grapheme::from_single_grapheme_str("\u{00b1}").unwrap();
    assert_eq!(ambiguous.width_normal(), 1);
    assert_eq!(ambiguous.width_cjk(), 2);
}

#[test]
fn segmentation_keeps_clusters_whole() {
    let gs = Grapheme::from_str("a\u{1f44d}b");
    assert_eq!(gs.len(), 3);
    assert_eq!(gs[0].as_str(), "a");
    assert_eq!(gs[1].as_str(), "\u{1f44d}");
    assert_eq!(gs[2].as_str(), "b");
    let combining = Grapheme::from_str("e\u{0301}x");
    assert_eq!(combining.len(), 2);
    assert_eq!(combining[0].as_str(), "e\u{0301}");
}

#[test]
fn static_grapheme_roundtrip_short() {
    for s in ["a", "\u{00e9}", "\u{1f44d}", "e\u{0301}"] {
        let g = Grapheme::from_single_grapheme_str(s).unwrap();
        let enc: StaticGrapheme<7> = StaticGrapheme::from_single_grapheme(&g);
        assert!(!enc.did_overflow());
        assert_eq!(enc.decode().as_str(), s);
    }
}

#[test]
fn static_grapheme_long_cluster_becomes_replacement() {
    // A family emoji is a single cluster far longer than seven bytes.
    let s = "\u{1f468}\u{200d}\u{1f469}\u{200d}\u{1f467}\u{200d}\u{1f466}";
    let g = Grapheme::from_single_grapheme_str(s).unwrap();
    let enc: StaticGrapheme<7> = StaticGrapheme::from_single_grapheme(&g);
    assert!(enc.did_overflow());
    assert_eq!(enc.decode().as_str(), "\u{fffd}");
}

#[test]
fn can_set_is_horizontal_only() {
    let g = Grapheme::from_char('x');
    let near = StaticRenderBuffer::new(5, 2, 0, AmbiguityPolicy::Standard);
    let far = StaticRenderBuffer::new(5, 2, 100, AmbiguityPolicy::Standard);
    for col in 0..7usize {
        let pos = RenderPosition::new(50, col);
        assert_eq!(near.can_set_cell(pos, &g), col + 1 <= 5);
        assert_eq!(near.can_set_cell(pos, &g), far.can_set_cell(pos, &g));
    }
    let wide = Grapheme::from_single_grapheme_str("\u{3042}").unwrap();
    assert!(near.can_set_cell(RenderPosition::new(0, 3), &wide));
    assert!(!near.can_set_cell(RenderPosition::new(0, 4), &wide));
}

#[test]
fn set_cell_tracks_highest_targeted_line() {
    let g = Grapheme::from_char('x');
    let mut buffer = StaticRenderBuffer::new(3, 1, 0, AmbiguityPolicy::Standard);
    assert!(buffer.is_empty());
    assert!(buffer.set_cell(RenderPosition::new(5, 0), &g, TextTag::Segment(Ansi::plain())));
    assert!(!buffer.is_empty());
    assert_eq!(buffer.top_line(), Some(5));
    // The cell itself was outside the window, so nothing materialized.
    assert!(buffer.cell_at(0, 0).is_none());
    // A rejected set is a pure no-op.
    let mut other = StaticRenderBuffer::new(1, 1, 0, AmbiguityPolicy::Standard);
    assert!(!other.set_cell(RenderPosition::new(0, 1), &g, TextTag::Segment(Ansi::plain())));
    assert!(other.is_empty());
}

#[test]
fn canvas_cursor_moves() {
    let buffer = StaticRenderBuffer::new(10, 2, 0, AmbiguityPolicy::Standard);
    let mut canvas = RenderBufferCanvas::canvas_at(buffer, RenderPosition::zero());
    assert!(canvas.set_char('a', TextTag::Segment(Ansi::plain())));
    assert_eq!(canvas.get_position().column, 1);
    assert_eq!(canvas.get_position().line, 0);
    canvas.cursor_down();
    canvas.set_column(0);
    assert_eq!(canvas.get_position().line, 1);
    assert!(!canvas.try_cursor_up_by(2));
    assert!(canvas.try_cursor_up());
    assert_eq!(canvas.get_position().line, 0);
    assert!(!canvas.try_cursor_left());
    let probe = Grapheme::from_char('z');
    let before = canvas.get_position();
    assert!(canvas.can_set_gph(&probe));
    let after = canvas.get_position();
    assert_eq!(before.column, after.column);
}

#[test]
fn position_guarded_moves() {
    let p = RenderPosition::new(2, 3);
    assert_eq!(p.right(2).column, 5);
    assert_eq!(p.down(1).line, 3);
    assert!(p.try_left(4).is_none());
    assert_eq!(p.try_left(3).unwrap().column, 0);
    assert!(p.try_up(3).is_none());
    assert_eq!(p.try_up(2).unwrap().line, 0);
    assert_eq!(RenderPosition::line_start(7).column, 0);
    assert_eq!(RenderPosition::zero().line, 0);
}

#[test]
fn nested_write_summary_tracks_extent() {
    let buffer = StaticRenderBuffer::new(2, 4, 0, AmbiguityPolicy::Standard);
    let mut canvas = RenderBufferCanvas::canvas_at(buffer, RenderPosition::zero());
    let nested = Text::of_tagged("abcd", Ansi::plain()).grapheme_wrap();
    let summary = canvas.write(&nested).unwrap();
    assert_eq!(summary.start_position.line, 0);
    assert_eq!(summary.start_position.column, 0);
    assert_eq!(summary.end_position.line, 1);
    assert_eq!(summary.end_position.column, 2);
    assert_eq!(summary.get_line_height(), 2);
    assert_eq!(canvas.get_position().line, 1);
}

#[test]
fn empty_string_has_no_graphemes() {
    assert!(Grapheme::from_single_grapheme_str("").is_none());
    assert_eq!(Grapheme::from_str("").len(), 0);
}

#[test]
fn nested_failure_keeps_parent_cursor() {
    // A nested render that errs leaves the parent cursor where it was,
    // though the cells it committed before failing stay committed.
    let buffer = StaticRenderBuffer::new(2, 2, 0, AmbiguityPolicy::Standard);
    let mut canvas = RenderBufferCanvas::canvas_at(buffer, RenderPosition::new(0, 1));
    let nested = Text::of_tagged("abc", Ansi::plain()).with_overflow(Overflow::Error);
    assert!(canvas.write(&nested).is_err());
    assert_eq!(canvas.get_position().line, 0);
    assert_eq!(canvas.get_position().column, 1);
}
