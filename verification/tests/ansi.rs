use inkless::delta::{write_cell_delta, write_hyperlink_delta};
use inkless::sink::render_ansi;
use inkless::style::{Ansi, Ansi16Color, Ansi256Color, Ansi8Color, EllipsisPosition, Intensity};
use inkless::support::{AnsiColorSupport, AnsiSupport, AnsiUnderlineColorSupport};
use inkless::text::{Overflow, Text};
use inkless::theme::{themed, Theme};
use inkless::unicode::AmbiguityPolicy;

fn support8() -> AnsiSupport {
    AnsiSupport::none().with_color(AnsiColorSupport::Ansi8)
}

#[test]
fn delta_empty_when_resolved_styles_agree() {
    // The two styles differ only in their 256-color foreground, which an
    // 8-color terminal cannot show: the resolved styles agree, so no
    // escape code is emitted between the cells.
    let a = Ansi::plain().red();
    let b = Ansi::plain().red().fg256(Ansi256Color::Grayscale(3));
    let mut out = String::new();
    write_cell_delta(&mut out, support8(), &Some(a), &Some(b)).unwrap();
    assert_eq!(out, "");
}

#[test]
fn delta_emits_degraded_code_on_change() {
    let mut out = String::new();
    write_cell_delta(&mut out, support8(), &None, &Some(Ansi::plain().red())).unwrap();
    assert_eq!(out, "\x1b[31m");
    let mut full = String::new();
    let sup = AnsiSupport::none()
        .with_color(AnsiColorSupport::TrueColor)
        .with_underline_color(AnsiUnderlineColorSupport::TrueColor);
    write_cell_delta(
        &mut full,
        sup,
        &None,
        &Some(Ansi::plain().bold().italic(true).fg_true(inkless::style::TrueColor(1, 22, 255))),
    )
    .unwrap();
    assert_eq!(full, "\x1b[1m\x1b[3m\x1b[38;2;1;22;255m");
}

#[test]
fn ansi_render_ends_with_reset() {
    let t = Text::of_tagged("Hi", Ansi::plain().red()).clip();
    let out = render_ansi(&t, 2, 1, AmbiguityPolicy::Standard, support8(), String::new()).unwrap();
    assert_eq!(out, "\x1b[31mHi\n\x1b[0m");
}

#[test]
fn ansi_render_diffs_between_segments() {
    let t = Text::of_tagged("a", Ansi::plain().red())
        .with_tagged("b", Ansi::plain().red())
        .with_tagged("c", Ansi::plain().green())
        .clip();
    let out = render_ansi(&t, 3, 1, AmbiguityPolicy::Standard, support8(), String::new()).unwrap();
    assert_eq!(out, "\x1b[31mab\x1b[32mc\n\x1b[0m");
}

#[test]
fn monochrome_terminal_gets_no_color_codes() {
    let t = Text::of_tagged("ok", Ansi::plain().red().bg_blue()).clip();
    let out = render_ansi(
        &t,
        2,
        1,
        AmbiguityPolicy::Standard,
        AnsiSupport::none(),
        String::new(),
    )
    .unwrap();
    assert_eq!(out, "ok\n\x1b[0m");
}

#[test]
fn ellipsis_glyph_carries_marker_tag() {
    // The prefix renders red; the ellipsis glyph renders with the plain
    // overflow-marker style, so a reset-to-default code separates them.
    let t = Text::of_tagged("abcdef", Ansi::plain().red())
        .with_overflow(Overflow::Ellipsis(EllipsisPosition::Right));
    let out = render_ansi(&t, 3, 1, AmbiguityPolicy::Standard, support8(), String::new()).unwrap();
    assert_eq!(out, "\x1b[31mab\x1b[39m\u{2026}\n\x1b[0m");
}

#[test]
fn clean_theme_strips_styles() {
    let theme = Theme::Clean;
    let t = Text::of_tagged("x", Ansi::plain().red()).clip();
    let stripped = themed(&t, &theme);
    let out =
        render_ansi(&stripped, 1, 1, AmbiguityPolicy::Standard, support8(), String::new()).unwrap();
    assert_eq!(out, "x\n\x1b[0m");
}

#[test]
fn chained_theme_composes() {
    let chain = Theme::Chain(Box::new(Theme::Identity), Box::new(Theme::Clean));
    assert_eq!(chain.translate(Ansi::plain().red()), Ansi::plain());
    let keep = Theme::Chain(Box::new(Theme::Clean), Box::new(Theme::Identity));
    assert_eq!(keep.translate(Ansi::plain().red()), Ansi::plain());
    assert_eq!(Theme::Identity.translate(Ansi::plain().red()), Ansi::plain().red());
}

#[test]
fn support_builders() {
    let s = AnsiSupport::none()
        .with_color(AnsiColorSupport::Ansi256)
        .with_underline_color(AnsiUnderlineColorSupport::Ansi256)
        .with_hyperlinks(true);
    assert_eq!(s.color, AnsiColorSupport::Ansi256);
    assert_eq!(s.underline, AnsiUnderlineColorSupport::Ansi256);
    assert!(s.hyperlinks);
}

#[test]
fn ansi256_and_truecolor_codes() {
    let sup = AnsiSupport::none().with_color(AnsiColorSupport::Ansi256);
    let mut out = String::new();
    write_cell_delta(
        &mut out,
        sup,
        &None,
        &Some(Ansi::plain().fg256(Ansi256Color::Grayscale(0)).bg256(Ansi256Color::Rgb(5, 0, 0))),
    )
    .unwrap();
    assert_eq!(out, "\x1b[38;5;232m\x1b[48;5;196m");
}

#[test]
fn hyperlink_delta_codes() {
    let sup = AnsiSupport::none().with_hyperlinks(true);
    // Opening a link with an id.
    let mut open = String::new();
    write_hyperlink_delta(&mut open, sup, None, None, Some("https://example.com"), Some("k1"))
        .unwrap();
    assert_eq!(open, "\x1b]8;id=k1;https://example.com\x1b\\");
    // Unchanged link: nothing.
    let mut same = String::new();
    write_hyperlink_delta(&mut same, sup, Some("u"), None, Some("u"), None).unwrap();
    assert_eq!(same, "");
    // Vanished link: the close sequence.
    let mut close = String::new();
    write_hyperlink_delta(&mut close, sup, Some("u"), None, None, None).unwrap();
    assert_eq!(close, "\x1b]8;;\x1b\\");
    // No hyperlink capability: nothing at all.
    let mut none = String::new();
    write_hyperlink_delta(&mut none, AnsiSupport::none(), None, None, Some("u"), None).unwrap();
    assert_eq!(none, "");
}

#[test]
fn style_builders_set_fields() {
    let a = Ansi::plain().red().bold().italic(true).bg_bright_blue();
    assert_eq!(a.ansi8_fg, Some(Ansi8Color::Red));
    assert_eq!(a.ansi16_fg, Some(Ansi16Color::Normal(Ansi8Color::Red)));
    assert_eq!(a.ansi16_bg, Some(Ansi16Color::Bright(Ansi8Color::Blue)));
    assert!(matches!(a.intensity, Intensity::Bold));
    assert!(a.italic);
    assert!(!a.concealed);
    let b = a.no_blink().faint();
    assert!(matches!(b.intensity, Intensity::Faint));
    assert_eq!(b.blink, None);
    assert_eq!(Ansi::new(), Ansi::plain());
}
