//! The style-delta encoder: the minimal escape codes needed to move the
//! terminal from one cell's resolved style to the next.
//!
//! Each axis — intensity, blink, italic, conceal, strikethrough,
//! underline style, foreground, background and underline color — is
//! diffed independently against the previous cell's value. Colors are
//! first degraded to the most specific representation the declared
//! capability supports, and only the degraded values are compared, so two
//! cells that differ in source style but resolve alike emit nothing.

use vstd::prelude::*;

use crate::style::{
    Ansi, Ansi16Color, Ansi256Color, Ansi8Color, BlinkSpeed, Intensity, TrueColor, UnderlineStyle,
};
use crate::support::{AnsiColorSupport, AnsiSupport, AnsiUnderlineColorSupport};
use crate::writer::CharacterWriter;

verus! {

/// The color actually used for an axis once capability degradation has
/// picked the most specific supported representation.
#[derive(Clone, Copy, Debug, PartialEq, Eq, Structural)]
pub enum EffectiveColor {
    Unset,
    Ansi8(Ansi8Color),
    Ansi16(Ansi16Color),
    Ansi256(Ansi256Color),
    True(TrueColor),
}

/// The underline color actually used once degraded.
#[derive(Clone, Copy, Debug, PartialEq, Eq, Structural)]
pub enum EffectiveUnderline {
    Unset,
    Ansi256(Ansi256Color),
    True(TrueColor),
}

/// Degrade a tag's foreground color to the declared capability: the most
/// specific supported representation wins, `Unset` if none is available.
pub open spec fn resolve_fg_spec(tag: Option<Ansi>, support: AnsiSupport) -> EffectiveColor {
    match tag {
        None => EffectiveColor::Unset,
        Some(a) => match support.color {
            AnsiColorSupport::TrueColor => if a.true_fg is Some {
                EffectiveColor::True(a.true_fg->0)
            } else if a.ansi256_fg is Some {
                EffectiveColor::Ansi256(a.ansi256_fg->0)
            } else if a.ansi16_fg is Some {
                EffectiveColor::Ansi16(a.ansi16_fg->0)
            } else if a.ansi8_fg is Some {
                EffectiveColor::Ansi8(a.ansi8_fg->0)
            } else {
                EffectiveColor::Unset
            },
            AnsiColorSupport::Ansi256 => if a.ansi256_fg is Some {
                EffectiveColor::Ansi256(a.ansi256_fg->0)
            } else if a.ansi16_fg is Some {
                EffectiveColor::Ansi16(a.ansi16_fg->0)
            } else if a.ansi8_fg is Some {
                EffectiveColor::Ansi8(a.ansi8_fg->0)
            } else {
                EffectiveColor::Unset
            },
            AnsiColorSupport::Ansi16 => if a.ansi16_fg is Some {
                EffectiveColor::Ansi16(a.ansi16_fg->0)
            } else if a.ansi8_fg is Some {
                EffectiveColor::Ansi8(a.ansi8_fg->0)
            } else {
                EffectiveColor::Unset
            },
            AnsiColorSupport::Ansi8 => if a.ansi8_fg is Some {
                EffectiveColor::Ansi8(a.ansi8_fg->0)
            } else {
                EffectiveColor::Unset
            },
            AnsiColorSupport::Monochrome => EffectiveColor::Unset,
        },
    }
}

/// Degrade a tag's background color to the declared capability.
pub open spec fn resolve_bg_spec(tag: Option<Ansi>, support: AnsiSupport) -> EffectiveColor {
    match tag {
        None => EffectiveColor::Unset,
        Some(a) => match support.color {
            AnsiColorSupport::TrueColor => if a.true_bg is Some {
                EffectiveColor::True(a.true_bg->0)
            } else if a.ansi256_bg is Some {
                EffectiveColor::Ansi256(a.ansi256_bg->0)
            } else if a.ansi16_bg is Some {
                EffectiveColor::Ansi16(a.ansi16_bg->0)
            } else if a.ansi8_bg is Some {
                EffectiveColor::Ansi8(a.ansi8_bg->0)
            } else {
                EffectiveColor::Unset
            },
            AnsiColorSupport::Ansi256 => if a.ansi256_bg is Some {
                EffectiveColor::Ansi256(a.ansi256_bg->0)
            } else if a.ansi16_bg is Some {
                EffectiveColor::Ansi16(a.ansi16_bg->0)
            } else if a.ansi8_bg is Some {
                EffectiveColor::Ansi8(a.ansi8_bg->0)
            } else {
                EffectiveColor::Unset
            },
            AnsiColorSupport::Ansi16 => if a.ansi16_bg is Some {
                EffectiveColor::Ansi16(a.ansi16_bg->0)
            } else if a.ansi8_bg is Some {
                EffectiveColor::Ansi8(a.ansi8_bg->0)
            } else {
                EffectiveColor::Unset
            },
            AnsiColorSupport::Ansi8 => if a.ansi8_bg is Some {
                EffectiveColor::Ansi8(a.ansi8_bg->0)
            } else {
                EffectiveColor::Unset
            },
            AnsiColorSupport::Monochrome => EffectiveColor::Unset,
        },
    }
}

/// Degrade a tag's underline color to the declared capability.
pub open spec fn resolve_underline_spec(tag: Option<Ansi>, support: AnsiSupport) -> EffectiveUnderline {
    match tag {
        None => EffectiveUnderline::Unset,
        Some(a) => match support.underline {
            AnsiUnderlineColorSupport::TrueColor => if a.true_underline is Some {
                EffectiveUnderline::True(a.true_underline->0)
            } else if a.ansi256_underline is Some {
                EffectiveUnderline::Ansi256(a.ansi256_underline->0)
            } else {
                EffectiveUnderline::Unset
            },
            AnsiUnderlineColorSupport::Ansi256 => if a.ansi256_underline is Some {
                EffectiveUnderline::Ansi256(a.ansi256_underline->0)
            } else {
                EffectiveUnderline::Unset
            },
            AnsiUnderlineColorSupport::Unsupported => EffectiveUnderline::Unset,
        },
    }
}

pub fn resolve_fg(tag: &Option<Ansi>, support: AnsiSupport) -> (r: EffectiveColor)
    ensures
        r == resolve_fg_spec(*tag, support),
{
    match tag {
        None => EffectiveColor::Unset,
        Some(a) => match support.color {
            AnsiColorSupport::TrueColor => if let Some(c) = a.true_fg {
                EffectiveColor::True(c)
            } else if let Some(c) = a.ansi256_fg {
                EffectiveColor::Ansi256(c)
            } else if let Some(c) = a.ansi16_fg {
                EffectiveColor::Ansi16(c)
            } else if let Some(c) = a.ansi8_fg {
                EffectiveColor::Ansi8(c)
            } else {
                EffectiveColor::Unset
            },
            AnsiColorSupport::Ansi256 => if let Some(c) = a.ansi256_fg {
                EffectiveColor::Ansi256(c)
            } else if let Some(c) = a.ansi16_fg {
                EffectiveColor::Ansi16(c)
            } else if let Some(c) = a.ansi8_fg {
                EffectiveColor::Ansi8(c)
            } else {
                EffectiveColor::Unset
            },
            AnsiColorSupport::Ansi16 => if let Some(c) = a.ansi16_fg {
                EffectiveColor::Ansi16(c)
            } else if let Some(c) = a.ansi8_fg {
                EffectiveColor::Ansi8(c)
            } else {
                EffectiveColor::Unset
            },
            AnsiColorSupport::Ansi8 => if let Some(c) = a.ansi8_fg {
                EffectiveColor::Ansi8(c)
            } else {
                EffectiveColor::Unset
            },
            AnsiColorSupport::Monochrome => EffectiveColor::Unset,
        },
    }
}

pub fn resolve_bg(tag: &Option<Ansi>, support: AnsiSupport) -> (r: EffectiveColor)
    ensures
        r == resolve_bg_spec(*tag, support),
{
    match tag {
        None => EffectiveColor::Unset,
        Some(a) => match support.color {
            AnsiColorSupport::TrueColor => if let Some(c) = a.true_bg {
                EffectiveColor::True(c)
            } else if let Some(c) = a.ansi256_bg {
                EffectiveColor::Ansi256(c)
            } else if let Some(c) = a.ansi16_bg {
                EffectiveColor::Ansi16(c)
            } else if let Some(c) = a.ansi8_bg {
                EffectiveColor::Ansi8(c)
            } else {
                EffectiveColor::Unset
            },
            AnsiColorSupport::Ansi256 => if let Some(c) = a.ansi256_bg {
                EffectiveColor::Ansi256(c)
            } else if let Some(c) = a.ansi16_bg {
                EffectiveColor::Ansi16(c)
            } else if let Some(c) = a.ansi8_bg {
                EffectiveColor::Ansi8(c)
            } else {
                EffectiveColor::Unset
            },
            AnsiColorSupport::Ansi16 => if let Some(c) = a.ansi16_bg {
                EffectiveColor::Ansi16(c)
            } else if let Some(c) = a.ansi8_bg {
                EffectiveColor::Ansi8(c)
            } else {
                EffectiveColor::Unset
            },
            AnsiColorSupport::Ansi8 => if let Some(c) = a.ansi8_bg {
                EffectiveColor::Ansi8(c)
            } else {
                EffectiveColor::Unset
            },
            AnsiColorSupport::Monochrome => EffectiveColor::Unset,
        },
    }
}

pub fn resolve_underline_color(tag: &Option<Ansi>, support: AnsiSupport) -> (r: EffectiveUnderline)
    ensures
        r == resolve_underline_spec(*tag, support),
{
    match tag {
        None => EffectiveUnderline::Unset,
        Some(a) => match support.underline {
            AnsiUnderlineColorSupport::TrueColor => if let Some(c) = a.true_underline {
                EffectiveUnderline::True(c)
            } else if let Some(c) = a.ansi256_underline {
                EffectiveUnderline::Ansi256(c)
            } else {
                EffectiveUnderline::Unset
            },
            AnsiUnderlineColorSupport::Ansi256 => if let Some(c) = a.ansi256_underline {
                EffectiveUnderline::Ansi256(c)
            } else {
                EffectiveUnderline::Unset
            },
            AnsiUnderlineColorSupport::Unsupported => EffectiveUnderline::Unset,
        },
    }
}


pub open spec fn digit_char(d: int) -> char {
    if d == 0 { '0' } else if d == 1 { '1' } else if d == 2 { '2' } else if d == 3 { '3' }
    else if d == 4 { '4' } else if d == 5 { '5' } else if d == 6 { '6' } else if d == 7 { '7' }
    else if d == 8 { '8' } else { '9' }
}

/// The decimal digits of a byte value, most significant first.
pub open spec fn dec_str_of(n: int) -> Seq<char> {
    if n < 10 {
        seq![digit_char(n)]
    } else if n < 100 {
        seq![digit_char(n / 10), digit_char(n % 10)]
    } else {
        seq![digit_char(n / 100), digit_char((n / 10) % 10), digit_char(n % 10)]
    }
}

fn digit_str(d: u8) -> (r: &'static str)
    requires
        d < 10,
    ensures
        r@ == seq![digit_char(d as int)],
{
    proof {
        reveal_strlit("0");
        reveal_strlit("1");
        reveal_strlit("2");
        reveal_strlit("3");
        reveal_strlit("4");
        reveal_strlit("5");
        reveal_strlit("6");
        reveal_strlit("7");
        reveal_strlit("8");
        reveal_strlit("9");
        assert("0"@ =~= seq!['0']);
        assert("1"@ =~= seq!['1']);
        assert("2"@ =~= seq!['2']);
        assert("3"@ =~= seq!['3']);
        assert("4"@ =~= seq!['4']);
        assert("5"@ =~= seq!['5']);
        assert("6"@ =~= seq!['6']);
        assert("7"@ =~= seq!['7']);
        assert("8"@ =~= seq!['8']);
        assert("9"@ =~= seq!['9']);
    }
    match d {
        0 => "0",
        1 => "1",
        2 => "2",
        3 => "3",
        4 => "4",
        5 => "5",
        6 => "6",
        7 => "7",
        8 => "8",
        _ => "9",
    }
}

/// Write a byte value in decimal, without leading zeros.
fn write_u8_dec<W: CharacterWriter>(writer: &mut W, n: u8) -> (r: Result<(), W::Error>)
    ensures
        r is Ok ==> final(writer).written() == old(writer).written() + dec_str_of(n as int),
{
    if n >= 100 {
        let d2 = n / 100;
        let d1 = (n / 10) % 10;
        let d0 = n % 10;
        writer.write_str(digit_str(d2))?;
        writer.write_str(digit_str(d1))?;
        writer.write_str(digit_str(d0))?;
        proof {
            assert(old(writer).written() + seq![digit_char(n as int / 100)] + seq![
                digit_char((n as int / 10) % 10),
            ] + seq![digit_char(n as int % 10)] =~= old(writer).written() + dec_str_of(n as int));
        }
        Ok(())
    } else if n >= 10 {
        let d1 = n / 10;
        let d0 = n % 10;
        writer.write_str(digit_str(d1))?;
        writer.write_str(digit_str(d0))?;
        proof {
            assert(old(writer).written() + seq![digit_char(n as int / 10)] + seq![
                digit_char(n as int % 10),
            ] =~= old(writer).written() + dec_str_of(n as int));
        }
        Ok(())
    } else {
        writer.write_str(digit_str(n))?;
        Ok(())
    }
}

/// The 256-color palette index a color stands for. Rgb components are
/// expected in 0..=5 and grayscale levels in 0..=23; anything larger
/// wraps at the byte boundary.
pub open spec fn ansi256_index_spec(color: Ansi256Color) -> u8 {
    match color {
        Ansi256Color::Normal(c) => ansi8_index_spec(c),
        Ansi256Color::Bright(c) => (8 + ansi8_index_spec(c)) as u8,
        Ansi256Color::Rgb(r, g, b) => (16 + 36 * (r as int) + 6 * (g as int) + (b as int)) as u8,
        Ansi256Color::Grayscale(v) => (232 + v as int) as u8,
    }
}

pub open spec fn ansi8_index_spec(color: Ansi8Color) -> u8 {
    match color {
        Ansi8Color::Black => 0,
        Ansi8Color::Red => 1,
        Ansi8Color::Green => 2,
        Ansi8Color::Yellow => 3,
        Ansi8Color::Blue => 4,
        Ansi8Color::Magenta => 5,
        Ansi8Color::Cyan => 6,
        Ansi8Color::White => 7,
    }
}

fn ansi8_index(color: Ansi8Color) -> (r: u8)
    ensures
        r == ansi8_index_spec(color),
{
    match color {
        Ansi8Color::Black => 0,
        Ansi8Color::Red => 1,
        Ansi8Color::Green => 2,
        Ansi8Color::Yellow => 3,
        Ansi8Color::Blue => 4,
        Ansi8Color::Magenta => 5,
        Ansi8Color::Cyan => 6,
        Ansi8Color::White => 7,
    }
}

fn ansi256_index(color: Ansi256Color) -> (r: u8)
    ensures
        r == ansi256_index_spec(color),
{
    match color {
        Ansi256Color::Normal(c) => ansi8_index(c),
        Ansi256Color::Bright(c) => 8 + ansi8_index(c),
        Ansi256Color::Rgb(r, g, b) => {
            let idx: u16 = 16 + 36 * (r as u16) + 6 * (g as u16) + (b as u16);
            #[verifier::truncate] (idx as u8)
        },
        Ansi256Color::Grayscale(v) => {
            let idx: u16 = 232 + (v as u16);
            #[verifier::truncate] (idx as u8)
        },
    }
}


pub open spec fn intensity_of(t: Option<Ansi>) -> Intensity {
    match t {
        None => Intensity::Normal,
        Some(a) => a.intensity,
    }
}

pub open spec fn blink_of(t: Option<Ansi>) -> Option<BlinkSpeed> {
    match t {
        None => None,
        Some(a) => a.blink,
    }
}

pub open spec fn italic_of(t: Option<Ansi>) -> bool {
    match t {
        None => false,
        Some(a) => a.italic,
    }
}

pub open spec fn concealed_of(t: Option<Ansi>) -> bool {
    match t {
        None => false,
        Some(a) => a.concealed,
    }
}

pub open spec fn strikethrough_of(t: Option<Ansi>) -> bool {
    match t {
        None => false,
        Some(a) => a.strikethrough,
    }
}

pub open spec fn underline_of(t: Option<Ansi>) -> Option<UnderlineStyle> {
    match t {
        None => None,
        Some(a) => a.underline,
    }
}

/// The escape code moving the terminal's intensity from one cell to the
/// next: nothing when they agree.
pub open spec fn intensity_delta_spec(prev: Option<Ansi>, next: Option<Ansi>) -> Seq<char> {
    if intensity_of(prev) == intensity_of(next) {
        Seq::empty()
    } else {
        match intensity_of(next) {
            Intensity::Bold => "\x1b[1m"@,
            Intensity::Faint => "\x1b[2m"@,
            Intensity::Normal => "\x1b[22m"@,
        }
    }
}

pub fn write_intensity_delta<W: CharacterWriter>(
    writer: &mut W,
    prev: &Option<Ansi>,
    next: &Option<Ansi>,
) -> (r: Result<(), W::Error>)
    ensures
        r is Ok ==> final(writer).written() == old(writer).written() + intensity_delta_spec(
            *prev,
            *next,
        ),
        intensity_of(*prev) == intensity_of(*next) ==> r is Ok,
{
    let p = match prev {
        None => Intensity::Normal,
        Some(a) => a.intensity,
    };
    let n = match next {
        None => Intensity::Normal,
        Some(a) => a.intensity,
    };
    match (p, n) {
        (Intensity::Bold, Intensity::Bold)
        | (Intensity::Normal, Intensity::Normal)
        | (Intensity::Faint, Intensity::Faint) => {
            proof {
                assert(old(writer).written() + Seq::<char>::empty() =~= old(writer).written());
            }
            Ok(())
        },
        (_, Intensity::Bold) => writer.write_str("\x1b[1m"),
        (_, Intensity::Faint) => writer.write_str("\x1b[2m"),
        (_, Intensity::Normal) => writer.write_str("\x1b[22m"),
    }
}

/// The escape code moving the blink cadence from one cell to the next.
pub open spec fn blink_delta_spec(prev: Option<Ansi>, next: Option<Ansi>) -> Seq<char> {
    if blink_of(prev) == blink_of(next) {
        Seq::empty()
    } else {
        match blink_of(next) {
            Some(BlinkSpeed::Slow) => "\x1b[5m"@,
            Some(BlinkSpeed::Rapid) => "\x1b[6m"@,
            None => "\x1b[25m"@,
        }
    }
}

pub fn write_blink_delta<W: CharacterWriter>(
    writer: &mut W,
    prev: &Option<Ansi>,
    next: &Option<Ansi>,
) -> (r: Result<(), W::Error>)
    ensures
        r is Ok ==> final(writer).written() == old(writer).written() + blink_delta_spec(
            *prev,
            *next,
        ),
        blink_of(*prev) == blink_of(*next) ==> r is Ok,
{
    let p = match prev {
        None => None,
        Some(a) => a.blink,
    };
    let n = match next {
        None => None,
        Some(a) => a.blink,
    };
    match (p, n) {
        (Some(BlinkSpeed::Slow), Some(BlinkSpeed::Slow))
        | (Some(BlinkSpeed::Rapid), Some(BlinkSpeed::Rapid))
        | (None, None) => {
            proof {
                assert(old(writer).written() + Seq::<char>::empty() =~= old(writer).written());
            }
            Ok(())
        },
        (_, Some(BlinkSpeed::Slow)) => writer.write_str("\x1b[5m"),
        (_, Some(BlinkSpeed::Rapid)) => writer.write_str("\x1b[6m"),
        (_, None) => writer.write_str("\x1b[25m"),
    }
}

/// The escape code toggling italics between two cells.
pub open spec fn italic_delta_spec(prev: Option<Ansi>, next: Option<Ansi>) -> Seq<char> {
    if italic_of(prev) == italic_of(next) {
        Seq::empty()
    } else if italic_of(next) {
        "\x1b[3m"@
    } else {
        "\x1b[23m"@
    }
}

pub fn write_italic_delta<W: CharacterWriter>(
    writer: &mut W,
    prev: &Option<Ansi>,
    next: &Option<Ansi>,
) -> (r: Result<(), W::Error>)
    ensures
        r is Ok ==> final(writer).written() == old(writer).written() + italic_delta_spec(
            *prev,
            *next,
        ),
        italic_of(*prev) == italic_of(*next) ==> r is Ok,
{
    let p = match prev {
        None => false,
        Some(a) => a.italic,
    };
    let n = match next {
        None => false,
        Some(a) => a.italic,
    };
    if p == n {
        proof {
            assert(old(writer).written() + Seq::<char>::empty() =~= old(writer).written());
        }
        Ok(())
    } else if n {
        writer.write_str("\x1b[3m")
    } else {
        writer.write_str("\x1b[23m")
    }
}

/// The escape code toggling concealment between two cells.
pub open spec fn concealed_delta_spec(prev: Option<Ansi>, next: Option<Ansi>) -> Seq<char> {
    if concealed_of(prev) == concealed_of(next) {
        Seq::empty()
    } else if concealed_of(next) {
        "\x1b[8m"@
    } else {
        "\x1b[28m"@
    }
}

pub fn write_concealed_delta<W: CharacterWriter>(
    writer: &mut W,
    prev: &Option<Ansi>,
    next: &Option<Ansi>,
) -> (r: Result<(), W::Error>)
    ensures
        r is Ok ==> final(writer).written() == old(writer).written() + concealed_delta_spec(
            *prev,
            *next,
        ),
        concealed_of(*prev) == concealed_of(*next) ==> r is Ok,
{
    let p = match prev {
        None => false,
        Some(a) => a.concealed,
    };
    let n = match next {
        None => false,
        Some(a) => a.concealed,
    };
    if p == n {
        proof {
            assert(old(writer).written() + Seq::<char>::empty() =~= old(writer).written());
        }
        Ok(())
    } else if n {
        writer.write_str("\x1b[8m")
    } else {
        writer.write_str("\x1b[28m")
    }
}

/// The escape code toggling strikethrough between two cells.
pub open spec fn strikethrough_delta_spec(prev: Option<Ansi>, next: Option<Ansi>) -> Seq<char> {
    if strikethrough_of(prev) == strikethrough_of(next) {
        Seq::empty()
    } else if strikethrough_of(next) {
        "\x1b[9m"@
    } else {
        "\x1b[29m"@
    }
}

pub fn write_strikethrough_delta<W: CharacterWriter>(
    writer: &mut W,
    prev: &Option<Ansi>,
    next: &Option<Ansi>,
) -> (r: Result<(), W::Error>)
    ensures
        r is Ok ==> final(writer).written() == old(writer).written() + strikethrough_delta_spec(
            *prev,
            *next,
        ),
        strikethrough_of(*prev) == strikethrough_of(*next) ==> r is Ok,
{
    let p = match prev {
        None => false,
        Some(a) => a.strikethrough,
    };
    let n = match next {
        None => false,
        Some(a) => a.strikethrough,
    };
    if p == n {
        proof {
            assert(old(writer).written() + Seq::<char>::empty() =~= old(writer).written());
        }
        Ok(())
    } else if n {
        writer.write_str("\x1b[9m")
    } else {
        writer.write_str("\x1b[29m")
    }
}

/// The escape code moving the underline shape from one cell to the next.
pub open spec fn underline_style_delta_spec(prev: Option<Ansi>, next: Option<Ansi>) -> Seq<char> {
    if underline_of(prev) == underline_of(next) {
        Seq::empty()
    } else {
        match underline_of(next) {
            None => "\x1b[24m"@,
            Some(UnderlineStyle::Single) => "\x1b[4m"@,
            Some(UnderlineStyle::Double) => "\x1b[4:2m"@,
            Some(UnderlineStyle::Curly) => "\x1b[4:3m"@,
            Some(UnderlineStyle::Dotted) => "\x1b[4:4m"@,
            Some(UnderlineStyle::Dashed) => "\x1b[4:5m"@,
        }
    }
}

pub fn write_underline_style_delta<W: CharacterWriter>(
    writer: &mut W,
    prev: &Option<Ansi>,
    next: &Option<Ansi>,
) -> (r: Result<(), W::Error>)
    ensures
        r is Ok ==> final(writer).written() == old(writer).written() + underline_style_delta_spec(
            *prev,
            *next,
        ),
        underline_of(*prev) == underline_of(*next) ==> r is Ok,
{
    let p = match prev {
        None => None,
        Some(a) => a.underline,
    };
    let n = match next {
        None => None,
        Some(a) => a.underline,
    };
    match (p, n) {
        (None, None)
        | (Some(UnderlineStyle::Single), Some(UnderlineStyle::Single))
        | (Some(UnderlineStyle::Double), Some(UnderlineStyle::Double))
        | (Some(UnderlineStyle::Curly), Some(UnderlineStyle::Curly))
        | (Some(UnderlineStyle::Dotted), Some(UnderlineStyle::Dotted))
        | (Some(UnderlineStyle::Dashed), Some(UnderlineStyle::Dashed)) => {
            proof {
                assert(old(writer).written() + Seq::<char>::empty() =~= old(writer).written());
            }
            Ok(())
        },
        (_, None) => writer.write_str("\x1b[24m"),
        (_, Some(UnderlineStyle::Single)) => writer.write_str("\x1b[4m"),
        (_, Some(UnderlineStyle::Double)) => writer.write_str("\x1b[4:2m"),
        (_, Some(UnderlineStyle::Curly)) => writer.write_str("\x1b[4:3m"),
        (_, Some(UnderlineStyle::Dotted)) => writer.write_str("\x1b[4:4m"),
        (_, Some(UnderlineStyle::Dashed)) => writer.write_str("\x1b[4:5m"),
    }
}


pub open spec fn ansi8_fg_seq(c: Ansi8Color) -> Seq<char> {
    match c {
        Ansi8Color::Black => "\x1b[30m"@,
        Ansi8Color::Red => "\x1b[31m"@,
        Ansi8Color::Green => "\x1b[32m"@,
        Ansi8Color::Yellow => "\x1b[33m"@,
        Ansi8Color::Blue => "\x1b[34m"@,
        Ansi8Color::Magenta => "\x1b[35m"@,
        Ansi8Color::Cyan => "\x1b[36m"@,
        Ansi8Color::White => "\x1b[37m"@,
    }
}

pub open spec fn ansi16_fg_seq(c: Ansi16Color) -> Seq<char> {
    match c {
        Ansi16Color::Normal(b) => ansi8_fg_seq(b),
        Ansi16Color::Bright(b) => match b {
            Ansi8Color::Black => "\x1b[90m"@,
            Ansi8Color::Red => "\x1b[91m"@,
            Ansi8Color::Green => "\x1b[92m"@,
            Ansi8Color::Yellow => "\x1b[93m"@,
            Ansi8Color::Blue => "\x1b[94m"@,
            Ansi8Color::Magenta => "\x1b[95m"@,
            Ansi8Color::Cyan => "\x1b[96m"@,
            Ansi8Color::White => "\x1b[97m"@,
        },
    }
}

pub open spec fn ansi8_bg_seq(c: Ansi8Color) -> Seq<char> {
    match c {
        Ansi8Color::Black => "\x1b[40m"@,
        Ansi8Color::Red => "\x1b[41m"@,
        Ansi8Color::Green => "\x1b[42m"@,
        Ansi8Color::Yellow => "\x1b[43m"@,
        Ansi8Color::Blue => "\x1b[44m"@,
        Ansi8Color::Magenta => "\x1b[45m"@,
        Ansi8Color::Cyan => "\x1b[46m"@,
        Ansi8Color::White => "\x1b[47m"@,
    }
}

pub open spec fn ansi16_bg_seq(c: Ansi16Color) -> Seq<char> {
    match c {
        Ansi16Color::Normal(b) => ansi8_bg_seq(b),
        Ansi16Color::Bright(b) => match b {
            Ansi8Color::Black => "\x1b[100m"@,
            Ansi8Color::Red => "\x1b[101m"@,
            Ansi8Color::Green => "\x1b[102m"@,
            Ansi8Color::Yellow => "\x1b[103m"@,
            Ansi8Color::Blue => "\x1b[104m"@,
            Ansi8Color::Magenta => "\x1b[105m"@,
            Ansi8Color::Cyan => "\x1b[106m"@,
            Ansi8Color::White => "\x1b[107m"@,
        },
    }
}

pub open spec fn ansi256_fg_seq(c: Ansi256Color) -> Seq<char> {
    "\x1b[38;5;"@ + dec_str_of(ansi256_index_spec(c) as int) + "m"@
}

pub open spec fn ansi256_bg_seq(c: Ansi256Color) -> Seq<char> {
    "\x1b[48;5;"@ + dec_str_of(ansi256_index_spec(c) as int) + "m"@
}

pub open spec fn truecolor_body_seq(c: TrueColor) -> Seq<char> {
    dec_str_of(c.0 as int) + ";"@ + dec_str_of(c.1 as int) + ";"@ + dec_str_of(c.2 as int) + "m"@
}

pub open spec fn truecolor_fg_seq(c: TrueColor) -> Seq<char> {
    "\x1b[38;2;"@ + truecolor_body_seq(c)
}

pub open spec fn truecolor_bg_seq(c: TrueColor) -> Seq<char> {
    "\x1b[48;2;"@ + truecolor_body_seq(c)
}

pub open spec fn ansi256_underline_seq(c: Ansi256Color) -> Seq<char> {
    "\x1b[58;5;"@ + dec_str_of(ansi256_index_spec(c) as int) + "m"@
}

pub open spec fn truecolor_underline_seq(c: TrueColor) -> Seq<char> {
    "\x1b[58;2;"@ + truecolor_body_seq(c)
}

pub fn write_ansi8_fg<W: CharacterWriter>(writer: &mut W, color: Ansi8Color) -> (r: Result<
    (),
    W::Error,
>)
    ensures
        r is Ok ==> final(writer).written() == old(writer).written() + ansi8_fg_seq(color),
{
    match color {
        Ansi8Color::Black => writer.write_str("\x1b[30m"),
        Ansi8Color::Red => writer.write_str("\x1b[31m"),
        Ansi8Color::Green => writer.write_str("\x1b[32m"),
        Ansi8Color::Yellow => writer.write_str("\x1b[33m"),
        Ansi8Color::Blue => writer.write_str("\x1b[34m"),
        Ansi8Color::Magenta => writer.write_str("\x1b[35m"),
        Ansi8Color::Cyan => writer.write_str("\x1b[36m"),
        Ansi8Color::White => writer.write_str("\x1b[37m"),
    }
}

pub fn write_ansi16_fg<W: CharacterWriter>(writer: &mut W, color: Ansi16Color) -> (r: Result<
    (),
    W::Error,
>)
    ensures
        r is Ok ==> final(writer).written() == old(writer).written() + ansi16_fg_seq(color),
{
    match color {
        Ansi16Color::Normal(c) => write_ansi8_fg(writer, c),
        Ansi16Color::Bright(c) => match c {
            Ansi8Color::Black => writer.write_str("\x1b[90m"),
            Ansi8Color::Red => writer.write_str("\x1b[91m"),
            Ansi8Color::Green => writer.write_str("\x1b[92m"),
            Ansi8Color::Yellow => writer.write_str("\x1b[93m"),
            Ansi8Color::Blue => writer.write_str("\x1b[94m"),
            Ansi8Color::Magenta => writer.write_str("\x1b[95m"),
            Ansi8Color::Cyan => writer.write_str("\x1b[96m"),
            Ansi8Color::White => writer.write_str("\x1b[97m"),
        },
    }
}

pub fn write_ansi8_bg<W: CharacterWriter>(writer: &mut W, color: Ansi8Color) -> (r: Result<
    (),
    W::Error,
>)
    ensures
        r is Ok ==> final(writer).written() == old(writer).written() + ansi8_bg_seq(color),
{
    match color {
        Ansi8Color::Black => writer.write_str("\x1b[40m"),
        Ansi8Color::Red => writer.write_str("\x1b[41m"),
        Ansi8Color::Green => writer.write_str("\x1b[42m"),
        Ansi8Color::Yellow => writer.write_str("\x1b[43m"),
        Ansi8Color::Blue => writer.write_str("\x1b[44m"),
        Ansi8Color::Magenta => writer.write_str("\x1b[45m"),
        Ansi8Color::Cyan => writer.write_str("\x1b[46m"),
        Ansi8Color::White => writer.write_str("\x1b[47m"),
    }
}

pub fn write_ansi16_bg<W: CharacterWriter>(writer: &mut W, color: Ansi16Color) -> (r: Result<
    (),
    W::Error,
>)
    ensures
        r is Ok ==> final(writer).written() == old(writer).written() + ansi16_bg_seq(color),
{
    match color {
        Ansi16Color::Normal(c) => write_ansi8_bg(writer, c),
        Ansi16Color::Bright(c) => match c {
            Ansi8Color::Black => writer.write_str("\x1b[100m"),
            Ansi8Color::Red => writer.write_str("\x1b[101m"),
            Ansi8Color::Green => writer.write_str("\x1b[102m"),
            Ansi8Color::Yellow => writer.write_str("\x1b[103m"),
            Ansi8Color::Blue => writer.write_str("\x1b[104m"),
            Ansi8Color::Magenta => writer.write_str("\x1b[105m"),
            Ansi8Color::Cyan => writer.write_str("\x1b[106m"),
            Ansi8Color::White => writer.write_str("\x1b[107m"),
        },
    }
}

pub fn write_ansi256_fg<W: CharacterWriter>(writer: &mut W, color: Ansi256Color) -> (r: Result<
    (),
    W::Error,
>)
    ensures
        r is Ok ==> final(writer).written() == old(writer).written() + ansi256_fg_seq(color),
{
    let idx = ansi256_index(color);
    writer.write_str("\x1b[38;5;")?;
    write_u8_dec(writer, idx)?;
    writer.write_str("m")?;
    proof {
        assert(old(writer).written() + "\x1b[38;5;"@ + dec_str_of(idx as int) + "m"@ =~= old(
            writer,
        ).written() + ansi256_fg_seq(color));
    }
    Ok(())
}

pub fn write_ansi256_bg<W: CharacterWriter>(writer: &mut W, color: Ansi256Color) -> (r: Result<
    (),
    W::Error,
>)
    ensures
        r is Ok ==> final(writer).written() == old(writer).written() + ansi256_bg_seq(color),
{
    let idx = ansi256_index(color);
    writer.write_str("\x1b[48;5;")?;
    write_u8_dec(writer, idx)?;
    writer.write_str("m")?;
    proof {
        assert(old(writer).written() + "\x1b[48;5;"@ + dec_str_of(idx as int) + "m"@ =~= old(
            writer,
        ).written() + ansi256_bg_seq(color));
    }
    Ok(())
}

pub fn write_ansi256_underline_color<W: CharacterWriter>(
    writer: &mut W,
    color: Ansi256Color,
) -> (r: Result<(), W::Error>)
    ensures
        r is Ok ==> final(writer).written() == old(writer).written() + ansi256_underline_seq(
            color,
        ),
{
    let idx = ansi256_index(color);
    writer.write_str("\x1b[58;5;")?;
    write_u8_dec(writer, idx)?;
    writer.write_str("m")?;
    proof {
        assert(old(writer).written() + "\x1b[58;5;"@ + dec_str_of(idx as int) + "m"@ =~= old(
            writer,
        ).written() + ansi256_underline_seq(color));
    }
    Ok(())
}

fn write_truecolor_body<W: CharacterWriter>(writer: &mut W, color: TrueColor) -> (r: Result<
    (),
    W::Error,
>)
    ensures
        r is Ok ==> final(writer).written() == old(writer).written() + truecolor_body_seq(color),
{
    write_u8_dec(writer, color.0)?;
    writer.write_str(";")?;
    write_u8_dec(writer, color.1)?;
    writer.write_str(";")?;
    write_u8_dec(writer, color.2)?;
    writer.write_str("m")?;
    proof {
        assert(old(writer).written() + dec_str_of(color.0 as int) + ";"@ + dec_str_of(
            color.1 as int,
        ) + ";"@ + dec_str_of(color.2 as int) + "m"@ =~= old(writer).written()
            + truecolor_body_seq(color));
    }
    Ok(())
}

pub fn write_truecolor_fg<W: CharacterWriter>(writer: &mut W, color: TrueColor) -> (r: Result<
    (),
    W::Error,
>)
    ensures
        r is Ok ==> final(writer).written() == old(writer).written() + truecolor_fg_seq(color),
{
    writer.write_str("\x1b[38;2;")?;
    write_truecolor_body(writer, color)?;
    proof {
        assert(old(writer).written() + "\x1b[38;2;"@ + truecolor_body_seq(color) =~= old(
            writer,
        ).written() + truecolor_fg_seq(color));
    }
    Ok(())
}

pub fn write_truecolor_bg<W: CharacterWriter>(writer: &mut W, color: TrueColor) -> (r: Result<
    (),
    W::Error,
>)
    ensures
        r is Ok ==> final(writer).written() == old(writer).written() + truecolor_bg_seq(color),
{
    writer.write_str("\x1b[48;2;")?;
    write_truecolor_body(writer, color)?;
    proof {
        assert(old(writer).written() + "\x1b[48;2;"@ + truecolor_body_seq(color) =~= old(
            writer,
        ).written() + truecolor_bg_seq(color));
    }
    Ok(())
}

pub fn write_truecolor_underline_color<W: CharacterWriter>(
    writer: &mut W,
    color: TrueColor,
) -> (r: Result<(), W::Error>)
    ensures
        r is Ok ==> final(writer).written() == old(writer).written() + truecolor_underline_seq(
            color,
        ),
{
    writer.write_str("\x1b[58;2;")?;
    write_truecolor_body(writer, color)?;
    proof {
        assert(old(writer).written() + "\x1b[58;2;"@ + truecolor_body_seq(color) =~= old(
            writer,
        ).written() + truecolor_underline_seq(color));
    }
    Ok(())
}


pub open spec fn fg_seq(c: EffectiveColor) -> Seq<char> {
    match c {
        EffectiveColor::Unset => "\x1b[39m"@,
        EffectiveColor::Ansi8(x) => ansi8_fg_seq(x),
        EffectiveColor::Ansi16(x) => ansi16_fg_seq(x),
        EffectiveColor::Ansi256(x) => ansi256_fg_seq(x),
        EffectiveColor::True(x) => truecolor_fg_seq(x),
    }
}

pub open spec fn bg_seq(c: EffectiveColor) -> Seq<char> {
    match c {
        EffectiveColor::Unset => "\x1b[49m"@,
        EffectiveColor::Ansi8(x) => ansi8_bg_seq(x),
        EffectiveColor::Ansi16(x) => ansi16_bg_seq(x),
        EffectiveColor::Ansi256(x) => ansi256_bg_seq(x),
        EffectiveColor::True(x) => truecolor_bg_seq(x),
    }
}

pub open spec fn underline_color_seq(c: EffectiveUnderline) -> Seq<char> {
    match c {
        EffectiveUnderline::Unset => "\x1b[59m"@,
        EffectiveUnderline::Ansi256(x) => ansi256_underline_seq(x),
        EffectiveUnderline::True(x) => truecolor_underline_seq(x),
    }
}

/// The escape code moving the foreground color between two cells: nothing
/// when the capability-degraded values agree, even if the source styles
/// differ.
pub open spec fn fg_delta_spec(
    support: AnsiSupport,
    prev: Option<Ansi>,
    next: Option<Ansi>,
) -> Seq<char> {
    if resolve_fg_spec(prev, support) == resolve_fg_spec(next, support) {
        Seq::empty()
    } else {
        fg_seq(resolve_fg_spec(next, support))
    }
}

pub fn write_foreground_color_delta<W: CharacterWriter>(
    writer: &mut W,
    support: AnsiSupport,
    prev: &Option<Ansi>,
    next: &Option<Ansi>,
) -> (r: Result<(), W::Error>)
    ensures
        r is Ok ==> final(writer).written() == old(writer).written() + fg_delta_spec(
            support,
            *prev,
            *next,
        ),
        resolve_fg_spec(*prev, support) == resolve_fg_spec(*next, support) ==> r is Ok,
{
    let p = resolve_fg(prev, support);
    let n = resolve_fg(next, support);
    if p == n {
        proof {
            assert(old(writer).written() + Seq::<char>::empty() =~= old(writer).written());
        }
        Ok(())
    } else {
        match n {
            EffectiveColor::Unset => writer.write_str("\x1b[39m"),
            EffectiveColor::Ansi8(c) => write_ansi8_fg(writer, c),
            EffectiveColor::Ansi16(c) => write_ansi16_fg(writer, c),
            EffectiveColor::Ansi256(c) => write_ansi256_fg(writer, c),
            EffectiveColor::True(c) => write_truecolor_fg(writer, c),
        }
    }
}

/// The escape code moving the background color between two cells.
pub open spec fn bg_delta_spec(
    support: AnsiSupport,
    prev: Option<Ansi>,
    next: Option<Ansi>,
) -> Seq<char> {
    if resolve_bg_spec(prev, support) == resolve_bg_spec(next, support) {
        Seq::empty()
    } else {
        bg_seq(resolve_bg_spec(next, support))
    }
}

pub fn write_background_color_delta<W: CharacterWriter>(
    writer: &mut W,
    support: AnsiSupport,
    prev: &Option<Ansi>,
    next: &Option<Ansi>,
) -> (r: Result<(), W::Error>)
    ensures
        r is Ok ==> final(writer).written() == old(writer).written() + bg_delta_spec(
            support,
            *prev,
            *next,
        ),
        resolve_bg_spec(*prev, support) == resolve_bg_spec(*next, support) ==> r is Ok,
{
    let p = resolve_bg(prev, support);
    let n = resolve_bg(next, support);
    if p == n {
        proof {
            assert(old(writer).written() + Seq::<char>::empty() =~= old(writer).written());
        }
        Ok(())
    } else {
        match n {
            EffectiveColor::Unset => writer.write_str("\x1b[49m"),
            EffectiveColor::Ansi8(c) => write_ansi8_bg(writer, c),
            EffectiveColor::Ansi16(c) => write_ansi16_bg(writer, c),
            EffectiveColor::Ansi256(c) => write_ansi256_bg(writer, c),
            EffectiveColor::True(c) => write_truecolor_bg(writer, c),
        }
    }
}

/// The escape code moving the underline color between two cells.
pub open spec fn underline_color_delta_spec(
    support: AnsiSupport,
    prev: Option<Ansi>,
    next: Option<Ansi>,
) -> Seq<char> {
    if resolve_underline_spec(prev, support) == resolve_underline_spec(next, support) {
        Seq::empty()
    } else {
        underline_color_seq(resolve_underline_spec(next, support))
    }
}

pub fn write_underline_color_delta<W: CharacterWriter>(
    writer: &mut W,
    support: AnsiSupport,
    prev: &Option<Ansi>,
    next: &Option<Ansi>,
) -> (r: Result<(), W::Error>)
    ensures
        r is Ok ==> final(writer).written() == old(writer).written() + underline_color_delta_spec(
            support,
            *prev,
            *next,
        ),
        resolve_underline_spec(*prev, support) == resolve_underline_spec(*next, support)
            ==> r is Ok,
{
    let p = resolve_underline_color(prev, support);
    let n = resolve_underline_color(next, support);
    if p == n {
        proof {
            assert(old(writer).written() + Seq::<char>::empty() =~= old(writer).written());
        }
        Ok(())
    } else {
        match n {
            EffectiveUnderline::Unset => writer.write_str("\x1b[59m"),
            EffectiveUnderline::Ansi256(c) => write_ansi256_underline_color(writer, c),
            EffectiveUnderline::True(c) => write_truecolor_underline_color(writer, c),
        }
    }
}

/// The escape sequence moving the hyperlink state between two cells: when
/// the terminal supports hyperlinks and either the target or the id
/// changed, a changed link is (re)opened, and a vanished link is closed.
pub open spec fn hyperlink_delta_spec(
    support: AnsiSupport,
    prev_url: Option<Seq<char>>,
    prev_id: Option<Seq<char>>,
    next_url: Option<Seq<char>>,
    next_id: Option<Seq<char>>,
) -> Seq<char> {
    if !support.hyperlinks {
        Seq::empty()
    } else if prev_url == next_url && prev_id == next_id {
        Seq::empty()
    } else {
        match next_url {
            None => "\x1b]8;;\x1b\\"@,
            Some(url) => "\x1b]8;"@ + (match next_id {
                Some(id) => "id="@ + id,
                None => Seq::empty(),
            }) + ";"@ + url + "\x1b\\"@,
        }
    }
}

/// Relies on `str::eq` (via `PartialEq`): strings compare equal exactly
/// when they hold the same characters.
#[verifier::external_body]
fn str_eq(a: &str, b: &str) -> (r: bool)
    ensures
        r == (a@ == b@),
{
    a == b
}

fn opt_str_eq(a: &Option<&str>, b: &Option<&str>) -> (r: bool)
    ensures
        r == (match (a, b) {
            (None, None) => true,
            (Some(x), Some(y)) => x@ == y@,
            _ => false,
        }),
{
    match (a, b) {
        (None, None) => true,
        (Some(x), Some(y)) => str_eq(x, y),
        _ => false,
    }
}

pub open spec fn opt_view(o: Option<&str>) -> Option<Seq<char>> {
    match o {
        None => None,
        Some(s) => Some(s@),
    }
}

pub fn write_hyperlink_delta<W: CharacterWriter>(
    writer: &mut W,
    support: AnsiSupport,
    prev_url: Option<&str>,
    prev_id: Option<&str>,
    next_url: Option<&str>,
    next_id: Option<&str>,
) -> (r: Result<(), W::Error>)
    ensures
        r is Ok ==> final(writer).written() == old(writer).written() + hyperlink_delta_spec(
            support,
            opt_view(prev_url),
            opt_view(prev_id),
            opt_view(next_url),
            opt_view(next_id),
        ),
        !support.hyperlinks ==> r is Ok,
        opt_view(prev_url) == opt_view(next_url) && opt_view(prev_id) == opt_view(next_id)
            ==> r is Ok,
{
    if !support.hyperlinks {
        proof {
            assert(old(writer).written() + Seq::<char>::empty() =~= old(writer).written());
        }
        return Ok(());
    }
    if opt_str_eq(&prev_url, &next_url) && opt_str_eq(&prev_id, &next_id) {
        proof {
            assert(old(writer).written() + Seq::<char>::empty() =~= old(writer).written());
        }
        return Ok(());
    }
    match next_url {
        None => writer.write_str("\x1b]8;;\x1b\\"),
        Some(url) => {
            writer.write_str("\x1b]8;")?;
            match next_id {
                Some(id) => {
                    writer.write_str("id=")?;
                    writer.write_str(id)?;
                },
                None => {},
            }
            writer.write_str(";")?;
            writer.write_str(url)?;
            writer.write_str("\x1b\\")?;
            proof {
                match next_id {
                    Some(id) => {
                        assert(old(writer).written() + "\x1b]8;"@ + "id="@ + id@ + ";"@ + url@
                            + "\x1b\\"@ =~= old(writer).written() + ("\x1b]8;"@ + ("id="@ + id@)
                            + ";"@ + url@ + "\x1b\\"@));
                    },
                    None => {
                        assert(old(writer).written() + "\x1b]8;"@ + ";"@ + url@ + "\x1b\\"@ =~= old(
                            writer,
                        ).written() + ("\x1b]8;"@ + Seq::<char>::empty() + ";"@ + url@
                            + "\x1b\\"@));
                    },
                }
            }
            Ok(())
        },
    }
}


/// All escape codes one cell emits after another: every axis diffed
/// independently, colors compared only after capability degradation.
pub open spec fn cell_delta_spec(
    support: AnsiSupport,
    prev: Option<Ansi>,
    next: Option<Ansi>,
) -> Seq<char> {
    intensity_delta_spec(prev, next) + blink_delta_spec(prev, next) + italic_delta_spec(prev, next)
        + concealed_delta_spec(prev, next) + strikethrough_delta_spec(prev, next)
        + underline_style_delta_spec(prev, next) + fg_delta_spec(support, prev, next)
        + bg_delta_spec(support, prev, next) + underline_color_delta_spec(support, prev, next)
}

/// Whether two styles are indistinguishable once degraded to the declared
/// capability: every diffed axis agrees.
pub open spec fn resolved_equal(support: AnsiSupport, prev: Option<Ansi>, next: Option<Ansi>) -> bool {
    &&& intensity_of(prev) == intensity_of(next)
    &&& blink_of(prev) == blink_of(next)
    &&& italic_of(prev) == italic_of(next)
    &&& concealed_of(prev) == concealed_of(next)
    &&& strikethrough_of(prev) == strikethrough_of(next)
    &&& underline_of(prev) == underline_of(next)
    &&& resolve_fg_spec(prev, support) == resolve_fg_spec(next, support)
    &&& resolve_bg_spec(prev, support) == resolve_bg_spec(next, support)
    &&& resolve_underline_spec(prev, support) == resolve_underline_spec(next, support)
}

/// Between two consecutive cells whose resolved styles are identical —
/// even if their source styles differ — the encoder emits no escape code
/// at all.
pub proof fn lemma_resolved_equal_emits_nothing(
    support: AnsiSupport,
    prev: Option<Ansi>,
    next: Option<Ansi>,
)
    requires
        resolved_equal(support, prev, next),
    ensures
        cell_delta_spec(support, prev, next) == Seq::<char>::empty(),
{
    assert(cell_delta_spec(support, prev, next) =~= Seq::<char>::empty());
}

/// Write every axis delta between two cells, in the fixed axis order.
#[verifier::rlimit(60)]
pub fn write_cell_delta<W: CharacterWriter>(
    writer: &mut W,
    support: AnsiSupport,
    prev: &Option<Ansi>,
    next: &Option<Ansi>,
) -> (r: Result<(), W::Error>)
    ensures
        r is Ok ==> final(writer).written() == old(writer).written() + cell_delta_spec(
            support,
            *prev,
            *next,
        ),
        resolved_equal(support, *prev, *next) ==> r is Ok,
{
    write_intensity_delta(writer, prev, next)?;
    write_blink_delta(writer, prev, next)?;
    write_italic_delta(writer, prev, next)?;
    write_concealed_delta(writer, prev, next)?;
    write_strikethrough_delta(writer, prev, next)?;
    write_underline_style_delta(writer, prev, next)?;
    write_foreground_color_delta(writer, support, prev, next)?;
    write_background_color_delta(writer, support, prev, next)?;
    write_underline_color_delta(writer, support, prev, next)?;
    proof {
        assert(old(writer).written() + intensity_delta_spec(*prev, *next) + blink_delta_spec(
            *prev,
            *next,
        ) + italic_delta_spec(*prev, *next) + concealed_delta_spec(*prev, *next)
            + strikethrough_delta_spec(*prev, *next) + underline_style_delta_spec(*prev, *next)
            + fg_delta_spec(support, *prev, *next) + bg_delta_spec(support, *prev, *next)
            + underline_color_delta_spec(support, *prev, *next) =~= old(writer).written()
            + cell_delta_spec(support, *prev, *next));
    }
    Ok(())
}

} // verus!
