//! Per-cell style data: colors at every capability tier, underline,
//! intensity, blink, and the other SGR attributes.
//!
//! An [`Ansi`] value records, for each axis, the most specific
//! representation the content author supplied; the encoder later picks
//! the best one the terminal supports.

use vstd::prelude::*;

verus! {

/// The basic 8-color palette.
#[derive(Clone, Copy, Debug, PartialEq, Eq, Structural)]
pub enum Ansi8Color {
    Black,
    Red,
    Green,
    Yellow,
    Blue,
    Magenta,
    Cyan,
    White,
}

/// The 16-color palette: the base palette plus its bright variants.
#[derive(Clone, Copy, Debug, PartialEq, Eq, Structural)]
pub enum Ansi16Color {
    Normal(Ansi8Color),
    Bright(Ansi8Color),
}

/// The 256-color indexed palette.
#[derive(Clone, Copy, Debug, PartialEq, Eq, Structural)]
pub enum Ansi256Color {
    Normal(Ansi8Color),
    Bright(Ansi8Color),
    Rgb(u8, u8, u8),
    Grayscale(u8),
}

/// A 24-bit RGB color.
#[derive(Clone, Copy, Debug, PartialEq, Eq, Structural)]
pub struct TrueColor(pub u8, pub u8, pub u8);

/// The underline shapes a terminal can draw.
#[derive(Clone, Copy, Debug, PartialEq, Eq, Structural)]
pub enum UnderlineStyle {
    Single,
    Double,
    Curly,
    Dotted,
    Dashed,
}

/// Text weight.
#[derive(Clone, Copy, Debug, PartialEq, Eq, Structural)]
pub enum Intensity {
    Faint,
    Normal,
    Bold,
}

/// Blink cadence.
#[derive(Clone, Copy, Debug, PartialEq, Eq, Structural)]
pub enum BlinkSpeed {
    Rapid,
    Slow,
}

/// The absence of any style information.
#[derive(Clone, Copy, Debug, PartialEq, Eq, Structural)]
pub struct Untagged;

/// Where the ellipsis glyph goes when text is truncated: at the start of
/// the visible text, in its middle, or at its end.
#[derive(Clone, Copy, Debug, PartialEq, Eq, Structural)]
pub enum EllipsisPosition {
    Left,
    Center,
    Right,
}

/// The tag a cell carries: the style of the segment the cell came from,
/// or the distinct overflow marker the ellipsis glyph is painted with.
#[derive(Clone, Copy, Debug, PartialEq, Eq)]
pub enum TextTag {
    Segment(Ansi),
    Ellipsis(EllipsisPosition),
}

impl TextTag {
    /// The style this tag resolves to: an ellipsis marker renders plain.
    pub open spec fn resolved_spec(self) -> Ansi {
        match self {
            TextTag::Segment(a) => a,
            TextTag::Ellipsis(_) => Ansi::plain_spec(),
        }
    }

    /// The style this tag resolves to: an ellipsis marker renders plain.
    pub fn resolved(&self) -> (r: Ansi)
        ensures
            r == self.resolved_spec(),
    {
        match self {
            TextTag::Segment(a) => *a,
            TextTag::Ellipsis(_) => Ansi::plain(),
        }
    }
}

/// A complete per-cell style: every axis the encoder diffs.
#[derive(Clone, Copy, Debug, PartialEq, Eq)]
pub struct Ansi {
    pub ansi8_fg: Option<Ansi8Color>,
    pub ansi16_fg: Option<Ansi16Color>,
    pub ansi256_fg: Option<Ansi256Color>,
    pub true_fg: Option<TrueColor>,
    pub ansi8_bg: Option<Ansi8Color>,
    pub ansi16_bg: Option<Ansi16Color>,
    pub ansi256_bg: Option<Ansi256Color>,
    pub true_bg: Option<TrueColor>,
    pub underline: Option<UnderlineStyle>,
    pub ansi256_underline: Option<Ansi256Color>,
    pub true_underline: Option<TrueColor>,
    pub intensity: Intensity,
    pub blink: Option<BlinkSpeed>,
    pub italic: bool,
    pub concealed: bool,
    pub strikethrough: bool,
}

impl Ansi {
    /// A completely unstyled tag.
    pub fn new() -> (r: Self)
        ensures
            r == Ansi::plain_spec(),
    {
        Ansi {
            ansi8_fg: None,
            ansi16_fg: None,
            ansi256_fg: None,
            true_fg: None,
            ansi8_bg: None,
            ansi16_bg: None,
            ansi256_bg: None,
            true_bg: None,
            underline: None,
            ansi256_underline: None,
            true_underline: None,
            intensity: Intensity::Normal,
            blink: None,
            italic: false,
            concealed: false,
            strikethrough: false,
        }
    }

    pub open spec fn plain_spec() -> Ansi {
        Ansi {
            ansi8_fg: None,
            ansi16_fg: None,
            ansi256_fg: None,
            true_fg: None,
            ansi8_bg: None,
            ansi16_bg: None,
            ansi256_bg: None,
            true_bg: None,
            underline: None,
            ansi256_underline: None,
            true_underline: None,
            intensity: Intensity::Normal,
            blink: None,
            italic: false,
            concealed: false,
            strikethrough: false,
        }
    }

    /// A completely unstyled tag.
    pub fn plain() -> (r: Self)
        ensures
            r == Ansi::plain_spec(),
    {
        Self::new()
    }

    pub fn fg8(self, color: Ansi8Color) -> (r: Self)
        ensures
            r == (Ansi { ansi8_fg: Some(color), ..self }),
    {
        Ansi { ansi8_fg: Some(color), ..self }
    }

    pub fn fg16(self, color: Ansi16Color) -> (r: Self)
        ensures
            r == (Ansi { ansi16_fg: Some(color), ..self }),
    {
        Ansi { ansi16_fg: Some(color), ..self }
    }

    pub fn fg256(self, color: Ansi256Color) -> (r: Self)
        ensures
            r == (Ansi { ansi256_fg: Some(color), ..self }),
    {
        Ansi { ansi256_fg: Some(color), ..self }
    }

    pub fn fg_true(self, color: TrueColor) -> (r: Self)
        ensures
            r == (Ansi { true_fg: Some(color), ..self }),
    {
        Ansi { true_fg: Some(color), ..self }
    }

    pub fn bg8(self, color: Ansi8Color) -> (r: Self)
        ensures
            r == (Ansi { ansi8_bg: Some(color), ..self }),
    {
        Ansi { ansi8_bg: Some(color), ..self }
    }

    pub fn bg16(self, color: Ansi16Color) -> (r: Self)
        ensures
            r == (Ansi { ansi16_bg: Some(color), ..self }),
    {
        Ansi { ansi16_bg: Some(color), ..self }
    }

    pub fn bg256(self, color: Ansi256Color) -> (r: Self)
        ensures
            r == (Ansi { ansi256_bg: Some(color), ..self }),
    {
        Ansi { ansi256_bg: Some(color), ..self }
    }

    pub fn bg_true(self, color: TrueColor) -> (r: Self)
        ensures
            r == (Ansi { true_bg: Some(color), ..self }),
    {
        Ansi { true_bg: Some(color), ..self }
    }

    pub fn underline(self, style: UnderlineStyle) -> (r: Self)
        ensures
            r == (Ansi { underline: Some(style), ..self }),
    {
        Ansi { underline: Some(style), ..self }
    }

    pub fn underline_256(self, color: Ansi256Color) -> (r: Self)
        ensures
            r == (Ansi { ansi256_underline: Some(color), ..self }),
    {
        Ansi { ansi256_underline: Some(color), ..self }
    }

    pub fn underline_true(self, color: TrueColor) -> (r: Self)
        ensures
            r == (Ansi { true_underline: Some(color), ..self }),
    {
        Ansi { true_underline: Some(color), ..self }
    }

    pub fn intensity(self, intensity: Intensity) -> (r: Self)
        ensures
            r == (Ansi { intensity: intensity, ..self }),
    {
        Ansi { intensity: intensity, ..self }
    }

    pub fn blink(self, speed: BlinkSpeed) -> (r: Self)
        ensures
            r == (Ansi { blink: Some(speed), ..self }),
    {
        Ansi { blink: Some(speed), ..self }
    }

    pub fn italic(self, value: bool) -> (r: Self)
        ensures
            r == (Ansi { italic: value, ..self }),
    {
        Ansi { italic: value, ..self }
    }

    pub fn concealed(self, value: bool) -> (r: Self)
        ensures
            r == (Ansi { concealed: value, ..self }),
    {
        Ansi { concealed: value, ..self }
    }

    pub fn strikethrough(self, value: bool) -> (r: Self)
        ensures
            r == (Ansi { strikethrough: value, ..self }),
    {
        Ansi { strikethrough: value, ..self }
    }

    pub fn bold(self) -> (r: Self)
        ensures
            r == (Ansi { intensity: Intensity::Bold, ..self }),
    {
        self.intensity(Intensity::Bold)
    }

    pub fn faint(self) -> (r: Self)
        ensures
            r == (Ansi { intensity: Intensity::Faint, ..self }),
    {
        self.intensity(Intensity::Faint)
    }

    pub fn no_blink(self) -> (r: Self)
        ensures
            r == (Ansi { blink: None, ..self }),
    {
        Ansi { blink: None, ..self }
    }

    pub fn black(self) -> (r: Self)
        ensures
            r == (Ansi {
                ansi8_fg: Some(Ansi8Color::Black),
                ansi16_fg: Some(Ansi16Color::Normal(Ansi8Color::Black)),
                ..self
            }),
    {
        self.fg8(Ansi8Color::Black).fg16(Ansi16Color::Normal(Ansi8Color::Black))
    }

    pub fn red(self) -> (r: Self)
        ensures
            r == (Ansi {
                ansi8_fg: Some(Ansi8Color::Red),
                ansi16_fg: Some(Ansi16Color::Normal(Ansi8Color::Red)),
                ..self
            }),
    {
        self.fg8(Ansi8Color::Red).fg16(Ansi16Color::Normal(Ansi8Color::Red))
    }

    pub fn green(self) -> (r: Self)
        ensures
            r == (Ansi {
                ansi8_fg: Some(Ansi8Color::Green),
                ansi16_fg: Some(Ansi16Color::Normal(Ansi8Color::Green)),
                ..self
            }),
    {
        self.fg8(Ansi8Color::Green).fg16(Ansi16Color::Normal(Ansi8Color::Green))
    }

    pub fn yellow(self) -> (r: Self)
        ensures
            r == (Ansi {
                ansi8_fg: Some(Ansi8Color::Yellow),
                ansi16_fg: Some(Ansi16Color::Normal(Ansi8Color::Yellow)),
                ..self
            }),
    {
        self.fg8(Ansi8Color::Yellow).fg16(Ansi16Color::Normal(Ansi8Color::Yellow))
    }

    pub fn blue(self) -> (r: Self)
        ensures
            r == (Ansi {
                ansi8_fg: Some(Ansi8Color::Blue),
                ansi16_fg: Some(Ansi16Color::Normal(Ansi8Color::Blue)),
                ..self
            }),
    {
        self.fg8(Ansi8Color::Blue).fg16(Ansi16Color::Normal(Ansi8Color::Blue))
    }

    pub fn magenta(self) -> (r: Self)
        ensures
            r == (Ansi {
                ansi8_fg: Some(Ansi8Color::Magenta),
                ansi16_fg: Some(Ansi16Color::Normal(Ansi8Color::Magenta)),
                ..self
            }),
    {
        self.fg8(Ansi8Color::Magenta).fg16(Ansi16Color::Normal(Ansi8Color::Magenta))
    }

    pub fn cyan(self) -> (r: Self)
        ensures
            r == (Ansi {
                ansi8_fg: Some(Ansi8Color::Cyan),
                ansi16_fg: Some(Ansi16Color::Normal(Ansi8Color::Cyan)),
                ..self
            }),
    {
        self.fg8(Ansi8Color::Cyan).fg16(Ansi16Color::Normal(Ansi8Color::Cyan))
    }

    pub fn white(self) -> (r: Self)
        ensures
            r == (Ansi {
                ansi8_fg: Some(Ansi8Color::White),
                ansi16_fg: Some(Ansi16Color::Normal(Ansi8Color::White)),
                ..self
            }),
    {
        self.fg8(Ansi8Color::White).fg16(Ansi16Color::Normal(Ansi8Color::White))
    }

    pub fn bright_black(self) -> (r: Self)
        ensures
            r == (Ansi { ansi16_fg: Some(Ansi16Color::Bright(Ansi8Color::Black)), ..self }),
    {
        self.fg16(Ansi16Color::Bright(Ansi8Color::Black))
    }

    pub fn bright_red(self) -> (r: Self)
        ensures
            r == (Ansi { ansi16_fg: Some(Ansi16Color::Bright(Ansi8Color::Red)), ..self }),
    {
        self.fg16(Ansi16Color::Bright(Ansi8Color::Red))
    }

    pub fn bright_green(self) -> (r: Self)
        ensures
            r == (Ansi { ansi16_fg: Some(Ansi16Color::Bright(Ansi8Color::Green)), ..self }),
    {
        self.fg16(Ansi16Color::Bright(Ansi8Color::Green))
    }

    pub fn bright_yellow(self) -> (r: Self)
        ensures
            r == (Ansi { ansi16_fg: Some(Ansi16Color::Bright(Ansi8Color::Yellow)), ..self }),
    {
        self.fg16(Ansi16Color::Bright(Ansi8Color::Yellow))
    }

    pub fn bright_blue(self) -> (r: Self)
        ensures
            r == (Ansi { ansi16_fg: Some(Ansi16Color::Bright(Ansi8Color::Blue)), ..self }),
    {
        self.fg16(Ansi16Color::Bright(Ansi8Color::Blue))
    }

    pub fn bright_magenta(self) -> (r: Self)
        ensures
            r == (Ansi { ansi16_fg: Some(Ansi16Color::Bright(Ansi8Color::Magenta)), ..self }),
    {
        self.fg16(Ansi16Color::Bright(Ansi8Color::Magenta))
    }

    pub fn bright_cyan(self) -> (r: Self)
        ensures
            r == (Ansi { ansi16_fg: Some(Ansi16Color::Bright(Ansi8Color::Cyan)), ..self }),
    {
        self.fg16(Ansi16Color::Bright(Ansi8Color::Cyan))
    }

    pub fn bright_white(self) -> (r: Self)
        ensures
            r == (Ansi { ansi16_fg: Some(Ansi16Color::Bright(Ansi8Color::White)), ..self }),
    {
        self.fg16(Ansi16Color::Bright(Ansi8Color::White))
    }

    pub fn bg_black(self) -> (r: Self)
        ensures
            r == (Ansi {
                ansi8_bg: Some(Ansi8Color::Black),
                ansi16_bg: Some(Ansi16Color::Normal(Ansi8Color::Black)),
                ..self
            }),
    {
        self.bg8(Ansi8Color::Black).bg16(Ansi16Color::Normal(Ansi8Color::Black))
    }

    pub fn bg_red(self) -> (r: Self)
        ensures
            r == (Ansi {
                ansi8_bg: Some(Ansi8Color::Red),
                ansi16_bg: Some(Ansi16Color::Normal(Ansi8Color::Red)),
                ..self
            }),
    {
        self.bg8(Ansi8Color::Red).bg16(Ansi16Color::Normal(Ansi8Color::Red))
    }

    pub fn bg_green(self) -> (r: Self)
        ensures
            r == (Ansi {
                ansi8_bg: Some(Ansi8Color::Green),
                ansi16_bg: Some(Ansi16Color::Normal(Ansi8Color::Green)),
                ..self
            }),
    {
        self.bg8(Ansi8Color::Green).bg16(Ansi16Color::Normal(Ansi8Color::Green))
    }

    pub fn bg_yellow(self) -> (r: Self)
        ensures
            r == (Ansi {
                ansi8_bg: Some(Ansi8Color::Yellow),
                ansi16_bg: Some(Ansi16Color::Normal(Ansi8Color::Yellow)),
                ..self
            }),
    {
        self.bg8(Ansi8Color::Yellow).bg16(Ansi16Color::Normal(Ansi8Color::Yellow))
    }

    pub fn bg_blue(self) -> (r: Self)
        ensures
            r == (Ansi {
                ansi8_bg: Some(Ansi8Color::Blue),
                ansi16_bg: Some(Ansi16Color::Normal(Ansi8Color::Blue)),
                ..self
            }),
    {
        self.bg8(Ansi8Color::Blue).bg16(Ansi16Color::Normal(Ansi8Color::Blue))
    }

    pub fn bg_magenta(self) -> (r: Self)
        ensures
            r == (Ansi {
                ansi8_bg: Some(Ansi8Color::Magenta),
                ansi16_bg: Some(Ansi16Color::Normal(Ansi8Color::Magenta)),
                ..self
            }),
    {
        self.bg8(Ansi8Color::Magenta).bg16(Ansi16Color::Normal(Ansi8Color::Magenta))
    }

    pub fn bg_cyan(self) -> (r: Self)
        ensures
            r == (Ansi {
                ansi8_bg: Some(Ansi8Color::Cyan),
                ansi16_bg: Some(Ansi16Color::Normal(Ansi8Color::Cyan)),
                ..self
            }),
    {
        self.bg8(Ansi8Color::Cyan).bg16(Ansi16Color::Normal(Ansi8Color::Cyan))
    }

    pub fn bg_white(self) -> (r: Self)
        ensures
            r == (Ansi {
                ansi8_bg: Some(Ansi8Color::White),
                ansi16_bg: Some(Ansi16Color::Normal(Ansi8Color::White)),
                ..self
            }),
    {
        self.bg8(Ansi8Color::White).bg16(Ansi16Color::Normal(Ansi8Color::White))
    }

    pub fn bg_bright_black(self) -> (r: Self)
        ensures
            r == (Ansi { ansi16_bg: Some(Ansi16Color::Bright(Ansi8Color::Black)), ..self }),
    {
        self.bg16(Ansi16Color::Bright(Ansi8Color::Black))
    }

    pub fn bg_bright_red(self) -> (r: Self)
        ensures
            r == (Ansi { ansi16_bg: Some(Ansi16Color::Bright(Ansi8Color::Red)), ..self }),
    {
        self.bg16(Ansi16Color::Bright(Ansi8Color::Red))
    }

    pub fn bg_bright_green(self) -> (r: Self)
        ensures
            r == (Ansi { ansi16_bg: Some(Ansi16Color::Bright(Ansi8Color::Green)), ..self }),
    {
        self.bg16(Ansi16Color::Bright(Ansi8Color::Green))
    }

    pub fn bg_bright_yellow(self) -> (r: Self)
        ensures
            r == (Ansi { ansi16_bg: Some(Ansi16Color::Bright(Ansi8Color::Yellow)), ..self }),
    {
        self.bg16(Ansi16Color::Bright(Ansi8Color::Yellow))
    }

    pub fn bg_bright_blue(self) -> (r: Self)
        ensures
            r == (Ansi { ansi16_bg: Some(Ansi16Color::Bright(Ansi8Color::Blue)), ..self }),
    {
        self.bg16(Ansi16Color::Bright(Ansi8Color::Blue))
    }

    pub fn bg_bright_magenta(self) -> (r: Self)
        ensures
            r == (Ansi { ansi16_bg: Some(Ansi16Color::Bright(Ansi8Color::Magenta)), ..self }),
    {
        self.bg16(Ansi16Color::Bright(Ansi8Color::Magenta))
    }

    pub fn bg_bright_cyan(self) -> (r: Self)
        ensures
            r == (Ansi { ansi16_bg: Some(Ansi16Color::Bright(Ansi8Color::Cyan)), ..self }),
    {
        self.bg16(Ansi16Color::Bright(Ansi8Color::Cyan))
    }

    pub fn bg_bright_white(self) -> (r: Self)
        ensures
            r == (Ansi { ansi16_bg: Some(Ansi16Color::Bright(Ansi8Color::White)), ..self }),
    {
        self.bg16(Ansi16Color::Bright(Ansi8Color::White))
    }
}

} // verus!
