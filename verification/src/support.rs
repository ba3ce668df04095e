//! The capability descriptor: which color tiers, underline-color tiers
//! and hyperlink support the destination terminal declares. Detection is
//! the caller's business; the encoder only degrades to what is declared.

use vstd::prelude::*;

verus! {

/// How many colors the terminal can show.
#[derive(Clone, Copy, Debug, PartialEq, Eq, Structural)]
pub enum AnsiColorSupport {
    /// No color support; only default foreground/background.
    Monochrome,
    /// The basic 8-color palette.
    Ansi8,
    /// The 16-color palette with bright variants.
    Ansi16,
    /// The 256-color indexed palette.
    Ansi256,
    /// True 24-bit RGB color.
    TrueColor,
}

/// Whether the underline color can be controlled separately.
#[derive(Clone, Copy, Debug, PartialEq, Eq, Structural)]
pub enum AnsiUnderlineColorSupport {
    Unsupported,
    Ansi256,
    TrueColor,
}

/// The full capability descriptor a caller hands to the encoder.
#[derive(Clone, Copy, Debug, PartialEq, Eq, Structural)]
pub struct AnsiSupport {
    pub color: AnsiColorSupport,
    pub underline: AnsiUnderlineColorSupport,
    pub hyperlinks: bool,
}

impl AnsiSupport {
    /// No capabilities at all: plain text only.
    pub fn none() -> (r: Self)
        ensures
            r == (AnsiSupport {
                color: AnsiColorSupport::Monochrome,
                underline: AnsiUnderlineColorSupport::Unsupported,
                hyperlinks: false,
            }),
    {
        AnsiSupport {
            color: AnsiColorSupport::Monochrome,
            underline: AnsiUnderlineColorSupport::Unsupported,
            hyperlinks: false,
        }
    }

    pub fn with_color(self, color: AnsiColorSupport) -> (r: Self)
        ensures
            r == (AnsiSupport { color, ..self }),
    {
        AnsiSupport { color, ..self }
    }

    pub fn with_underline_color(self, color: AnsiUnderlineColorSupport) -> (r: Self)
        ensures
            r == (AnsiSupport { underline: color, ..self }),
    {
        AnsiSupport { underline: color, ..self }
    }

    pub fn with_hyperlinks(self, hyperlinks: bool) -> (r: Self)
        ensures
            r == (AnsiSupport { hyperlinks, ..self }),
    {
        AnsiSupport { hyperlinks, ..self }
    }
}

} // verus!
