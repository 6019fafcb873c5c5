//! Colours and text styles carried by decoded segments.

use vstd::prelude::*;

verus! {

/// Foreground colour of a segment.
#[derive(Clone, Copy, Debug, PartialEq, Eq, Structural)]
pub enum Color {
    Default,
    Red,
    Green,
    Yellow,
    Blue,
    Magenta,
    Cyan,
}

/// How a run of text is drawn: one foreground colour and a bold flag.
#[derive(Clone, Copy, Debug, PartialEq, Eq, Structural)]
pub struct Style {
    pub color: Color,
    pub bold: bool,
}

impl Style {
    /// The style of text that no escape code has touched.
    pub open spec fn plain() -> Style {
        Style { color: Color::Default, bold: false }
    }

    /// A non-bold style with the given foreground colour.
    pub open spec fn colored(color: Color) -> Style {
        Style { color, bold: false }
    }

    /// The bold style; it carries no colour.
    pub open spec fn strong() -> Style {
        Style { color: Color::Default, bold: true }
    }
}

impl Default for Style {
    fn default() -> (s: Style)
        ensures
            s == Style::plain(),
    {
        Style { color: Color::Default, bold: false }
    }
}

} // verus!
