//! Concrete render styles.

use vstd::prelude::*;
use crate::color::Color;

verus! {

/// A concrete render style: foreground and background color plus three
/// independent boolean modifiers.
#[derive(Clone, Copy, Debug, PartialEq, Eq, Structural)]
pub struct Style {
    pub fg: Color,
    pub bg: Color,
    pub inverted: bool,
    pub bold: bool,
    pub dimmed: bool,
}

/// The neutral style: both colors inherit the terminal's own and every
/// modifier is off.
pub open spec fn spec_neutral_style() -> Style {
    Style { fg: Color::Default, bg: Color::Default, inverted: false, bold: false, dimmed: false }
}

/// The neutral style with only the `dimmed` modifier set.
pub open spec fn spec_dimmed_style() -> Style {
    Style { fg: Color::Default, bg: Color::Default, inverted: false, bold: false, dimmed: true }
}

impl Default for Style {
    /// The neutral style.
    fn default() -> (r: Self)
        ensures
            r == spec_neutral_style(),
    {
        Style { fg: Color::Default, bg: Color::Default, inverted: false, bold: false, dimmed: false }
    }
}

} // verus!
