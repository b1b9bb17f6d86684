//! The visible state of one terminal grid position: a glyph together with a
//! foreground color, a background color, and a set of text attributes.

use vstd::prelude::*;

verus! {

/// A terminal color. Values are compared by equality only; what each one
/// looks like is the terminal's business.
#[derive(Clone, Copy, PartialEq, Eq, Structural, Debug)]
pub enum Color {
    Black,
    DarkRed,
    DarkGreen,
    DarkYellow,
    DarkBlue,
    DarkMagenta,
    DarkCyan,
    Grey,
    DarkGrey,
    Red,
    Green,
    Yellow,
    Blue,
    Magenta,
    Cyan,
    White,
}

/// A set of text attributes. Only the reset (plain) state is used by the
/// renderer today; the variants exist so that a cell can carry emphasis.
#[derive(Clone, Copy, PartialEq, Eq, Structural, Debug)]
pub enum AttrSet {
    Reset,
    Bold,
    Underlined,
    Reverse,
}

/// One screen position's visible state: glyph, colors and attributes.
/// A plain value type, compared field by field.
#[derive(Clone, Copy, PartialEq, Eq, Structural, Debug)]
pub struct Cell {
    pub ch: char,
    pub fg: Color,
    pub bg: Color,
    pub attr: AttrSet,
}

/// The cell a fresh buffer is filled with: a space in the default colors.
pub open spec fn default_cell() -> Cell {
    Cell { ch: ' ', fg: Color::White, bg: Color::Black, attr: AttrSet::Reset }
}

impl Cell {
    /// The default cell: space glyph, white on black, no attributes.
    pub fn default() -> (c: Cell)
        ensures
            c == default_cell(),
    {
        Cell { ch: ' ', fg: Color::White, bg: Color::Black, attr: AttrSet::Reset }
    }
}

} // verus!
