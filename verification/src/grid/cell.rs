use vstd::prelude::*;

verus! {

/// The sixteen named terminal colours.
#[derive(Debug, Clone, Copy, PartialEq, Eq, Structural)]
pub enum NamedColor {
    Black,
    Red,
    Green,
    Yellow,
    Blue,
    Magenta,
    Cyan,
    White,
    BrightBlack,
    BrightRed,
    BrightGreen,
    BrightYellow,
    BrightBlue,
    BrightMagenta,
    BrightCyan,
    BrightWhite,
}

/// A colour as an escape sequence names it; resolved to a paint when a frame is drawn.
#[derive(Debug, Clone, Copy, PartialEq, Eq, Structural)]
pub enum Color {
    Default,
    Named(NamedColor),
    Indexed(u8),
    Rgb(u8, u8, u8),
}

/// The text attributes of a cell.
#[derive(Debug, Clone, Copy, PartialEq, Eq, Structural)]
pub struct CellFlags {
    pub bold: bool,
    pub dim: bool,
    pub italic: bool,
    pub underline: bool,
    pub inverse: bool,
    pub hidden: bool,
    pub strikethrough: bool,
}

impl CellFlags {
    /// No attribute set.
    pub open spec fn none() -> CellFlags {
        CellFlags {
            bold: false,
            dim: false,
            italic: false,
            underline: false,
            inverse: false,
            hidden: false,
            strikethrough: false,
        }
    }

    pub fn empty() -> (flags: CellFlags)
        ensures
            flags == CellFlags::none(),
    {
        CellFlags {
            bold: false,
            dim: false,
            italic: false,
            underline: false,
            inverse: false,
            hidden: false,
            strikethrough: false,
        }
    }

    /// The weight of one attribute in the bit pattern handed to the shader.
    pub open spec fn weight(set: bool, value: int) -> int {
        if set {
            value
        } else {
            0
        }
    }

    /// The attributes as a bit pattern: bold is bit 0, strikethrough is bit 6.
    pub fn bits(&self) -> (bits: u32)
        ensures
            bits == Self::weight(self.bold, 1) + Self::weight(self.dim, 2) + Self::weight(
                self.italic,
                4,
            ) + Self::weight(self.underline, 8) + Self::weight(self.inverse, 16) + Self::weight(
                self.hidden,
                32,
            ) + Self::weight(self.strikethrough, 64),
    {
        let mut bits: u32 = 0;
        if self.bold {
            bits = bits + 1;
        }
        if self.dim {
            bits = bits + 2;
        }
        if self.italic {
            bits = bits + 4;
        }
        if self.underline {
            bits = bits + 8;
        }
        if self.inverse {
            bits = bits + 16;
        }
        if self.hidden {
            bits = bits + 32;
        }
        if self.strikethrough {
            bits = bits + 64;
        }
        bits
    }
}

/// Foreground, background and text attributes for the characters that follow.
pub type CellAttributes = (Color, Color, CellFlags);

/// One character position of the grid.
#[derive(Debug, Clone, Copy, PartialEq, Eq, Structural)]
pub struct Cell {
    pub ch: char,
    pub fg: Color,
    pub bg: Color,
    pub flags: CellFlags,
}

impl Cell {
    /// The cell that shows `ch` in the default colours without attributes.
    pub open spec fn plain(ch: char) -> Cell {
        Cell { ch, fg: Color::Default, bg: Color::Default, flags: CellFlags::none() }
    }

    /// The empty cell: a space in the default colours.
    pub open spec fn empty() -> Cell {
        Cell::plain(' ')
    }

    pub fn blank() -> (cell: Cell)
        ensures
            cell == Cell::empty(),
    {
        Cell { ch: ' ', fg: Color::Default, bg: Color::Default, flags: CellFlags::empty() }
    }

    pub fn with_char(ch: char) -> (cell: Cell)
        ensures
            cell == Cell::plain(ch),
    {
        Cell { ch, fg: Color::Default, bg: Color::Default, flags: CellFlags::empty() }
    }

    /// Make the cell blank again.
    pub fn reset(&mut self)
        ensures
            *final(self) == Cell::empty(),
    {
        *self = Cell::blank();
    }
}

} // verus!
