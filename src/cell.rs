use vstd::prelude::*;

use crate::color::{Color, Rgb};

verus! {

/// Most zero-width characters that one cell holds beside its base character.
pub const MAX_ZEROWIDTH_CHARS: usize = 5;

/// Attribute bit: foreground and background are drawn swapped.
pub const INVERSE: u16 = 0b0000_0000_0001;
/// Attribute bit: bold text.
pub const BOLD: u16 = 0b0000_0000_0010;
/// Attribute bit: italic text.
pub const ITALIC: u16 = 0b0000_0000_0100;
/// Attribute bit: underlined text.
pub const UNDERLINE: u16 = 0b0000_0000_1000;
/// Attribute bit: the line wraps after this cell.
pub const WRAPLINE: u16 = 0b0000_0001_0000;
/// Attribute bit: a character two columns wide.
pub const WIDE_CHAR: u16 = 0b0000_0010_0000;
/// Attribute bit: the column that follows a wide character.
pub const WIDE_CHAR_SPACER: u16 = 0b0000_0100_0000;
/// Attribute bit: dim text.
pub const DIM: u16 = 0b0000_1000_0000;
/// Attribute bit: text drawn invisible.
pub const HIDDEN: u16 = 0b0001_0000_0000;
/// Attribute bit: struck-out text.
pub const STRIKEOUT: u16 = 0b0010_0000_0000;

/// A set of attribute bits.
#[derive(Debug, Clone, Copy, PartialEq, Eq, Structural, Hash, Default)]
pub struct Flags {
    pub bits: u16,
}

impl Flags {
    pub open spec fn has(self, bit: u16) -> bool {
        self.bits & bit == bit
    }

    /// Whether every bit of `bit` is set.
    pub fn contains(&self, bit: u16) -> (r: bool)
        ensures
            r == self.has(bit),
    {
        self.bits & bit == bit
    }
}

/// One cell of the grid: a base character, its colors and attributes, and the
/// zero-width characters combined with it.
#[derive(Debug, Clone)]
pub struct Cell {
    pub c: char,
    pub fg: Color,
    pub bg: Color,
    pub flags: Flags,
    pub extra: Vec<char>,
}

impl Cell {
    /// A cell holds at most `MAX_ZEROWIDTH_CHARS` zero-width characters.
    pub open spec fn wf(&self) -> bool {
        self.extra@.len() <= MAX_ZEROWIDTH_CHARS
    }

    /// A cell with no zero-width characters.
    pub fn new(c: char, fg: Color, bg: Color, flags: Flags) -> (r: Cell)
        ensures
            r.wf(),
            r.c == c,
            r.fg == fg,
            r.bg == bg,
            r.flags == flags,
            r.extra@ == Seq::<char>::empty(),
    {
        Cell { c, fg, bg, flags, extra: Vec::new() }
    }

    /// Attaches a zero-width character to the base character; once the cell
    /// holds `MAX_ZEROWIDTH_CHARS` of them, further ones are dropped.
    pub fn push_extra(&mut self, c: char)
        requires
            old(self).wf(),
        ensures
            final(self).wf(),
            final(self).c == old(self).c,
            final(self).fg == old(self).fg,
            final(self).bg == old(self).bg,
            final(self).flags == old(self).flags,
            old(self).extra@.len() < MAX_ZEROWIDTH_CHARS ==> final(self).extra@ == old(
                self,
            ).extra@.push(c),
            old(self).extra@.len() == MAX_ZEROWIDTH_CHARS ==> final(self).extra@ == old(
                self,
            ).extra@,
    {
        if self.extra.len() < MAX_ZEROWIDTH_CHARS {
            self.extra.push(c);
        }
    }
}

/// A value together with the grid position it was read from.
#[derive(Debug, Clone)]
pub struct Indexed<T> {
    pub line: usize,
    pub column: usize,
    pub inner: T,
}

/// A grid position.
#[derive(Debug, Clone, Copy, PartialEq, Eq, Structural, Hash)]
pub struct Point {
    pub line: usize,
    pub col: usize,
}

/// The shape a cursor is drawn in.
#[derive(Debug, Clone, Copy, PartialEq, Eq, Structural, Hash)]
pub enum CursorStyle {
    Block,
    Underline,
    Beam,
    HollowBlock,
    Hidden,
}

/// What a cursor's glyph depends on: its shape and whether it covers a wide character.
#[derive(Debug, Clone, Copy, PartialEq, Eq, Structural, Hash)]
pub struct CursorKey {
    pub style: CursorStyle,
    pub is_wide: bool,
}

/// What a cell shows once prepared for drawing.
#[derive(Debug, Clone)]
pub enum RenderableCellContent {
    Chars(Vec<char>),
    Cursor(CursorKey),
}

/// A cell with resolved colors, ready to be drawn.
#[derive(Debug, Clone)]
pub struct RenderableCell {
    pub line: usize,
    pub column: usize,
    pub inner: RenderableCellContent,
    pub fg: Rgb,
    pub bg: Rgb,
    /// Opacity of the background, as the bit pattern of a single-precision float.
    pub bg_alpha: u32,
    pub flags: Flags,
}

} // verus!
