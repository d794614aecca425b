use vstd::prelude::*;

use crate::cell::{Flags, BOLD};

verus! {

/// A color as red, green and blue components.
#[derive(Debug, Clone, Copy, PartialEq, Eq, Structural, Hash, Default)]
pub struct Rgb {
    pub r: u8,
    pub g: u8,
    pub b: u8,
}

/// The theme-level colors that a color reference can name.
#[derive(Debug, Clone, Copy, PartialEq, Eq, Structural, Hash)]
pub enum NamedColor {
    Foreground,
    Background,
    Cursor,
}

/// A raw color reference as stored in a grid cell.
#[derive(Debug, Clone, Copy, PartialEq, Eq, Structural, Hash)]
pub enum Color {
    Named(NamedColor),
    Spec(Rgb),
    Indexed(u8),
}

/// Number of entries in the indexed part of a palette.
pub const INDEXED_COLORS: usize = 256;

/// Bit pattern of the single-precision opacity `1.0`.
pub const ALPHA_OPAQUE: u32 = 0x3f80_0000;

/// Bit pattern of the single-precision opacity `0.0`.
pub const ALPHA_TRANSPARENT: u32 = 0;

/// The palette: the indexed colors and the theme colors.
#[derive(Debug, Clone)]
pub struct List {
    pub indexed: Vec<Rgb>,
    pub foreground: Rgb,
    pub background: Rgb,
    pub cursor: Rgb,
}

/// The part of the user configuration that color resolution reads.
#[derive(Debug, Clone, Copy, PartialEq, Eq, Structural)]
pub struct Config {
    /// Background of selected cells, when configured.
    pub selection_background: Option<Rgb>,
    /// Foreground of selected cells, when configured.
    pub selection_text: Option<Rgb>,
    /// Draw bold text of the first eight indexed colors in their bright variant.
    pub draw_bold_text_with_bright_colors: bool,
}

impl List {
    /// A palette holds one color for every index of a `u8`.
    pub open spec fn wf(&self) -> bool {
        self.indexed@.len() == INDEXED_COLORS
    }

    pub open spec fn named_spec(&self, name: NamedColor) -> Rgb {
        match name {
            NamedColor::Foreground => self.foreground,
            NamedColor::Background => self.background,
            NamedColor::Cursor => self.cursor,
        }
    }

    /// The theme color that `name` stands for.
    pub fn named(&self, name: NamedColor) -> (r: Rgb)
        ensures
            r == self.named_spec(name),
    {
        match name {
            NamedColor::Foreground => self.foreground,
            NamedColor::Background => self.background,
            NamedColor::Cursor => self.cursor,
        }
    }
}

/// Base foreground: the palette lookup of `fg`, where bold text of one of the
/// first eight indexed colors takes its bright variant if so configured.
pub open spec fn fg_lookup(config: Config, colors: List, fg: Color, bold: bool) -> Rgb {
    match fg {
        Color::Spec(rgb) => rgb,
        Color::Named(name) => colors.named_spec(name),
        Color::Indexed(i) => if config.draw_bold_text_with_bright_colors && bold && i < 8 {
            colors.indexed@[i + 8]
        } else {
            colors.indexed@[i as int]
        },
    }
}

/// Base background: the palette lookup of `bg`.
pub open spec fn bg_lookup(colors: List, bg: Color) -> Rgb {
    match bg {
        Color::Spec(rgb) => rgb,
        Color::Named(name) => colors.named_spec(name),
        Color::Indexed(i) => colors.indexed@[i as int],
    }
}

/// Base background opacity: transparent for the theme background, so that a
/// backdrop shows through, opaque otherwise.
pub open spec fn bg_alpha_of(bg: Color) -> u32 {
    if bg == Color::Named(NamedColor::Background) {
        ALPHA_TRANSPARENT
    } else {
        ALPHA_OPAQUE
    }
}

/// Looks up the foreground color of a cell.
pub fn compute_fg_rgb(config: &Config, colors: &List, fg: Color, flags: Flags) -> (r: Rgb)
    requires
        colors.wf(),
    ensures
        r == fg_lookup(*config, *colors, fg, flags.has(BOLD)),
{
    match fg {
        Color::Spec(rgb) => rgb,
        Color::Named(name) => colors.named(name),
        Color::Indexed(i) => {
            if config.draw_bold_text_with_bright_colors && flags.contains(BOLD) && i < 8 {
                colors.indexed[i as usize + 8]
            } else {
                colors.indexed[i as usize]
            }
        },
    }
}

/// Looks up the background color of a cell.
pub fn compute_bg_rgb(colors: &List, bg: Color) -> (r: Rgb)
    requires
        colors.wf(),
    ensures
        r == bg_lookup(*colors, bg),
{
    match bg {
        Color::Spec(rgb) => rgb,
        Color::Named(name) => colors.named(name),
        Color::Indexed(i) => colors.indexed[i as usize],
    }
}

/// The background opacity of a cell, as the bit pattern of a single-precision float.
pub fn compute_bg_alpha(bg: Color) -> (r: u32)
    ensures
        r == bg_alpha_of(bg),
{
    match bg {
        Color::Named(NamedColor::Background) => ALPHA_TRANSPARENT,
        _ => ALPHA_OPAQUE,
    }
}

} // verus!
