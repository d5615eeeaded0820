use vstd::prelude::*;

verus! {

/// Terminal color representation.
#[derive(Debug, Clone, Copy, PartialEq, Eq, Structural)]
pub enum Color {
    Default,
    /// 0-7 standard, 8-15 bright, 16-255 xterm palette.
    Indexed(u8),
    Rgb(u8, u8, u8),
}

/// Character rendition attributes.
#[derive(Debug, Clone, Copy, PartialEq, Eq, Structural)]
pub struct Attrs {
    pub fg: Option<Color>,
    pub bg: Option<Color>,
    pub bold: bool,
    pub italic: bool,
    pub underline: bool,
    pub reverse: bool,
}

/// One terminal cell: glyph + attributes.
#[derive(Debug, Clone, Copy, PartialEq, Eq, Structural)]
pub struct Cell {
    pub ch: char,
    pub attrs: Attrs,
}

/// Tracked DEC private modes (CSI ? n h/l).
#[derive(Debug, Clone, Copy, PartialEq, Eq, Structural)]
pub struct Modes {
    pub mouse_normal: bool,
    pub mouse_button: bool,
    pub mouse_any: bool,
    /// SGR extended mouse coordinates (mode 1006).
    pub mouse_sgr: bool,
    /// Bracketed paste (mode 2004).
    pub bracketed_paste: bool,
    /// Alternate screen buffer active (modes 47/1047/1049).
    pub alt_screen: bool,
    /// Auto-wrap (DECAWM, mode 7). On by default.
    pub autowrap: bool,
}

/// The plain rendition: no colors, no flags.
pub open spec fn default_attrs() -> Attrs {
    Attrs { fg: None, bg: None, bold: false, italic: false, underline: false, reverse: false }
}

/// A space drawn in the plain rendition.
pub open spec fn default_cell() -> Cell {
    Cell { ch: ' ', attrs: default_attrs() }
}

/// Every mode off except auto-wrap.
pub open spec fn default_modes() -> Modes {
    Modes {
        mouse_normal: false,
        mouse_button: false,
        mouse_any: false,
        mouse_sgr: false,
        bracketed_paste: false,
        alt_screen: false,
        autowrap: true,
    }
}

impl Default for Attrs {
    fn default() -> (r: Self)
        ensures
            r == default_attrs(),
    {
        Attrs { fg: None, bg: None, bold: false, italic: false, underline: false, reverse: false }
    }
}

impl Default for Cell {
    fn default() -> (r: Self)
        ensures
            r == default_cell(),
    {
        Cell { ch: ' ', attrs: Attrs::default() }
    }
}

impl Default for Modes {
    fn default() -> (r: Self)
        ensures
            r == default_modes(),
    {
        Modes {
            mouse_normal: false,
            mouse_button: false,
            mouse_any: false,
            mouse_sgr: false,
            bracketed_paste: false,
            alt_screen: false,
            autowrap: true,
        }
    }
}

} // verus!
