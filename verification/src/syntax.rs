//! The result of syntax highlighting: a line as segments of text, each in
//! one style.

use vstd::prelude::*;

verus! {

#[derive(Debug, Clone)]
pub struct HighlightedLine {
    pub segments: Vec<HighlightedSegment>,
}

#[derive(Debug, Clone)]
pub struct HighlightedSegment {
    pub text: String,
    pub style: TextStyle,
}

#[derive(Debug, Clone, Copy)]
pub struct TextStyle {
    /// Red, green and blue.
    pub foreground: (u8, u8, u8),
    pub background: (u8, u8, u8),
    pub bold: bool,
    pub italic: bool,
    pub underline: bool,
}

impl TextStyle {
    /// White on black, without emphasis.
    pub open spec fn plain() -> TextStyle {
        TextStyle {
            foreground: (255, 255, 255),
            background: (0, 0, 0),
            bold: false,
            italic: false,
            underline: false,
        }
    }
}

impl Default for TextStyle {
    fn default() -> (style: TextStyle)
        ensures
            style == TextStyle::plain(),
    {
        TextStyle {
            foreground: (255, 255, 255),
            background: (0, 0, 0),
            bold: false,
            italic: false,
            underline: false,
        }
    }
}

} // verus!
