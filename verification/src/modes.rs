//! The modes of the editor, and how each shows the cursor.

use vstd::prelude::*;

verus! {

#[derive(Debug, Clone, Copy, PartialEq, Eq, Structural)]
pub enum EditorMode {
    Normal,
    Insert,
    Visual,
    Command,
}

#[derive(Debug, Clone, Copy, PartialEq, Eq, Structural)]
pub enum CursorStyle {
    Block,
    Line,
    Underline,
}

impl EditorMode {
    /// The name of the mode as the status line shows it.
    pub open spec fn label(self) -> Seq<char> {
        match self {
            EditorMode::Normal => "NORMAL"@,
            EditorMode::Insert => "INSERT"@,
            EditorMode::Visual => "VISUAL"@,
            EditorMode::Command => "COMMAND"@,
        }
    }

    /// A block where keys are commands, a line where they are text.
    pub open spec fn cursor_style(self) -> CursorStyle {
        match self {
            EditorMode::Normal | EditorMode::Visual => CursorStyle::Block,
            EditorMode::Insert | EditorMode::Command => CursorStyle::Line,
        }
    }

    pub fn to_string(&self) -> (name: &'static str)
        ensures
            name@ == self.label(),
    {
        match self {
            EditorMode::Normal => "NORMAL",
            EditorMode::Insert => "INSERT",
            EditorMode::Visual => "VISUAL",
            EditorMode::Command => "COMMAND",
        }
    }

    pub fn get_cursor_style(&self) -> (style: CursorStyle)
        ensures
            style == self.cursor_style(),
    {
        match self {
            EditorMode::Normal => CursorStyle::Block,
            EditorMode::Insert => CursorStyle::Line,
            EditorMode::Visual => CursorStyle::Block,
            EditorMode::Command => CursorStyle::Line,
        }
    }
}

/// What a mode of an editor built on this library has to tell.
pub trait Mode {
    fn name(&self) -> &'static str;

    fn cursor_style(&self) -> CursorStyle;
}

} // verus!
