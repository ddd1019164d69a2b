//! Key presses, as the editor reads them.

use vstd::prelude::*;

verus! {

#[derive(Debug, Clone, Copy, PartialEq, Eq, Structural)]
pub enum KeyCode {
    Char(char),
    Enter,
    Esc,
    Backspace,
    Delete,
    Tab,
    Up,
    Down,
    Left,
    Right,
    Home,
    End,
    PageUp,
    PageDown,
    /// Any key the editor has no use for.
    Other,
}

#[derive(Debug, Clone, Copy, PartialEq, Eq, Structural)]
pub struct KeyEvent {
    pub code: KeyCode,
    /// The control key was held down.
    pub control: bool,
}

impl KeyEvent {
    /// The key `code`, pressed alone.
    pub fn new(code: KeyCode) -> (key: KeyEvent)
        ensures
            key == (KeyEvent { code, control: false }),
    {
        KeyEvent { code, control: false }
    }

    /// The key `code`, pressed with the control key.
    pub fn with_control(code: KeyCode) -> (key: KeyEvent)
        ensures
            key == (KeyEvent { code, control: true }),
    {
        KeyEvent { code, control: true }
    }
}

} // verus!
