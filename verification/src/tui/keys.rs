//! Key presses as the views see them.
use vstd::prelude::*;

verus! {

/// The key of a key press.
#[derive(Debug, Clone, Copy, PartialEq, Eq, Structural)]
pub enum KeyCode {
    /// A character key.
    Char(char),
    /// A function key, `F(1)` for F1.
    F(u8),
    Enter,
    Esc,
    Backspace,
    Tab,
    Up,
    Down,
    Left,
    Right,
    /// Any other key.
    Other,
}

/// A key press with the state of the Control modifier.
#[derive(Debug, Clone, Copy, PartialEq, Eq, Structural)]
pub struct KeyEvent {
    pub code: KeyCode,
    pub control: bool,
}

impl KeyEvent {
    /// A key press of `code`, with Control held when `control` is set.
    pub fn new(code: KeyCode, control: bool) -> (k: Self)
        ensures
            k.code == code,
            k.control == control,
    {
        KeyEvent { code, control }
    }
}

} // verus!
