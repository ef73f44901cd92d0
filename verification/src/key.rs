//! Key presses as the editor reads them.
use vstd::prelude::*;

verus! {

/// Which key was pressed.
#[derive(Clone, Copy, Debug, PartialEq, Eq, Structural)]
pub enum KeyCode {
    Char(char),
    Backspace,
    Delete,
    Left,
    Right,
    Up,
    Down,
    Home,
    End,
    Enter,
    Esc,
    Tab,
    BackTab,
    /// A function key, by its number.
    F(u8),
    /// Any other key; none of the editor's bindings uses it.
    Other,
}

/// A key press: the key and whether Control was held.
#[derive(Clone, Copy, Debug, PartialEq, Eq, Structural)]
pub struct Key {
    pub code: KeyCode,
    pub ctrl: bool,
}

impl Key {
    /// A press of `code` without Control.
    pub fn plain(code: KeyCode) -> (r: Key)
        ensures
            r == (Key { code, ctrl: false }),
    {
        Key { code, ctrl: false }
    }

    /// A press of `code` with Control held.
    pub fn with_ctrl(code: KeyCode) -> (r: Key)
        ensures
            r == (Key { code, ctrl: true }),
    {
        Key { code, ctrl: true }
    }
}

} // verus!
