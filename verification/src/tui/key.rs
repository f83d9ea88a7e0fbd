//! Key presses as the interface reads them.
use vstd::prelude::*;

verus! {

#[derive(Clone, Copy, Debug, PartialEq, Eq, Structural)]
pub enum KeyCode {
    Char(char),
    Enter,
    Backspace,
    Left,
    Right,
    Up,
    Down,
    Esc,
    Tab,
    PageUp,
    PageDown,
    Other,
}

/// A key event: the key, whether Control was held, and whether it is a press
/// (rather than a release or repeat).
#[derive(Clone, Copy, Debug, PartialEq, Eq, Structural)]
pub struct KeyEvent {
    pub code: KeyCode,
    pub ctrl: bool,
    pub press: bool,
}

/// What the terminal reports: a key, pasted text, or something else (such
/// as a resize) that only calls for a redraw.
pub enum InputEvent {
    Key(KeyEvent),
    Paste(String),
    Other,
}

} // verus!
