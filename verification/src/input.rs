use vstd::prelude::*;

verus! {

/// The keys that the components react to; every other key is `Other`.
#[derive(Clone, Copy, Debug, PartialEq, Eq, Structural)]
pub enum KeyCode {
    Left,
    Right,
    Up,
    Down,
    Tab,
    Backspace,
    Enter,
    Esc,
    Char(char),
    Other,
}

/// A key press: its code and whether Control was held.
#[derive(Clone, Copy, Debug, PartialEq, Eq, Structural)]
pub struct KeyInput {
    pub code: KeyCode,
    pub control: bool,
}

impl KeyInput {
    /// A key press without modifiers.
    pub fn plain(code: KeyCode) -> (r: KeyInput)
        ensures
            r.code == code,
            !r.control,
    {
        KeyInput { code, control: false }
    }

    /// A key press with Control held.
    pub fn with_control(code: KeyCode) -> (r: KeyInput)
        ensures
            r.code == code,
            r.control,
    {
        KeyInput { code, control: true }
    }
}

/// A rectangle of the terminal, in cells.
#[derive(Clone, Copy, Debug, PartialEq, Eq, Structural)]
pub struct Area {
    pub x: u16,
    pub y: u16,
    pub width: u16,
    pub height: u16,
}

} // verus!
