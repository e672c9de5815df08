//! The input alphabet of the editor: keys and modifiers.

use vstd::prelude::*;

verus! {

/// A key event. `Text` carries a whole, possibly multi-line, string to insert.
#[derive(Eq, PartialEq, Debug, Clone, Copy)]
pub enum InputKey<'a> {
    Left,
    Right,
    Up,
    Down,
    Home,
    End,
    Enter,
    Backspace,
    Del,
    Char(char),
    Text(&'a str),
}

/// The modifier keys held while a key is pressed.
#[derive(Eq, PartialEq, Structural, Debug, Clone, Copy)]
pub struct InputModifiers {
    pub shift: bool,
    pub ctrl: bool,
    pub alt: bool,
}

impl InputModifiers {
    /// No modifier held.
    pub fn none() -> (m: InputModifiers)
        ensures
            m == (InputModifiers { shift: false, ctrl: false, alt: false }),
    {
        InputModifiers { shift: false, ctrl: false, alt: false }
    }

    /// Ctrl held.
    pub fn ctrl() -> (m: InputModifiers)
        ensures
            m == (InputModifiers { shift: false, ctrl: true, alt: false }),
    {
        InputModifiers { shift: false, ctrl: true, alt: false }
    }

    /// Shift held.
    pub fn shift() -> (m: InputModifiers)
        ensures
            m == (InputModifiers { shift: true, ctrl: false, alt: false }),
    {
        InputModifiers { shift: true, ctrl: false, alt: false }
    }

    /// Ctrl and shift held.
    pub fn ctrl_shift() -> (m: InputModifiers)
        ensures
            m == (InputModifiers { shift: true, ctrl: true, alt: false }),
    {
        InputModifiers { shift: true, ctrl: true, alt: false }
    }
}

} // verus!
