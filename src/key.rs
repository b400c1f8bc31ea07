use vstd::prelude::*;

verus! {

/// The key of a key event, as far as the menu tells keys apart.
#[derive(Clone, Copy, Debug, PartialEq, Eq, Structural)]
pub enum KeyCode {
    Up,
    Down,
    Left,
    Right,
    Enter,
    Esc,
    Backspace,
    Char(char),
    Other,
}

/// The modifiers held with a key: none, exactly Control, or anything else.
#[derive(Clone, Copy, Debug, PartialEq, Eq, Structural)]
pub enum Modifiers {
    Plain,
    Control,
    Other,
}

/// One key press.
#[derive(Clone, Copy, Debug, PartialEq, Eq, Structural)]
pub struct KeyEvent {
    pub code: KeyCode,
    pub modifiers: Modifiers,
}

impl KeyEvent {
    pub fn new(code: KeyCode, modifiers: Modifiers) -> (r: KeyEvent)
        ensures
            r.code == code,
            r.modifiers == modifiers,
    {
        KeyEvent { code, modifiers }
    }
}

/// What handling a key asks of the interaction loop: whether to end it, and
/// whether the menu must be drawn again.
pub struct KeyResponse(bool, bool);

impl View for KeyResponse {
    type V = (bool, bool);

    closed spec fn view(&self) -> (bool, bool) {
        (self.0, self.1)
    }
}

impl KeyResponse {
    pub fn new(exit: bool, redraw: bool) -> (r: KeyResponse)
        ensures
            r@ == (exit, redraw),
    {
        KeyResponse(exit, redraw)
    }

    pub fn exit(&self) -> (r: bool)
        ensures
            r == self@.0,
    {
        self.0
    }

    pub fn redraw(&self) -> (r: bool)
        ensures
            r == self@.1,
    {
        self.1
    }
}

} // verus!
