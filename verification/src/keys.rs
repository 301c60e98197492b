//! Keys that the user presses.

use vstd::prelude::*;

verus! {

/// A key.
#[derive(Debug, Clone, Copy, PartialEq, Eq, Structural)]
pub enum KeyCode {
    Up,
    Down,
    Left,
    Right,
    Home,
    End,
    PageUp,
    PageDown,
    Enter,
    Esc,
    Tab,
    Backspace,
    Delete,
    Char(char),
    Other,
}

/// A key as it was pressed.
#[derive(Debug, Clone, Copy, PartialEq, Eq, Structural)]
pub struct KeyPress {
    pub code: KeyCode,
    /// The control key was held.
    pub ctrl: bool,
}

/// A key that goes up in a list.
pub open spec fn goes_up(code: KeyCode) -> bool {
    code == KeyCode::Up || code == KeyCode::Char('k') || code == KeyCode::Char('K')
}

/// A key that goes down in a list.
pub open spec fn goes_down(code: KeyCode) -> bool {
    code == KeyCode::Down || code == KeyCode::Char('j') || code == KeyCode::Char('J')
}

/// The key that leaves, in either case.
pub open spec fn is_quit(code: KeyCode) -> bool {
    code == KeyCode::Char('q') || code == KeyCode::Char('Q')
}

impl KeyCode {
    pub fn up(self) -> (r: bool)
        ensures
            r == goes_up(self),
    {
        self == KeyCode::Up || self == KeyCode::Char('k') || self == KeyCode::Char('K')
    }

    pub fn down(self) -> (r: bool)
        ensures
            r == goes_down(self),
    {
        self == KeyCode::Down || self == KeyCode::Char('j') || self == KeyCode::Char('J')
    }

    pub fn quit(self) -> (r: bool)
        ensures
            r == is_quit(self),
    {
        self == KeyCode::Char('q') || self == KeyCode::Char('Q')
    }
}

} // verus!
