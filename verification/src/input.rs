//! Terminal input as plain values: keys, modifiers and events.
use vstd::prelude::*;

verus! {

/// Which key was pressed.
#[derive(Clone, Copy, PartialEq, Eq, Structural, Debug)]
pub enum KeyCode {
    Char(char),
    Enter,
    Tab,
    BackTab,
    Esc,
    Left,
    Right,
    Up,
    Down,
    Home,
    End,
    PageUp,
    PageDown,
    Backspace,
    Delete,
    Other,
}

/// Modifier keys held during a key press.
#[derive(Clone, Copy, PartialEq, Eq, Structural, Debug)]
pub struct KeyModifiers {
    pub control: bool,
    pub alt: bool,
    pub shift: bool,
}

impl KeyModifiers {
    /// No modifier held.
    pub fn none() -> (m: KeyModifiers)
        ensures
            !m.control && !m.alt && !m.shift,
    {
        KeyModifiers { control: false, alt: false, shift: false }
    }

    /// Only Control held.
    pub fn control() -> (m: KeyModifiers)
        ensures
            m.control && !m.alt && !m.shift,
    {
        KeyModifiers { control: true, alt: false, shift: false }
    }
}

/// A key press or release.
#[derive(Clone, Copy, PartialEq, Eq, Structural, Debug)]
pub struct KeyEvent {
    pub code: KeyCode,
    pub modifiers: KeyModifiers,
    pub release: bool,
}

impl KeyEvent {
    /// A press of `code` with `modifiers`.
    pub fn new(code: KeyCode, modifiers: KeyModifiers) -> (k: KeyEvent)
        ensures
            k.code == code,
            k.modifiers == modifiers,
            !k.release,
    {
        KeyEvent { code, modifiers, release: false }
    }

    /// A press of `code` with no modifier.
    pub fn plain(code: KeyCode) -> (k: KeyEvent)
        ensures
            k.code == code,
            !k.modifiers.control && !k.modifiers.alt && !k.modifiers.shift,
            !k.release,
    {
        KeyEvent { code, modifiers: KeyModifiers::none(), release: false }
    }
}

/// Terminal events the application reacts to.
#[derive(Clone, Debug)]
pub enum Event {
    Key(KeyEvent),
    Paste(String),
    FocusLost,
    Other,
}

} // verus!
