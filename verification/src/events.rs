//! Key events, and the movements that the navigation keys stand for.

use vstd::prelude::*;

verus! {

/// The key that was pressed.
#[derive(Debug, Clone, Copy, PartialEq, Eq, Structural, Hash)]
pub enum KeyCode {
    Backspace,
    Enter,
    Left,
    Right,
    Up,
    Down,
    Home,
    End,
    PageUp,
    PageDown,
    Tab,
    BackTab,
    Delete,
    Insert,
    F(u8),
    Char(char),
    Null,
    Esc,
}

/// The modifier keys held down with a key.
#[derive(Debug, Clone, Copy, PartialEq, Eq, Structural, Hash)]
pub struct KeyModifiers {
    pub shift: bool,
    pub control: bool,
    pub alt: bool,
}

impl KeyModifiers {
    /// No modifier key.
    pub fn empty() -> (modifiers: KeyModifiers)
        ensures
            modifiers == (KeyModifiers { shift: false, control: false, alt: false }),
    {
        KeyModifiers { shift: false, control: false, alt: false }
    }
}

/// A key press.
#[derive(Debug, Clone, Copy, PartialEq, Eq, Structural, Hash)]
pub struct KeyEvent {
    pub code: KeyCode,
    pub modifiers: KeyModifiers,
}

impl KeyEvent {
    pub fn new(code: KeyCode, modifiers: KeyModifiers) -> (key: KeyEvent)
        ensures
            key == (KeyEvent { code, modifiers }),
    {
        KeyEvent { code, modifiers }
    }

    /// What [`is_interrupt`](KeyEvent::is_interrupt) computes.
    pub open spec fn spec_is_interrupt(self) -> bool {
        self.code == KeyCode::Char('c') && self.modifiers.control
    }

    /// Whether this is `c` with the control key held down.
    pub fn is_interrupt(&self) -> (b: bool)
        ensures
            b == self.spec_is_interrupt(),
    {
        match self.code {
            KeyCode::Char(c) => c == 'c' && self.modifiers.control,
            _ => false,
        }
    }
}

/// A movement within a list.
#[derive(Debug, Clone, Copy, PartialEq, Eq, Structural, Hash)]
pub enum Movement {
    Up,
    Down,
    PageUp,
    PageDown,
    Home,
    End,
}

impl Movement {
    /// The movement that a key stands for: each of the six navigation keys
    /// stands for the movement of its name, whatever modifiers are held, and no
    /// other key stands for any.
    pub open spec fn of_key(key: KeyEvent) -> Option<Movement> {
        match key.code {
            KeyCode::Up => Some(Movement::Up),
            KeyCode::Down => Some(Movement::Down),
            KeyCode::PageUp => Some(Movement::PageUp),
            KeyCode::PageDown => Some(Movement::PageDown),
            KeyCode::Home => Some(Movement::Home),
            KeyCode::End => Some(Movement::End),
            _ => None,
        }
    }

    pub fn try_from_key(key: KeyEvent) -> (movement: Option<Movement>)
        ensures
            movement == Movement::of_key(key),
    {
        match key.code {
            KeyCode::Up => Some(Movement::Up),
            KeyCode::Down => Some(Movement::Down),
            KeyCode::PageUp => Some(Movement::PageUp),
            KeyCode::PageDown => Some(Movement::PageDown),
            KeyCode::Home => Some(Movement::Home),
            KeyCode::End => Some(Movement::End),
            _ => None,
        }
    }
}

} // verus!
