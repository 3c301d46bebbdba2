//! Keyboard input, reduced to what the pages react to.

use vstd::prelude::*;

verus! {

/// The key that was pressed.
#[derive(Clone, Copy, Debug, PartialEq, Eq, Structural)]
pub enum KeyCode {
    Up,
    Down,
    Enter,
    Char(char),
    Other,
}

/// A key press, with whether the control modifier was held.
#[derive(Clone, Copy, Debug, PartialEq, Eq, Structural)]
pub struct KeyEvent {
    pub code: KeyCode,
    pub ctrl: bool,
}

/// A terminal event: a key press, or anything else (resize, mouse, focus).
#[derive(Clone, Copy, Debug, PartialEq, Eq, Structural)]
pub enum InputEvent {
    Key(KeyEvent),
    Other,
}

/// The key code of a key event, if the event is one.
pub open spec fn key_code(event: InputEvent) -> Option<KeyCode> {
    match event {
        InputEvent::Key(k) => Some(k.code),
        InputEvent::Other => None,
    }
}

/// Control-C ends the program.
pub open spec fn is_quit_event(event: InputEvent) -> bool {
    match event {
        InputEvent::Key(k) => k.code == KeyCode::Char('c') && k.ctrl,
        InputEvent::Other => false,
    }
}

/// Whether `event` asks the program to exit: `c` pressed with control.
pub fn is_quit(event: InputEvent) -> (r: bool)
    ensures
        r == is_quit_event(event),
{
    match event {
        InputEvent::Key(k) => match k.code {
            KeyCode::Char(c) => c == 'c' && k.ctrl,
            _ => false,
        },
        InputEvent::Other => false,
    }
}

} // verus!
