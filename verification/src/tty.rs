//! Plain-data model of the terminal surface: key and mouse events and the
//! periodic size samples. The raw terminal reader lives outside the
//! library and hands these values in.

use vstd::prelude::*;

verus! {

/// A single key press.
#[derive(Clone, Copy, Debug, PartialEq, Eq, Structural)]
pub enum Key {
    Backspace,
    Left,
    Right,
    Up,
    Down,
    Home,
    End,
    PageUp,
    PageDown,
    Delete,
    Insert,
    Esc,
    Char(char),
    Alt(char),
    Ctrl(char),
}

/// A mouse button, as reported on a press.
#[derive(Clone, Copy, Debug, PartialEq, Eq, Structural)]
pub enum MouseButton {
    Left,
    Right,
    Middle,
    WheelUp,
    WheelDown,
}

/// A mouse action at a 1-based (column, row) screen coordinate.
#[derive(Clone, Copy, Debug, PartialEq, Eq, Structural)]
pub enum MouseEvent {
    Press(MouseButton, u16, u16),
    Release(u16, u16),
    Hold(u16, u16),
}

/// One terminal input event.
#[derive(Clone, Copy, Debug, PartialEq, Eq, Structural)]
pub enum Event {
    Key(Key),
    Mouse(MouseEvent),
    Unsupported,
}

/// What the terminal feeds into one tick: an input event or a new size.
#[derive(Clone, Copy, Debug, PartialEq, Eq, Structural)]
pub enum TtyEvent {
    Resize(u16, u16),
    Input(Event),
}

} // verus!
