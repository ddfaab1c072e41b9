//! Input events as plain values: mouse buttons, mouse event kinds, mouse
//! events and the unified input event.
use vstd::prelude::*;

use crate::keybindings::KeyBinding;

verus! {

/// A mouse button.
#[derive(Debug, Clone, Copy, PartialEq, Eq, Hash)]
pub enum MouseButton {
    Left,
    Right,
    Middle,
}

/// What happened to the mouse.
#[derive(Debug, Clone, Copy, PartialEq, Eq, Hash)]
pub enum MouseEventKind {
    /// A button was pressed.
    Down(MouseButton),
    /// A button was released.
    Up(MouseButton),
    /// The mouse moved while a button was held down.
    Drag(MouseButton),
    /// The mouse moved with no button held.
    Moved,
    ScrollDown,
    ScrollUp,
    ScrollLeft,
    ScrollRight,
}

/// A mouse event at a terminal cell.
#[derive(Debug, Clone, Copy, PartialEq, Eq, Hash)]
pub struct MouseEvent {
    pub kind: MouseEventKind,
    /// The column of the cell.
    pub column: u16,
    /// The row of the cell.
    pub row: u16,
}

/// A unified input event: a key press, a mouse event, or a tick.
#[derive(Debug, Clone, Copy)]
pub enum InputEvent {
    Key(KeyBinding),
    Mouse(MouseEvent),
    Tick,
}

} // verus!
