//! The types most programs need, for a glob import.
pub use crate::focus::Focus;
pub use crate::input_event::InputEvent;
pub use crate::keybindings::{DisplayInfo, KeyBinding, Keybindings};
pub use crate::pointer::{Area, Pointer};
pub use crate::WidgetId;
