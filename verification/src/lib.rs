//! State and event management for terminal user interfaces: widget
//! identifiers, keyboard focus, key binding registries with help display,
//! and pointer areas with hit testing and mouse routing.
use vstd::prelude::*;

pub mod focus;
pub mod id_map;
pub mod input_event;
pub mod keybindings;
pub mod keycode;
pub mod laws;
pub mod layout;
pub mod mouse;
pub mod pointer;
pub mod prelude;
pub mod text;

pub use focus::Focus;
pub use input_event::InputEvent;
pub use keybindings::{DisplayInfo, KeyBinding, Keybindings, Keys};
pub use pointer::{Area, Pointer};

verus! {

/// A unique identifier for a widget in the application.
///
/// Identifiers are compared by the text they hold.
#[derive(Debug, Hash, PartialOrd, Ord)]
pub struct WidgetId(pub &'static str);

impl View for WidgetId {
    type V = Seq<char>;

    open spec fn view(&self) -> Seq<char> {
        self.0@
    }
}

impl Clone for WidgetId {
    fn clone(&self) -> (r: Self)
        ensures
            r@ == self@,
    {
        WidgetId(self.0)
    }
}

impl Copy for WidgetId {}

impl PartialEq for WidgetId {
    fn eq(&self, other: &Self) -> (r: bool) {
        text::str_eq(self.0, other.0)
    }
}

impl vstd::std_specs::cmp::PartialEqSpecImpl for WidgetId {
    open spec fn obeys_eq_spec() -> bool {
        true
    }

    open spec fn eq_spec(&self, other: &Self) -> bool {
        self@ == other@
    }
}

impl Eq for WidgetId {}

impl Default for WidgetId {
    fn default() -> (r: Self)
        ensures
            r@ == Seq::<char>::empty(),
    {
        proof {
            reveal_strlit("");
        }
        WidgetId("")
    }
}

} // verus!
