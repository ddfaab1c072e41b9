//! Which widget has keyboard focus.
use vstd::prelude::*;

use crate::pointer::id_view;
use crate::WidgetId;

verus! {

/// Tracks which widget currently has keyboard focus: at most one widget at a
/// time, or none.
#[derive(Debug, Clone, Copy, PartialEq, Eq)]
pub struct Focus {
    pub id: Option<WidgetId>,
}

impl Focus {
    /// Focus on widget `id`.
    pub fn new(id: WidgetId) -> (r: Self)
        ensures
            r.id == Some(id),
    {
        Self { id: Some(id) }
    }

    /// Moves the focus to `id`, or clears it when `id` is `None`.
    pub fn set(&mut self, id: Option<WidgetId>)
        ensures
            final(self).id == id,
    {
        self.id = id;
    }

    /// Clears the focus.
    pub fn clear(&mut self)
        ensures
            final(self).id is None,
    {
        self.id = None;
    }

    /// Whether widget `id` has the focus.
    pub fn is_focused(&self, id: WidgetId) -> (r: bool)
        ensures
            r == (id_view(self.id) == Some(id@)),
    {
        match self.id {
            Some(f) => f == id,
            None => false,
        }
    }
}

impl Default for Focus {
    /// No widget has the focus.
    fn default() -> (r: Self)
        ensures
            r.id is None,
    {
        Self { id: None }
    }
}

} // verus!
