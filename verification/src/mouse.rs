//! Click handlers by widget.
use vstd::prelude::*;

use crate::id_map::IdMap;
use crate::WidgetId;

verus! {

/// Click handlers of widgets, one per widget.
pub struct Mouse<F> {
    handlers: IdMap<F>,
}

impl<F> Mouse<F> {
    /// The handler of each widget.
    pub closed spec fn handlers(&self) -> Map<Seq<char>, F> {
        self.handlers.map()
    }

    /// Well-formedness: each widget has at most one handler entry.
    pub closed spec fn wf(&self) -> bool {
        self.handlers.wf()
    }

    /// A registry without handlers.
    pub fn new() -> (r: Self)
        ensures
            r.wf(),
            r.handlers() == Map::<Seq<char>, F>::empty(),
    {
        Mouse { handlers: IdMap::new() }
    }

    /// Registers the click handler of a widget, replacing any earlier one.
    pub fn on_click(&mut self, id: WidgetId, handler: F)
        requires
            old(self).wf(),
        ensures
            final(self).wf(),
            final(self).handlers() == old(self).handlers().insert(id@, handler),
    {
        self.handlers.insert(id, handler);
    }

    /// The click handler of a widget, if it has one.
    pub fn get(&self, id: WidgetId) -> (r: Option<&F>)
        requires
            self.wf(),
        ensures
            r is None <==> !self.handlers().contains_key(id@),
            r matches Some(f) ==> *f == self.handlers()[id@],
    {
        self.handlers.get(id)
    }

    /// Removes the click handler of a widget.
    pub fn remove(&mut self, id: WidgetId)
        requires
            old(self).wf(),
        ensures
            final(self).wf(),
            final(self).handlers() == old(self).handlers().remove(id@),
    {
        let _ = self.handlers.remove(id);
    }
}

impl<F> Default for Mouse<F> {
    fn default() -> (r: Self)
        ensures
            r.wf(),
            r.handlers() == Map::<Seq<char>, F>::empty(),
    {
        Self::new()
    }
}

} // verus!
