//! Widget areas with mouse handlers: hit testing and routing of mouse
//! down, drag and up events.
use vstd::prelude::*;

use crate::id_map::IdMap;
use crate::input_event::MouseEventKind;
use crate::layout::HitMap;
use crate::WidgetId;

pub use crate::layout::Area;

verus! {

/// The handlers of one widget, one per mouse event kind.
pub struct Handlers<P> {
    /// Called on mouse down (a click).
    pub down: Option<P>,
    /// Called on drag after a mouse down on the widget.
    pub drag: Option<P>,
    /// Called on mouse up after a mouse down on the widget.
    pub up: Option<P>,
}

impl<P> Default for Handlers<P> {
    fn default() -> (r: Self)
        ensures
            r == no_handlers::<P>(),
    {
        Handlers { down: None, drag: None, up: None }
    }
}

/// Handlers with none set.
pub open spec fn no_handlers<P>() -> Handlers<P> {
    Handlers { down: None, drag: None, up: None }
}

/// The handlers that `m` holds for `k`, or none.
pub open spec fn handlers_of<P>(m: Map<Seq<char>, Handlers<P>>, k: Seq<char>) -> Handlers<P> {
    if m.contains_key(k) {
        m[k]
    } else {
        no_handlers()
    }
}

/// The handler of `h` for a mouse event kind: down, drag or up; none for the others.
pub open spec fn handler_for_kind<P>(h: Handlers<P>, kind: MouseEventKind) -> Option<P> {
    match kind {
        MouseEventKind::Down(_) => h.down,
        MouseEventKind::Drag(_) => h.drag,
        MouseEventKind::Up(_) => h.up,
        _ => None,
    }
}

/// `o` as text.
pub open spec fn id_view(o: Option<WidgetId>) -> Option<Seq<char>> {
    match o {
        Some(w) => Some(w@),
        None => None,
    }
}

/// Manages mouse interactions for widgets: clickable areas in z-order
/// (later registered widgets lie on top), handlers for mouse down, drag and
/// up, and the widget that received the last mouse down.
pub struct Pointer<P> {
    areas: HitMap,
    handlers: IdMap<Handlers<P>>,
    active: Option<WidgetId>,
}

impl<P> Pointer<P> {
    /// The widgets with an area, bottom to top.
    pub closed spec fn order(&self) -> Seq<Seq<char>> {
        self.areas.order()
    }

    /// The area of each widget.
    pub closed spec fn areas(&self) -> Map<Seq<char>, Area> {
        self.areas.rects()
    }

    /// The handlers of each widget.
    pub closed spec fn handlers(&self) -> Map<Seq<char>, Handlers<P>> {
        self.handlers.map()
    }

    /// The widget that received the last mouse down, if any.
    pub closed spec fn active_id(&self) -> Option<Seq<char>> {
        id_view(self.active)
    }

    /// The topmost widget whose area contains `(x, y)`.
    pub closed spec fn hit(&self, x: u16, y: u16) -> Option<Seq<char>> {
        self.areas.hit(x, y)
    }

    /// Hit testing `(x, y)` stays within `u16` arithmetic.
    pub closed spec fn hit_ok(&self, x: u16, y: u16) -> bool {
        self.areas.hit_ok(x, y)
    }

    /// Well-formedness.
    pub closed spec fn wf(&self) -> bool {
        self.areas.wf() && self.handlers.wf()
    }

    /// The hit is the topmost widget in the order whose area contains the cell.
    pub proof fn lemma_hit(&self, x: u16, y: u16)
        requires
            self.wf(),
        ensures
            self.hit(x, y) == crate::layout::top_hit(self.order(), self.areas(), x, y),
            self.order().no_duplicates(),
            forall|k: Seq<char>| #[trigger] self.areas().contains_key(k) <==> self.order().contains(k),
    {
        self.areas.lemma_wf();
    }

    /// A pointer with no areas, no handlers and no active widget.
    pub fn new() -> (r: Self)
        ensures
            r.wf(),
            r.order() == Seq::<Seq<char>>::empty(),
            r.areas() == Map::<Seq<char>, Area>::empty(),
            r.handlers() == Map::<Seq<char>, Handlers<P>>::empty(),
            r.active_id() is None,
    {
        Pointer { areas: HitMap::default(), handlers: IdMap::new(), active: None }
    }

    /// Sets the clickable area of a widget. A widget that already has an area
    /// keeps its place in the z-order; a new one goes on top.
    pub fn set(&mut self, id: WidgetId, area: Area)
        requires
            old(self).wf(),
        ensures
            final(self).wf(),
            final(self).order() == (if old(self).areas().contains_key(id@) {
                old(self).order()
            } else {
                old(self).order().push(id@)
            }),
            final(self).areas() == old(self).areas().insert(id@, area),
            final(self).handlers() == old(self).handlers(),
            final(self).active_id() == old(self).active_id(),
    {
        self.areas.set(id, area);
    }

    /// The area of a widget, if it has one.
    pub fn get(&self, id: WidgetId) -> (r: Option<&Area>)
        requires
            self.wf(),
        ensures
            r is None <==> !self.areas().contains_key(id@),
            r matches Some(a) ==> *a == self.areas()[id@],
    {
        self.areas.get(id)
    }

    /// Registers the click (mouse down) handler of a widget.
    pub fn on_click(&mut self, id: WidgetId, handler: P)
        requires
            old(self).wf(),
        ensures
            final(self).wf(),
            final(self).handlers() == old(self).handlers().insert(
                id@,
                Handlers { down: Some(handler), ..handlers_of(old(self).handlers(), id@) },
            ),
            final(self).order() == old(self).order(),
            final(self).areas() == old(self).areas(),
            final(self).active_id() == old(self).active_id(),
    {
        let mut h = match self.handlers.remove(id) {
            Some(h) => h,
            None => Handlers::default(),
        };
        h.down = Some(handler);
        self.handlers.insert(id, h);
        assert(self.handlers.map() =~= old(self).handlers.map().insert(
            id@,
            Handlers { down: Some(handler), ..handlers_of(old(self).handlers.map(), id@) },
        ));
    }

    /// Registers the mouse down handler of a widget; the same as [`Pointer::on_click`].
    pub fn on_down(&mut self, id: WidgetId, handler: P)
        requires
            old(self).wf(),
        ensures
            final(self).wf(),
            final(self).handlers() == old(self).handlers().insert(
                id@,
                Handlers { down: Some(handler), ..handlers_of(old(self).handlers(), id@) },
            ),
            final(self).order() == old(self).order(),
            final(self).areas() == old(self).areas(),
            final(self).active_id() == old(self).active_id(),
    {
        self.on_click(id, handler);
    }

    /// Registers the drag handler of a widget: it is called when the mouse
    /// moves with a button held after a mouse down on the widget.
    pub fn on_drag(&mut self, id: WidgetId, handler: P)
        requires
            old(self).wf(),
        ensures
            final(self).wf(),
            final(self).handlers() == old(self).handlers().insert(
                id@,
                Handlers { drag: Some(handler), ..handlers_of(old(self).handlers(), id@) },
            ),
            final(self).order() == old(self).order(),
            final(self).areas() == old(self).areas(),
            final(self).active_id() == old(self).active_id(),
    {
        let mut h = match self.handlers.remove(id) {
            Some(h) => h,
            None => Handlers::default(),
        };
        h.drag = Some(handler);
        self.handlers.insert(id, h);
        assert(self.handlers.map() =~= old(self).handlers.map().insert(
            id@,
            Handlers { drag: Some(handler), ..handlers_of(old(self).handlers.map(), id@) },
        ));
    }

    /// Registers the mouse up handler of a widget.
    pub fn on_up(&mut self, id: WidgetId, handler: P)
        requires
            old(self).wf(),
        ensures
            final(self).wf(),
            final(self).handlers() == old(self).handlers().insert(
                id@,
                Handlers { up: Some(handler), ..handlers_of(old(self).handlers(), id@) },
            ),
            final(self).order() == old(self).order(),
            final(self).areas() == old(self).areas(),
            final(self).active_id() == old(self).active_id(),
    {
        let mut h = match self.handlers.remove(id) {
            Some(h) => h,
            None => Handlers::default(),
        };
        h.up = Some(handler);
        self.handlers.insert(id, h);
        assert(self.handlers.map() =~= old(self).handlers.map().insert(
            id@,
            Handlers { up: Some(handler), ..handlers_of(old(self).handlers.map(), id@) },
        ));
    }

    /// The click (mouse down) handler of a widget, if it has one.
    pub fn get_handler(&self, id: WidgetId) -> (r: Option<&P>)
        requires
            self.wf(),
        ensures
            r is None <==> handlers_of(self.handlers(), id@).down is None,
            r matches Some(f) ==> Some(*f) == handlers_of(self.handlers(), id@).down,
    {
        match self.handlers.get(id) {
            Some(h) => h.down.as_ref(),
            None => None,
        }
    }

    /// Removes a widget's area and all its handlers; if it was the active
    /// widget, no widget is active afterwards.
    pub fn remove(&mut self, id: WidgetId)
        requires
            old(self).wf(),
        ensures
            final(self).wf(),
            final(self).order() == crate::id_map::without(old(self).order(), id@),
            final(self).areas() == old(self).areas().remove(id@),
            final(self).handlers() == old(self).handlers().remove(id@),
            final(self).active_id() == (if old(self).active_id() == Some(id@) {
                None
            } else {
                old(self).active_id()
            }),
    {
        self.areas.remove(id);
        let _ = self.handlers.remove(id);
        let clear = match self.active {
            Some(a) => a == id,
            None => false,
        };
        if clear {
            self.active = None;
        }
    }

    /// Whether [`Pointer::hit_test`] can test `(x, y)` without overflow.
    pub fn can_hit_test(&self, x: u16, y: u16) -> (r: bool)
        requires
            self.wf(),
        ensures
            r == self.hit_ok(x, y),
    {
        self.areas.can_hit_test(x, y)
    }

    /// The topmost widget whose area contains `(x, y)`.
    pub fn hit_test(&self, x: u16, y: u16) -> (r: Option<WidgetId>)
        requires
            self.wf(),
            self.hit_ok(x, y),
        ensures
            id_view(r) == self.hit(x, y),
    {
        self.areas.hit_test(x, y)
    }

    /// The topmost widget at `(x, y)` together with its click handler, when it has one.
    pub fn hit_test_handler(&self, x: u16, y: u16) -> (r: Option<(WidgetId, &P)>)
        requires
            self.wf(),
            self.hit_ok(x, y),
        ensures
            match r {
                Some((w, f)) => self.hit(x, y) == Some(w@)
                    && handlers_of(self.handlers(), w@).down == Some(*f),
                None => self.hit(x, y) is None
                    || handlers_of(self.handlers(), self.hit(x, y).unwrap()).down is None,
            },
    {
        match self.hit_test(x, y) {
            Some(id) => match self.get_handler(id) {
                Some(f) => Some((id, f)),
                None => None,
            },
            None => None,
        }
    }

    /// Sets the active widget (the one that received the last mouse down).
    pub fn set_active(&mut self, id: Option<WidgetId>)
        requires
            old(self).wf(),
        ensures
            final(self).wf(),
            final(self).active_id() == id_view(id),
            final(self).order() == old(self).order(),
            final(self).areas() == old(self).areas(),
            final(self).handlers() == old(self).handlers(),
    {
        self.active = id;
    }

    /// The active widget.
    pub fn active(&self) -> (r: Option<WidgetId>)
        ensures
            id_view(r) == self.active_id(),
    {
        self.active
    }

    /// The handler of a widget for a mouse event kind: down, drag or up.
    /// Other kinds have no handler.
    pub fn get_handler_for(&self, id: WidgetId, kind: MouseEventKind) -> (r: Option<&P>)
        requires
            self.wf(),
        ensures
            r is None <==> !self.handlers().contains_key(id@)
                || handler_for_kind(self.handlers()[id@], kind) is None,
            r matches Some(f) ==> Some(*f) == handler_for_kind(self.handlers()[id@], kind),
    {
        let handlers = match self.handlers.get(id) {
            Some(h) => h,
            None => return None,
        };
        match kind {
            MouseEventKind::Down(_) => handlers.down.as_ref(),
            MouseEventKind::Drag(_) => handlers.drag.as_ref(),
            MouseEventKind::Up(_) => handlers.up.as_ref(),
            _ => None,
        }
    }
}

impl<P> Pointer<P> {
    /// The widget that a mouse event of `kind` at `(x, y)` goes to: for a
    /// mouse down the topmost widget at the cell, for drag and up the active
    /// widget, for other kinds none.
    pub open spec fn routed_to(&self, kind: MouseEventKind, x: u16, y: u16) -> Option<Seq<char>> {
        match kind {
            MouseEventKind::Down(_) => self.hit(x, y),
            MouseEventKind::Drag(_) | MouseEventKind::Up(_) => self.active_id(),
            _ => None,
        }
    }

    /// The active widget once a mouse event of `kind` at `(x, y)` is routed:
    /// a mouse down makes the widget it goes to active; other kinds keep it.
    pub open spec fn active_after_route(&self, kind: MouseEventKind, x: u16, y: u16) -> Option<Seq<char>> {
        match kind {
            MouseEventKind::Down(_) => self.hit(x, y),
            _ => self.active_id(),
        }
    }

    /// First step of delivering a mouse event at `(x, y)`: picks the widget
    /// that receives it. A mouse down goes to the topmost widget at the cell,
    /// which becomes the active widget (none is active when no widget is
    /// there); drag and up go to the active widget; other kinds go nowhere.
    pub fn route_mouse(&mut self, kind: MouseEventKind, x: u16, y: u16) -> (r: Option<WidgetId>)
        requires
            old(self).wf(),
            kind is Down ==> old(self).hit_ok(x, y),
        ensures
            final(self).wf(),
            final(self).order() == old(self).order(),
            final(self).areas() == old(self).areas(),
            final(self).handlers() == old(self).handlers(),
            id_view(r) == old(self).routed_to(kind, x, y),
            final(self).active_id() == old(self).active_after_route(kind, x, y),
    {
        match kind {
            MouseEventKind::Down(_) => {
                let hit = self.hit_test(x, y);
                self.set_active(hit);
                hit
            },
            MouseEventKind::Drag(_) | MouseEventKind::Up(_) => self.active(),
            _ => None,
        }
    }

    /// The area and the handler for `kind` of the widget that receives a
    /// mouse event, when it has both.
    pub fn mouse_target(&self, id: WidgetId, kind: MouseEventKind) -> (r: Option<(Area, &P)>)
        requires
            self.wf(),
        ensures
            match r {
                Some((a, f)) => self.areas().contains_key(id@) && a == self.areas()[id@]
                    && self.handlers().contains_key(id@)
                    && handler_for_kind(self.handlers()[id@], kind) == Some(*f),
                None => !self.areas().contains_key(id@) || !self.handlers().contains_key(id@)
                    || handler_for_kind(self.handlers()[id@], kind) is None,
            },
    {
        let area = match self.get(id) {
            Some(a) => *a,
            None => return None,
        };
        match self.get_handler_for(id, kind) {
            Some(f) => Some((area, f)),
            None => None,
        }
    }

    /// Last step of delivering a mouse event: after a mouse up no widget is active.
    pub fn finish_mouse(&mut self, kind: MouseEventKind)
        requires
            old(self).wf(),
        ensures
            final(self).wf(),
            final(self).order() == old(self).order(),
            final(self).areas() == old(self).areas(),
            final(self).handlers() == old(self).handlers(),
            final(self).active_id() == (if kind is Up { None } else { old(self).active_id() }),
    {
        if let MouseEventKind::Up(_) = kind {
            self.set_active(None);
        }
    }
}

impl<P> Default for Pointer<P> {
    fn default() -> (r: Self)
        ensures
            r.wf(),
            r.order() == Seq::<Seq<char>>::empty(),
            r.areas() == Map::<Seq<char>, Area>::empty(),
            r.handlers() == Map::<Seq<char>, Handlers<P>>::empty(),
            r.active_id() is None,
    {
        Self::new()
    }
}

} // verus!
