//! Rectangular screen areas and an ordered map of widget areas with hit testing.
use vstd::prelude::*;

use crate::id_map::IdMap;
use crate::WidgetId;

verus! {

/// A rectangular area defined by position and dimensions, in terminal cells.
#[derive(Debug, Clone, Copy)]
pub struct Area {
    /// The x-coordinate (column) of the top-left corner.
    pub x: u16,
    /// The y-coordinate (row) of the top-left corner.
    pub y: u16,
    /// The width of the area in cells.
    pub width: u16,
    /// The height of the area in cells.
    pub height: u16,
}

impl Area {
    /// The cell `(x, y)` lies inside the area.
    pub open spec fn spec_contains(&self, x: u16, y: u16) -> bool {
        &&& self.x <= x < self.x + self.width
        &&& self.y <= y < self.y + self.height
    }

    /// Testing `(x, y)` for containment stays within `u16` arithmetic: the
    /// right edge is computed only once `x` is at or right of the left edge,
    /// and the bottom edge only once `x` lies within the columns and `y` is at
    /// or below the top edge.
    pub open spec fn contains_ok(&self, x: u16, y: u16) -> bool {
        &&& (x >= self.x ==> self.x + self.width <= u16::MAX)
        &&& (self.x <= x < self.x + self.width && y >= self.y ==> self.y + self.height <= u16::MAX)
    }

    /// Creates an area.
    pub fn new(x: u16, y: u16, width: u16, height: u16) -> (r: Self)
        ensures
            r == (Area { x, y, width, height }),
    {
        Self { x, y, width, height }
    }

    /// Whether the cell `(x, y)` lies inside the area.
    pub fn contains(&self, x: u16, y: u16) -> (r: bool)
        requires
            self.contains_ok(x, y),
        ensures
            r == self.spec_contains(x, y),
    {
        x >= self.x && x < self.x + self.width && y >= self.y && y < self.y + self.height
    }
}

impl From<(u16, u16)> for Area {
    /// The single cell at `(x, y)`.
    fn from(p: (u16, u16)) -> (r: Self) {
        Self::new(p.0, p.1, 1, 1)
    }
}

impl vstd::std_specs::convert::FromSpecImpl<(u16, u16)> for Area {
    open spec fn obeys_from_spec() -> bool {
        true
    }

    open spec fn from_spec(p: (u16, u16)) -> Self {
        Area { x: p.0, y: p.1, width: 1, height: 1 }
    }
}

/// The topmost (latest in `order`) identifier whose area contains `(x, y)`.
pub open spec fn top_hit(order: Seq<Seq<char>>, rects: Map<Seq<char>, Area>, x: u16, y: u16) -> Option<Seq<char>>
    decreases order.len(),
{
    if order.len() == 0 {
        None
    } else if rects[order.last()].spec_contains(x, y) {
        Some(order.last())
    } else {
        top_hit(order.drop_last(), rects, x, y)
    }
}

/// Every area that a topmost-first scan for `(x, y)` tests, up to and
/// including the first one that contains the cell, can be tested without overflow.
pub open spec fn scan_ok(order: Seq<Seq<char>>, rects: Map<Seq<char>, Area>, x: u16, y: u16) -> bool
    decreases order.len(),
{
    if order.len() == 0 {
        true
    } else {
        &&& rects[order.last()].contains_ok(x, y)
        &&& (rects[order.last()].spec_contains(x, y) || scan_ok(order.drop_last(), rects, x, y))
    }
}

/// The hit found by a topmost-first scan is the last identifier in `order`
/// whose area contains the cell; when there is none, no area in `order` contains it.
pub proof fn lemma_top_hit(order: Seq<Seq<char>>, rects: Map<Seq<char>, Area>, x: u16, y: u16)
    ensures
        top_hit(order, rects, x, y) matches Some(k) ==> exists|i: int|
            0 <= i < order.len() && order[i] == k && rects[k].spec_contains(x, y)
                && forall|j: int| i < j < order.len() ==> !#[trigger] rects[order[j]].spec_contains(x, y),
        top_hit(order, rects, x, y) is None ==> forall|j: int|
            0 <= j < order.len() ==> !#[trigger] rects[order[j]].spec_contains(x, y),
    decreases order.len(),
{
    if order.len() > 0 {
        let d = order.drop_last();
        lemma_top_hit(d, rects, x, y);
        let n = order.len() - 1;
        if rects[order.last()].spec_contains(x, y) {
            assert(order[n] == order.last());
        } else {
            assert forall|j: int| 0 <= j < n implies order[j] == d[j] by {}
            match top_hit(d, rects, x, y) {
                Some(k) => {
                    let i = choose|i: int|
                        0 <= i < d.len() && d[i] == k && rects[k].spec_contains(x, y)
                            && forall|j: int| i < j < d.len() ==> !#[trigger] rects[d[j]].spec_contains(x, y);
                    assert(order[i] == k);
                    assert forall|j: int| i < j < order.len() implies !#[trigger] rects[order[j]].spec_contains(x, y) by {
                        if j < n {
                            assert(order[j] == d[j]);
                        }
                    }
                },
                None => {
                    assert forall|j: int| 0 <= j < order.len() implies !#[trigger] rects[order[j]].spec_contains(x, y) by {
                        if j < n {
                            assert(order[j] == d[j]);
                        }
                    }
                },
            }
        }
    }
}

/// Widget areas in the order they were first registered, for hit testing.
/// Later registrations lie on top of earlier ones.
pub struct HitMap {
    rects: IdMap<Area>,
}

impl HitMap {
    /// The identifiers, bottom to top.
    pub closed spec fn order(&self) -> Seq<Seq<char>> {
        self.rects.ids()
    }

    /// The area of each identifier.
    pub closed spec fn rects(&self) -> Map<Seq<char>, Area> {
        self.rects.map()
    }

    /// Well-formedness: every identifier occurs once in the order, and the
    /// identifiers of the order are exactly those with an area.
    pub closed spec fn wf(&self) -> bool {
        self.rects.wf()
    }

    /// The order lists exactly the identifiers that have an area, each once.
    pub proof fn lemma_wf(&self)
        requires
            self.wf(),
        ensures
            self.order().no_duplicates(),
            forall|k: Seq<char>| #[trigger] self.rects().contains_key(k) <==> self.order().contains(k),
    {
    }

    /// Sets the area of a widget. A widget that already has an area keeps its
    /// place in the order; a new one goes on top.
    pub fn set(&mut self, id: WidgetId, rect: Area)
        requires
            old(self).wf(),
        ensures
            final(self).wf(),
            final(self).order() == (if old(self).rects().contains_key(id@) {
                old(self).order()
            } else {
                old(self).order().push(id@)
            }),
            final(self).rects() == old(self).rects().insert(id@, rect),
    {
        self.rects.insert(id, rect);
    }

    /// The area of a widget, if it has one.
    pub fn get(&self, id: WidgetId) -> (r: Option<&Area>)
        requires
            self.wf(),
        ensures
            r is None <==> !self.rects().contains_key(id@),
            r matches Some(a) ==> *a == self.rects()[id@],
    {
        self.rects.get(id)
    }

    /// Removes a widget's area; the others keep their order.
    pub fn remove(&mut self, id: WidgetId)
        requires
            old(self).wf(),
        ensures
            final(self).wf(),
            final(self).order() == crate::id_map::without(old(self).order(), id@),
            final(self).rects() == old(self).rects().remove(id@),
    {
        let _ = self.rects.remove(id);
    }

    /// Whether [`HitMap::hit_test`] can scan for `(x, y)` without overflow.
    pub open spec fn hit_ok(&self, x: u16, y: u16) -> bool {
        scan_ok(self.order(), self.rects(), x, y)
    }

    /// The topmost widget whose area contains `(x, y)`.
    pub open spec fn hit(&self, x: u16, y: u16) -> Option<Seq<char>> {
        top_hit(self.order(), self.rects(), x, y)
    }

    /// Whether [`HitMap::hit_test`] can scan for `(x, y)` without overflow.
    pub fn can_hit_test(&self, x: u16, y: u16) -> (r: bool)
        requires
            self.wf(),
        ensures
            r == self.hit_ok(x, y),
    {
        let mut i = self.rects.len();
        assert(self.order().take(i as int) =~= self.order());
        while i > 0
            invariant
                i <= self.rects.ids().len(),
                self.rects.wf(),
                scan_ok(self.order(), self.rects(), x, y) == scan_ok(self.order().take(i as int), self.rects(), x, y),
            decreases i,
        {
            let e = self.rects.entry(i - 1);
            proof {
                self.rects.lemma_index(i - 1);
                assert(self.order().take(i as int).drop_last() =~= self.order().take(i - 1));
                assert(self.order().take(i as int).last() == self.order()[i - 1]);
            }
            let a = e.1;
            if x >= a.x && (a.x as u32) + (a.width as u32) > 65535 {
                return false;
            }
            if x >= a.x && x < a.x + a.width && y >= a.y && (a.y as u32) + (a.height as u32) > 65535 {
                return false;
            }
            if a.contains(x, y) {
                return true;
            }
            i -= 1;
        }
        assert(self.order().take(0) =~= Seq::<Seq<char>>::empty());
        true
    }

    /// The topmost widget whose area contains `(x, y)`.
    pub fn hit_test(&self, x: u16, y: u16) -> (r: Option<WidgetId>)
        requires
            self.wf(),
            self.hit_ok(x, y),
        ensures
            match r {
                Some(w) => self.hit(x, y) == Some(w@),
                None => self.hit(x, y) is None,
            },
    {
        let mut i = self.rects.len();
        assert(self.order().take(i as int) =~= self.order());
        while i > 0
            invariant
                i <= self.rects.ids().len(),
                self.rects.wf(),
                top_hit(self.order(), self.rects(), x, y) == top_hit(self.order().take(i as int), self.rects(), x, y),
                scan_ok(self.order().take(i as int), self.rects(), x, y),
            decreases i,
        {
            let e = self.rects.entry(i - 1);
            proof {
                self.rects.lemma_index(i - 1);
                assert(self.order().take(i as int).drop_last() =~= self.order().take(i - 1));
                assert(self.order().take(i as int).last() == self.order()[i - 1]);
            }
            if e.1.contains(x, y) {
                return Some(e.0);
            }
            i -= 1;
        }
        None
    }
}

impl Default for HitMap {
    fn default() -> (r: Self)
        ensures
            r.wf(),
            r.order() == Seq::<Seq<char>>::empty(),
            r.rects() == Map::<Seq<char>, Area>::empty(),
    {
        HitMap { rects: IdMap::new() }
    }
}

} // verus!
