//! Properties of the library that span several operations, stated over the
//! models that the operations' contracts use.
use vstd::prelude::*;

use crate::focus::Focus;
use crate::id_map::without;
use crate::input_event::MouseEventKind;
use crate::keybindings::{
    ids_view,
    bind_one, compact_text, display_text, fires, first_occurrences, help_groups, help_keys,
    info_group, is_listing, kept, shown, group_of, Binding, DisplayInfo, KeyBinding,
};
use crate::keycode::{
    compact_key_name, has_alt, has_ctrl, has_shift, key_name, media_name, modifier_name, KeyCode, KeyModifiers, MediaKeyCode,
    ModifierKeyCode, SHIFT_BIT,
};
use crate::layout::{lemma_top_hit, Area, HitMap};
use crate::mouse::Mouse;
use crate::pointer::{id_view, Pointer};
use crate::text::{decimal, digit, join, lower};
use crate::WidgetId;

verus! {

/// At most one widget has the focus: two widgets that both have it are the same widget.
pub proof fn focus_is_exclusive(f: Focus, a: WidgetId, b: WidgetId)
    requires
        id_view(f.id) == Some(a@),
        id_view(f.id) == Some(b@),
    ensures
        a@ == b@,
{
}

/// After an area is set for a widget, the widget's area is that area and
/// every other widget's area is as before.
pub proof fn area_read_after_set(before: HitMap, after: HitMap, id: WidgetId, area: Area, other: Seq<char>)
    requires
        after.rects() == before.rects().insert(id@, area),
        other != id@,
    ensures
        after.rects().contains_key(id@),
        after.rects()[id@] == area,
        after.rects().contains_key(other) == before.rects().contains_key(other),
        before.rects().contains_key(other) ==> after.rects()[other] == before.rects()[other],
{
}

/// After a widget's area is removed, the widget has no area and every other
/// widget's area is as before.
pub proof fn area_gone_after_remove(before: HitMap, after: HitMap, id: WidgetId, other: Seq<char>)
    requires
        after.rects() == before.rects().remove(id@),
        other != id@,
    ensures
        !after.rects().contains_key(id@),
        after.rects().contains_key(other) == before.rects().contains_key(other),
        before.rects().contains_key(other) ==> after.rects()[other] == before.rects()[other],
{
}

/// The hit test finds the topmost widget whose area contains the cell: its
/// area contains the cell and no widget above it does; when it finds none,
/// no widget's area contains the cell.
pub proof fn hit_is_topmost(m: HitMap, x: u16, y: u16)
    ensures
        m.hit(x, y) matches Some(k) ==> exists|i: int|
            0 <= i < m.order().len() && m.order()[i] == k && m.rects()[k].spec_contains(x, y)
                && forall|j: int| i < j < m.order().len() ==> !#[trigger] m.rects()[m.order()[j]].spec_contains(x, y),
        m.hit(x, y) is None ==> forall|j: int|
            0 <= j < m.order().len() ==> !#[trigger] m.rects()[m.order()[j]].spec_contains(x, y),
{
    lemma_top_hit(m.order(), m.rects(), x, y);
}

/// A widget registered for the first time lies on top: the hit test at any
/// cell of its area finds it.
pub proof fn new_widget_is_on_top(before: HitMap, after: HitMap, id: WidgetId, area: Area, x: u16, y: u16)
    requires
        after.order() == before.order().push(id@),
        after.rects() == before.rects().insert(id@, area),
        area.spec_contains(x, y),
    ensures
        after.hit(x, y) == Some(id@),
{
    assert(after.order().last() == id@);
}

/// A removed widget is never hit.
pub proof fn removed_widget_is_not_hit(before: HitMap, after: HitMap, id: WidgetId, x: u16, y: u16)
    requires
        after.order() == without(before.order(), id@),
    ensures
        after.hit(x, y) != Some(id@),
{
    let o = after.order();
    lemma_top_hit(o, after.rects(), x, y);
    if after.hit(x, y) == Some(id@) {
        let i = choose|i: int| 0 <= i < o.len() && o[i] == id@ && after.rects()[id@].spec_contains(x, y)
            && forall|j: int| i < j < o.len() ==> !#[trigger] after.rects()[o[j]].spec_contains(x, y);
        before.order().lemma_filter_pred(|k: Seq<char>| k != id@, i);
    }
}

/// After a key is bound for a widget, a press of that key with only that
/// widget active resolves to the new binding: it fires, and no earlier
/// binding does.
pub proof fn bound_key_resolves_to_new_binding<A>(
    bs: Seq<Binding<A>>,
    id: WidgetId,
    key: KeyBinding,
    name: &'static str,
    action: A,
)
    ensures
        ({
            let nb = bind_one(bs, id, key, name, action);
            &&& fires(nb.last(), key, seq![id@])
            &&& nb.last().action == action
            &&& forall|j: int| 0 <= j < nb.len() - 1 ==> !#[trigger] fires(nb[j], key, seq![id@])
        }),
{
    let k = kept(bs, id@, Some(key));
    let nb = bind_one(bs, id, key, name, action);
    assert(seq![id@][0] == id@);
    assert forall|j: int| 0 <= j < nb.len() - 1 implies !#[trigger] fires(nb[j], key, seq![id@]) by {
        assert(nb[j] == k[j]);
        bs.lemma_filter_pred(|b: Binding<A>| !crate::keybindings::drops(b, id@, Some(key)), j);
        if fires(nb[j], key, seq![id@]) {
            let t = choose|t: int| 0 <= t < 1 && seq![id@][t] == nb[j].id@;
            assert(nb[j].id@ == id@);
        }
    }
}

/// No two bindings share both key and widget.
pub open spec fn slots_unique<A>(bs: Seq<Binding<A>>) -> bool {
    forall|i: int, j: int|
        0 <= i < j < bs.len() ==> !(#[trigger] bs[i].key == #[trigger] bs[j].key && bs[i].id@ == bs[j].id@)
}

proof fn lemma_filter_slots_unique<A>(bs: Seq<Binding<A>>, p: spec_fn(Binding<A>) -> bool)
    requires
        slots_unique(bs),
    ensures
        slots_unique(bs.filter(p)),
    decreases bs.len(),
{
    reveal(Seq::filter);
    if bs.len() > 0 {
        let d = bs.drop_last();
        assert(slots_unique(d)) by {
            assert forall|i: int, j: int| 0 <= i < j < d.len() implies
                !(#[trigger] d[i].key == #[trigger] d[j].key && d[i].id@ == d[j].id@) by {
                assert(d[i] == bs[i] && d[j] == bs[j]);
            }
        }
        lemma_filter_slots_unique(d, p);
        if p(bs.last()) {
            let f = d.filter(p);
            let g = f.push(bs.last());
            assert forall|i: int, j: int| 0 <= i < j < g.len() implies
                !(#[trigger] g[i].key == #[trigger] g[j].key && g[i].id@ == g[j].id@) by {
                if j == g.len() - 1 {
                    assert(g[i] == f[i]);
                    d.lemma_filter_contains_rev(p, f[i]);
                    assert(f.contains(f[i]));
                    let t = choose|t: int| 0 <= t < d.len() && d[t] == f[i];
                    assert(d[t] == bs[t]);
                    assert(bs.last() == bs[bs.len() - 1]);
                } else {
                    assert(g[i] == f[i] && g[j] == f[j]);
                }
            }
        }
    }
}

/// Binding keeps every key of every widget bound at most once.
pub proof fn bind_keeps_one_binding_per_key<A>(
    bs: Seq<Binding<A>>,
    id: WidgetId,
    key: KeyBinding,
    name: &'static str,
    action: A,
)
    requires
        slots_unique(bs),
    ensures
        slots_unique(bind_one(bs, id, key, name, action)),
{
    let p = |b: Binding<A>| !crate::keybindings::drops(b, id@, Some(key));
    let k = kept(bs, id@, Some(key));
    lemma_filter_slots_unique(bs, p);
    let nb = bind_one(bs, id, key, name, action);
    assert forall|i: int, j: int| 0 <= i < j < nb.len() implies
        !(#[trigger] nb[i].key == #[trigger] nb[j].key && nb[i].id@ == nb[j].id@) by {
        if j == nb.len() - 1 {
            assert(nb[i] == k[i]);
            bs.lemma_filter_pred(p, i);
        } else {
            assert(nb[i] == k[i] && nb[j] == k[j]);
        }
    }
}

/// After a widget is unbound, none of its bindings remain.
pub proof fn unbind_removes_all_bindings<A>(bs: Seq<Binding<A>>, id: WidgetId)
    ensures
        forall|j: int| 0 <= j < kept(bs, id@, None).len() ==> #[trigger] kept(bs, id@, None)[j].id@ != id@,
{
    assert forall|j: int| 0 <= j < kept(bs, id@, None).len() implies #[trigger] kept(bs, id@, None)[j].id@ != id@ by {
        bs.lemma_filter_pred(|b: Binding<A>| !crate::keybindings::drops(b, id@, None), j);
    }
}

/// Unbinding a widget keeps every binding of every other widget.
pub proof fn unbind_keeps_other_widgets<A>(bs: Seq<Binding<A>>, id: WidgetId)
    ensures
        forall|i: int| 0 <= i < bs.len() && bs[i].id@ != id@ ==> kept(bs, id@, None).contains(#[trigger] bs[i]),
{
    assert forall|i: int| 0 <= i < bs.len() && bs[i].id@ != id@ implies kept(bs, id@, None).contains(#[trigger] bs[i]) by {
        bs.lemma_filter_contains(|b: Binding<A>| !crate::keybindings::drops(b, id@, None), i);
    }
}

proof fn lemma_first_occurrences<T>(s: Seq<T>)
    ensures
        first_occurrences(s).no_duplicates(),
        forall|x: T| #[trigger] first_occurrences(s).contains(x) <==> s.contains(x),
    decreases s.len(),
{
    if s.len() > 0 {
        let d = s.drop_last();
        lemma_first_occurrences(d);
        let p = first_occurrences(d);
        assert forall|x: T| s.contains(x) implies #[trigger] first_occurrences(s).contains(x) by {
            let i = choose|i: int| 0 <= i < s.len() && s[i] == x;
            if i < s.len() - 1 {
                assert(d[i] == x);
                assert(d.contains(x));
                assert(p.contains(x));
                let t = choose|t: int| 0 <= t < p.len() && p[t] == x;
                if !p.contains(s.last()) {
                    assert(p.push(s.last())[t] == x);
                }
            } else {
                assert(s.last() == x);
                if !p.contains(x) {
                    assert(p.push(x)[p.len() as int] == x);
                }
            }
        }
        assert forall|x: T| #[trigger] first_occurrences(s).contains(x) implies s.contains(x) by {
            if p.contains(s.last()) {
                assert(p.contains(x));
                assert(d.contains(x));
                let i = choose|i: int| 0 <= i < d.len() && d[i] == x;
                assert(s[i] == x);
            } else {
                let q = p.push(s.last());
                assert(q.contains(x));
                let i = choose|i: int| 0 <= i < q.len() && q[i] == x;
                if i < p.len() {
                    assert(p[i] == x);
                    assert(p.contains(x));
                    assert(d.contains(x));
                    let j = choose|j: int| 0 <= j < d.len() && d[j] == x;
                    assert(s[j] == x);
                } else {
                    assert(s[s.len() - 1] == x);
                }
            }
        }
        if !p.contains(s.last()) {
            let q = p.push(s.last());
            assert forall|i: int, j: int| 0 <= i < q.len() && 0 <= j < q.len() && i != j implies q[i] != q[j] by {
                if i == p.len() {
                    assert(q[j] == p[j]);
                } else if j == p.len() {
                    assert(q[i] == p[i]);
                } else {
                    assert(q[i] == p[i] && q[j] == p[j]);
                }
            }
        }
    }
}

/// In a help listing every widget-and-action group occurs once, and the
/// groups are exactly those of the listed bindings.
pub proof fn help_groups_are_distinct<A>(bs: Seq<Binding<A>>, ids: Option<Seq<Seq<char>>>)
    ensures
        help_groups(bs, ids).no_duplicates(),
        forall|i: int| 0 <= i < bs.len() && shown(bs[i], ids) ==> help_groups(bs, ids).contains(
            #[trigger] group_of(bs[i]),
        ),
        forall|g: (Seq<char>, Seq<char>)| #[trigger] help_groups(bs, ids).contains(g) ==> exists|i: int|
            0 <= i < bs.len() && shown(bs[i], ids) && group_of(bs[i]) == g,
{
    let p = |b: Binding<A>| shown(b, ids);
    let gf = |b: Binding<A>| group_of(b);
    let f = bs.filter(p);
    let s = f.map_values(gf);
    lemma_first_occurrences(s);
    assert forall|i: int| 0 <= i < bs.len() && shown(bs[i], ids) implies help_groups(bs, ids).contains(
        #[trigger] group_of(bs[i]),
    ) by {
        bs.lemma_filter_contains(p, i);
        let t = choose|t: int| 0 <= t < f.len() && f[t] == bs[i];
        assert(s[t] == group_of(bs[i]));
    }
    assert forall|g: (Seq<char>, Seq<char>)| #[trigger] help_groups(bs, ids).contains(g) implies exists|i: int|
        0 <= i < bs.len() && shown(bs[i], ids) && group_of(bs[i]) == g by {
        assert(s.contains(g));
        let t = choose|t: int| 0 <= t < s.len() && s[t] == g;
        bs.lemma_filter_pred(p, t);
        bs.lemma_filter_contains_rev(p, f[t]);
        assert(f.contains(f[t]));
        assert(bs.contains(f[t]));
        let i = choose|i: int| 0 <= i < bs.len() && bs[i] == f[t];
        assert(shown(bs[i], ids) && group_of(bs[i]) == g);
    }
}

/// An upper-case letter binds with Shift and shows as `Shift+` and the lower-case letter.
pub proof fn uppercase_letter_shows_shift(c: char)
    requires
        'A' <= c <= 'Z',
    ensures
        ({
            let k = KeyBinding { code: KeyCode::Char(c), modifiers: KeyModifiers { bits: SHIFT_BIT } };
            &&& display_text(k) == "Shift+"@ + seq![lower(c)]
            &&& compact_text(k) == seq!['\u{21e7}'] + seq![lower(c)]
        }),
{
    assert((1u8 & 2u8) != 2u8) by (bit_vector);
    assert((1u8 & 4u8) != 4u8) by (bit_vector);
    assert((1u8 & 1u8) == 1u8) by (bit_vector);
    let k = KeyBinding { code: KeyCode::Char(c), modifiers: KeyModifiers { bits: SHIFT_BIT } };
    assert(display_text(k) =~= "Shift+"@ + seq![lower(c)]);
    assert(compact_text(k) =~= seq!['\u{21e7}'] + seq![lower(c)]);
}

/// Drag and up events after a mouse down go to the widget that received the
/// down, wherever they happen.
pub proof fn drag_and_up_follow_down<P>(
    p0: Pointer<P>,
    p1: Pointer<P>,
    down: MouseEventKind,
    x: u16,
    y: u16,
    next: MouseEventKind,
    x2: u16,
    y2: u16,
)
    requires
        down is Down,
        next is Drag || next is Up,
        p1.active_id() == p0.active_after_route(down, x, y),
    ensures
        p1.routed_to(next, x2, y2) == p0.routed_to(down, x, y),
{
}

/// After a mouse up is delivered, no widget is active, so further drag and
/// up events go nowhere until the next mouse down.
pub proof fn up_ends_the_gesture<P>(p: Pointer<P>, next: MouseEventKind, x: u16, y: u16)
    requires
        p.active_id() is None,
        next is Drag || next is Up,
    ensures
        p.routed_to(next, x, y) is None,
{
}

/// After a click handler is registered for a widget, it is that widget's
/// handler, and every other widget's handler is as before.
pub proof fn click_handler_read_after_register<F>(before: Mouse<F>, after: Mouse<F>, id: WidgetId, handler: F, other: Seq<char>)
    requires
        after.handlers() == before.handlers().insert(id@, handler),
        other != id@,
    ensures
        after.handlers().contains_key(id@),
        after.handlers()[id@] == handler,
        after.handlers().contains_key(other) == before.handlers().contains_key(other),
        before.handlers().contains_key(other) ==> after.handlers()[other] == before.handlers()[other],
{
}

/// A binding fires on a key press when it is for that key and its widget is
/// among the active widgets, at whatever position in the slice.
pub proof fn binding_fires_for_any_active_widget<A>(b: Binding<A>, key: KeyBinding, ids: Seq<Seq<char>>, j: int)
    requires
        0 <= j < ids.len(),
        ids[j] == b.id@,
        b.key == key,
    ensures
        fires(b, key, ids),
{
    assert(ids.contains(b.id@));
}

/// Only a binding for the pressed key whose widget is active fires.
pub proof fn firing_binding_is_for_key_and_active_widget<A>(b: Binding<A>, key: KeyBinding, ids: Seq<Seq<char>>)
    requires
        fires(b, key, ids),
    ensures
        b.key == key,
        exists|j: int| 0 <= j < ids.len() && ids[j] == b.id@,
{
}

/// Binding a key keeps every earlier binding that is for another key (a key
/// with other modifiers counts as another key) or for another widget, and
/// removes every earlier binding of the same key for the same widget.
pub proof fn bind_keeps_other_bindings<A>(
    bs: Seq<Binding<A>>,
    id: WidgetId,
    key: KeyBinding,
    name: &'static str,
    action: A,
)
    ensures
        forall|i: int|
            0 <= i < bs.len() && !(bs[i].key == key && bs[i].id@ == id@) ==> bind_one(
                bs,
                id,
                key,
                name,
                action,
            ).contains(#[trigger] bs[i]),
        forall|j: int|
            0 <= j < bind_one(bs, id, key, name, action).len() - 1 ==> !(
            #[trigger] bind_one(bs, id, key, name, action)[j].key == key && bind_one(
                bs,
                id,
                key,
                name,
                action,
            )[j].id@ == id@),
{
    let p = |b: Binding<A>| !crate::keybindings::drops(b, id@, Some(key));
    let k = kept(bs, id@, Some(key));
    let nb = bind_one(bs, id, key, name, action);
    assert forall|i: int| 0 <= i < bs.len() && !(bs[i].key == key && bs[i].id@ == id@) implies nb.contains(
        #[trigger] bs[i],
    ) by {
        bs.lemma_filter_contains(p, i);
        let t = choose|t: int| 0 <= t < k.len() && k[t] == bs[i];
        assert(nb[t] == bs[i]);
    }
    assert forall|j: int| 0 <= j < nb.len() - 1 implies !(#[trigger] nb[j].key == key && nb[j].id@ == id@) by {
        assert(nb[j] == k[j]);
        bs.lemma_filter_pred(p, j);
    }
}

/// Every binding of an active widget is listed by `display_for`: some entry
/// has the binding's widget and action name and lists its key, whatever the
/// key and its modifiers.
pub proof fn listing_covers_active_bindings<A>(r: Seq<DisplayInfo>, bs: Seq<Binding<A>>, v: Seq<Seq<char>>, i: int)
    requires
        is_listing(r, bs, Some(v)),
        0 <= i < bs.len(),
        v.contains(bs[i].id@),
    ensures
        exists|j: int|
            0 <= j < r.len() && r[j].id@ == bs[i].id@ && r[j].name@ == bs[i].name@ && r[j].keys@.contains(
                bs[i].key,
            ),
{
    lemma_listing_covers(r, bs, Some(v), i);
}

/// Every binding is listed by `display_all`: some entry has the binding's
/// widget and action name and lists its key.
pub proof fn listing_covers_all_bindings<A>(r: Seq<DisplayInfo>, bs: Seq<Binding<A>>, i: int)
    requires
        is_listing(r, bs, None),
        0 <= i < bs.len(),
    ensures
        exists|j: int|
            0 <= j < r.len() && r[j].id@ == bs[i].id@ && r[j].name@ == bs[i].name@ && r[j].keys@.contains(
                bs[i].key,
            ),
{
    lemma_listing_covers(r, bs, None, i);
}

proof fn lemma_listing_covers<A>(r: Seq<DisplayInfo>, bs: Seq<Binding<A>>, ids: Option<Seq<Seq<char>>>, i: int)
    requires
        is_listing(r, bs, ids),
        0 <= i < bs.len(),
        shown(bs[i], ids),
    ensures
        exists|j: int|
            0 <= j < r.len() && r[j].id@ == bs[i].id@ && r[j].name@ == bs[i].name@ && r[j].keys@.contains(
                bs[i].key,
            ),
{
    help_groups_are_distinct(bs, ids);
    let g = group_of(bs[i]);
    let rg = r.map_values(|d: DisplayInfo| info_group(d));
    assert(rg.contains(g));
    let j = choose|j: int| 0 <= j < rg.len() && rg[j] == g;
    assert(info_group(r[j]) == g);
    let q = |b: Binding<A>| shown(b, ids) && group_of(b) == g;
    bs.lemma_filter_contains(q, i);
    let f = bs.filter(q);
    let t = choose|t: int| 0 <= t < f.len() && f[t] == bs[i];
    assert(r[j].keys@ == help_keys(bs, ids, g));
    assert(f.map_values(|b: Binding<A>| b.key)[t] == bs[i].key);
    assert(r[j].keys@.contains(bs[i].key));
}

/// Every key that `display_for` lists is the key of a binding of an active
/// widget, listed under that binding's widget and action name.
pub proof fn listing_shows_only_active_bindings<A>(r: Seq<DisplayInfo>, bs: Seq<Binding<A>>, v: Seq<Seq<char>>, j: int, k: int)
    requires
        is_listing(r, bs, Some(v)),
        0 <= j < r.len(),
        0 <= k < r[j].keys@.len(),
    ensures
        exists|i: int|
            0 <= i < bs.len() && v.contains(bs[i].id@) && bs[i].key == r[j].keys@[k] && bs[i].id@ == r[j].id@
                && bs[i].name@ == r[j].name@,
{
    let g = info_group(r[j]);
    let ids = Some(v);
    let q = |b: Binding<A>| shown(b, ids) && group_of(b) == g;
    let f = bs.filter(q);
    assert(r[j].keys@ == help_keys(bs, ids, g));
    assert(r[j].keys@[k] == f[k].key);
    bs.lemma_filter_pred(q, k);
    bs.lemma_filter_contains_rev(q, f[k]);
    assert(f.contains(f[k]));
    let i = choose|i: int| 0 <= i < bs.len() && bs[i] == f[k];
    assert(shown(bs[i], ids) && group_of(bs[i]) == g);
}

/// The keys that are shown under a name of their own: every key but the
/// character keys.
pub open spec fn is_named_key(c: KeyCode) -> bool {
    !(c is Char)
}

proof fn lemma_media_names_distinct(a: MediaKeyCode, b: MediaKeyCode)
    requires
        media_name(a) == media_name(b),
    ensures
        a == b,
{
    reveal_strlit("Play");
    reveal_strlit("Pause");
    reveal_strlit("PlayPause");
    reveal_strlit("Reverse");
    reveal_strlit("Stop");
    reveal_strlit("FastForward");
    reveal_strlit("Rewind");
    reveal_strlit("TrackNext");
    reveal_strlit("TrackPrevious");
    reveal_strlit("Record");
    reveal_strlit("LowerVolume");
    reveal_strlit("RaiseVolume");
    reveal_strlit("MuteVolume");
    let x = media_name(a);
    let y = media_name(b);
    assert(x.len() == y.len());
    if x.len() > 0 {
        assert(x[0] == y[0]);
    }
    if x.len() > 1 {
        assert(x[1] == y[1]);
    }
    if x.len() > 2 {
        assert(x[2] == y[2]);
    }
}

proof fn lemma_modifier_names_distinct(a: ModifierKeyCode, b: ModifierKeyCode)
    requires
        modifier_name(a) == modifier_name(b),
    ensures
        a == b,
{
    reveal_strlit("LeftShift");
    reveal_strlit("LeftControl");
    reveal_strlit("LeftAlt");
    reveal_strlit("LeftSuper");
    reveal_strlit("LeftHyper");
    reveal_strlit("LeftMeta");
    reveal_strlit("RightShift");
    reveal_strlit("RightControl");
    reveal_strlit("RightAlt");
    reveal_strlit("RightSuper");
    reveal_strlit("RightHyper");
    reveal_strlit("RightMeta");
    reveal_strlit("IsoLevel3Shift");
    reveal_strlit("IsoLevel5Shift");
    let x = modifier_name(a);
    let y = modifier_name(b);
    assert(x.len() == y.len());
    if x.len() > 0 {
        assert(x[0] == y[0]);
    }
    if x.len() > 1 {
        assert(x[1] == y[1]);
    }
    if x.len() > 2 {
        assert(x[2] == y[2]);
    }
    if x.len() > 3 {
        assert(x[3] == y[3]);
    }
    if x.len() > 4 {
        assert(x[4] == y[4]);
    }
    if x.len() > 5 {
        assert(x[5] == y[5]);
    }
    if x.len() > 6 {
        assert(x[6] == y[6]);
    }
    if x.len() > 7 {
        assert(x[7] == y[7]);
    }
    if x.len() > 8 {
        assert(x[8] == y[8]);
    }
}

proof fn lemma_decimal_len(n: nat)
    ensures
        decimal(n).len() >= 1,
        decimal(n).len() == 1 <==> n < 10,
        '0' <= decimal(n)[0] <= '9',
    decreases n,
{
    if n >= 10 {
        lemma_decimal_len(n / 10);
        assert(decimal(n)[0] == decimal(n / 10)[0]);
    }
}

/// Decimal notation is one-to-one.
proof fn lemma_decimal_distinct(n: nat, m: nat)
    requires
        decimal(n) == decimal(m),
    ensures
        n == m,
    decreases n,
{
    lemma_decimal_len(n);
    lemma_decimal_len(m);
    if n < 10 && m < 10 {
        assert(decimal(n)[0] == decimal(m)[0]);
    } else if n >= 10 && m >= 10 {
        let x = decimal(n);
        assert(x.last() == decimal(m).last());
        assert(x.last() == digit((n % 10) as int));
        assert(decimal(m).last() == digit((m % 10) as int));
        assert(x.drop_last() =~= decimal(n / 10));
        assert(decimal(m).drop_last() =~= decimal(m / 10));
        lemma_decimal_distinct(n / 10, m / 10);
    }
}

/// Distinct keys other than character keys are shown under distinct names
/// in full notation: a key without modifiers is named for what it is.
pub proof fn key_names_are_distinct(a: KeyCode, b: KeyCode)
    requires
        is_named_key(a),
        is_named_key(b),
        a != b,
    ensures
        key_name(a) != key_name(b),
{
    reveal_strlit("\u{2191}");
    reveal_strlit("\u{2193}");
    reveal_strlit("\u{2190}");
    reveal_strlit("\u{2192}");
    reveal_strlit("Enter");
    reveal_strlit("Esc");
    reveal_strlit("Tab");
    reveal_strlit("Shift+Tab");
    reveal_strlit("Backspace");
    reveal_strlit("Delete");
    reveal_strlit("Home");
    reveal_strlit("End");
    reveal_strlit("PageUp");
    reveal_strlit("PageDown");
    reveal_strlit("Insert");
    reveal_strlit("Null");
    reveal_strlit("CapsLock");
    reveal_strlit("ScrollLock");
    reveal_strlit("NumLock");
    reveal_strlit("PrintScreen");
    reveal_strlit("Pause");
    reveal_strlit("Menu");
    reveal_strlit("KeypadBegin");
    reveal_strlit("Media(");
    reveal_strlit(")");
    reveal_strlit("Modifier(");
    reveal_strlit("F");
    reveal_strlit("Play");
    reveal_strlit("Pause");
    reveal_strlit("PlayPause");
    reveal_strlit("Reverse");
    reveal_strlit("Stop");
    reveal_strlit("FastForward");
    reveal_strlit("Rewind");
    reveal_strlit("TrackNext");
    reveal_strlit("TrackPrevious");
    reveal_strlit("Record");
    reveal_strlit("LowerVolume");
    reveal_strlit("RaiseVolume");
    reveal_strlit("MuteVolume");
    reveal_strlit("LeftShift");
    reveal_strlit("LeftControl");
    reveal_strlit("LeftAlt");
    reveal_strlit("LeftSuper");
    reveal_strlit("LeftHyper");
    reveal_strlit("LeftMeta");
    reveal_strlit("RightShift");
    reveal_strlit("RightControl");
    reveal_strlit("RightAlt");
    reveal_strlit("RightSuper");
    reveal_strlit("RightHyper");
    reveal_strlit("RightMeta");
    reveal_strlit("IsoLevel3Shift");
    reveal_strlit("IsoLevel5Shift");
    if key_name(a) == key_name(b) {
        let x = key_name(a);
        let y = key_name(b);
        assert(x.len() == y.len());
        if x.len() > 0 {
            assert(x[0] == y[0]);
        }
        if x.len() > 1 {
            assert(x[1] == y[1]);
        }
        if x.len() > 2 {
            assert(x[2] == y[2]);
        }
        match (a, b) {
            (KeyCode::Media(m1), KeyCode::Media(m2)) => {
                assert(x.subrange(6, x.len() - 1) =~= media_name(m1));
                assert(y.subrange(6, y.len() - 1) =~= media_name(m2));
                lemma_media_names_distinct(m1, m2);
            },
            (KeyCode::Modifier(m1), KeyCode::Modifier(m2)) => {
                assert(x.subrange(9, x.len() - 1) =~= modifier_name(m1));
                assert(y.subrange(9, y.len() - 1) =~= modifier_name(m2));
                lemma_modifier_names_distinct(m1, m2);
            },
            (KeyCode::F(n), KeyCode::F(m)) => {
                assert(x.subrange(1, x.len() as int) =~= decimal(n as nat));
                assert(y.subrange(1, y.len() as int) =~= decimal(m as nat));
                lemma_decimal_distinct(n as nat, m as nat);
            },
            _ => {},
        }
    }
}

/// Distinct keys other than character keys are shown under distinct names
/// in compact notation, except that Shift+Tab is shown as Tab.
pub proof fn compact_key_names_are_distinct(a: KeyCode, b: KeyCode)
    requires
        is_named_key(a),
        is_named_key(b),
        a != b,
        !(a == KeyCode::BackTab && b == KeyCode::Tab),
        !(a == KeyCode::Tab && b == KeyCode::BackTab),
    ensures
        compact_key_name(a) != compact_key_name(b),
{
    reveal_strlit("\u{2191}");
    reveal_strlit("\u{2193}");
    reveal_strlit("\u{2190}");
    reveal_strlit("\u{2192}");
    reveal_strlit("Enter");
    reveal_strlit("Esc");
    reveal_strlit("Tab");
    reveal_strlit("Shift+Tab");
    reveal_strlit("Backspace");
    reveal_strlit("Delete");
    reveal_strlit("Home");
    reveal_strlit("End");
    reveal_strlit("PageUp");
    reveal_strlit("PageDown");
    reveal_strlit("Insert");
    reveal_strlit("Null");
    reveal_strlit("CapsLock");
    reveal_strlit("ScrollLock");
    reveal_strlit("NumLock");
    reveal_strlit("PrintScreen");
    reveal_strlit("Pause");
    reveal_strlit("Menu");
    reveal_strlit("KeypadBegin");
    reveal_strlit("Media(");
    reveal_strlit(")");
    reveal_strlit("Modifier(");
    reveal_strlit("F");
    reveal_strlit("\u{23ce}");
    reveal_strlit("\u{232b}");
    reveal_strlit("Del");
    reveal_strlit("PgUp");
    reveal_strlit("PgDn");
    reveal_strlit("Play");
    reveal_strlit("Pause");
    reveal_strlit("PlayPause");
    reveal_strlit("Reverse");
    reveal_strlit("Stop");
    reveal_strlit("FastForward");
    reveal_strlit("Rewind");
    reveal_strlit("TrackNext");
    reveal_strlit("TrackPrevious");
    reveal_strlit("Record");
    reveal_strlit("LowerVolume");
    reveal_strlit("RaiseVolume");
    reveal_strlit("MuteVolume");
    reveal_strlit("LeftShift");
    reveal_strlit("LeftControl");
    reveal_strlit("LeftAlt");
    reveal_strlit("LeftSuper");
    reveal_strlit("LeftHyper");
    reveal_strlit("LeftMeta");
    reveal_strlit("RightShift");
    reveal_strlit("RightControl");
    reveal_strlit("RightAlt");
    reveal_strlit("RightSuper");
    reveal_strlit("RightHyper");
    reveal_strlit("RightMeta");
    reveal_strlit("IsoLevel3Shift");
    reveal_strlit("IsoLevel5Shift");
    if compact_key_name(a) == compact_key_name(b) {
        let x = compact_key_name(a);
        let y = compact_key_name(b);
        assert(x.len() == y.len());
        if x.len() > 0 {
            assert(x[0] == y[0]);
        }
        if x.len() > 1 {
            assert(x[1] == y[1]);
        }
        if x.len() > 2 {
            assert(x[2] == y[2]);
        }
        match (a, b) {
            (KeyCode::Media(m1), KeyCode::Media(m2)) => {
                assert(x.subrange(6, x.len() - 1) =~= media_name(m1));
                assert(y.subrange(6, y.len() - 1) =~= media_name(m2));
                lemma_media_names_distinct(m1, m2);
            },
            (KeyCode::Modifier(m1), KeyCode::Modifier(m2)) => {
                assert(x.subrange(9, x.len() - 1) =~= modifier_name(m1));
                assert(y.subrange(9, y.len() - 1) =~= modifier_name(m2));
                lemma_modifier_names_distinct(m1, m2);
            },
            (KeyCode::F(n), KeyCode::F(m)) => {
                assert(x.subrange(1, x.len() as int) =~= decimal(n as nat));
                assert(y.subrange(1, y.len() as int) =~= decimal(m as nat));
                lemma_decimal_distinct(n as nat, m as nat);
            },
            _ => {},
        }
    }
}

/// The total length of the parts.
pub open spec fn total_len(parts: Seq<Seq<char>>) -> nat
    decreases parts.len(),
{
    if parts.len() == 0 {
        0
    } else {
        total_len(parts.drop_last()) + parts.last().len()
    }
}

/// Joining one more part appends the separator and the part.
pub proof fn join_appends_part(parts: Seq<Seq<char>>, sep: Seq<char>, p: Seq<char>)
    requires
        parts.len() > 0,
    ensures
        join(parts.push(p), sep) == join(parts, sep) + sep + p,
{
    assert(parts.push(p).drop_last() =~= parts);
}

/// A join holds every part and one separator between each two neighbours:
/// its length is the total length of the parts plus that of the separators.
pub proof fn join_len(parts: Seq<Seq<char>>, sep: Seq<char>)
    ensures
        parts.len() > 0 ==> join(parts, sep).len() == total_len(parts) + (parts.len() - 1) * sep.len(),
        parts.len() == 0 ==> join(parts, sep).len() == 0,
    decreases parts.len(),
{
    if parts.len() > 1 {
        join_len(parts.drop_last(), sep);
        let n = parts.len() as int;
        let l = sep.len() as int;
        assert((n - 2) * l + l == (n - 1) * l) by (nonlinear_arith);
        assert(parts.drop_last().len() == n - 1);
        assert(join(parts, sep) == join(parts.drop_last(), sep) + sep + parts.last());
    } else if parts.len() == 1 {
        assert(parts.drop_last().len() == 0);
        assert(total_len(parts.drop_last()) == 0);
        assert((parts.len() - 1) * sep.len() == 0);
    }
}

/// The join of a single part is that part, and each part of a join stands
/// at the end of the join of the parts up to it.
pub proof fn join_ends_with_each_prefix_part(parts: Seq<Seq<char>>, sep: Seq<char>, i: int)
    requires
        0 <= i < parts.len(),
    ensures
        ({
            let j = join(parts.take(i + 1), sep);
            j.len() >= parts[i].len() && j.subrange(j.len() - parts[i].len(), j.len() as int) == parts[i]
        }),
{
    let t = parts.take(i + 1);
    assert(t.last() == parts[i]);
    if i > 0 {
        assert(t.drop_last() =~= parts.take(i));
        let j = join(t, sep);
        assert(j == join(parts.take(i), sep) + sep + parts[i]);
        assert(j.subrange(j.len() - parts[i].len(), j.len() as int) =~= parts[i]);
    } else {
        assert(join(t, sep) == parts[i]);
        assert(parts[i].subrange(0, parts[i].len() as int) =~= parts[i]);
    }
}

/// The active widgets are looked up by their text, each at its position.
pub proof fn ids_view_keeps_each_widget(ids: Seq<WidgetId>, j: int)
    requires
        0 <= j < ids.len(),
    ensures
        ids_view(ids).len() == ids.len(),
        ids_view(ids)[j] == ids[j]@,
        ids_view(ids).contains(ids[j]@),
{
    assert(ids_view(ids)[j] == ids[j]@);
}

/// The value of a string of decimal digits.
pub open spec fn digits_value(s: Seq<char>) -> int
    decreases s.len(),
{
    if s.len() == 0 {
        0
    } else {
        digits_value(s.drop_last()) * 10 + (s.last() as int - '0' as int)
    }
}

/// Decimal notation consists of digits and reads back as the number.
pub proof fn decimal_reads_back(n: nat)
    ensures
        forall|i: int| 0 <= i < decimal(n).len() ==> '0' <= #[trigger] decimal(n)[i] <= '9',
        digits_value(decimal(n)) == n,
        n > 0 ==> decimal(n)[0] != '0',
    decreases n,
{
    let r = (n % 10) as int;
    assert(digit(r) as int - '0' as int == r);
    if n < 10 {
        assert(decimal(n).drop_last() =~= Seq::<char>::empty());
        assert(decimal(n).last() == digit(r));
        assert(digits_value(decimal(n)) == digits_value(Seq::<char>::empty()) * 10 + r);
    } else {
        decimal_reads_back(n / 10);
        let d = decimal(n);
        assert(d.drop_last() =~= decimal(n / 10));
        assert(d.last() == digit((n % 10) as int));
        assert(digits_value(d) == digits_value(decimal(n / 10)) * 10 + r);
        assert forall|i: int| 0 <= i < d.len() implies '0' <= #[trigger] d[i] <= '9' by {
            if i < d.len() - 1 {
                assert(d[i] == decimal(n / 10)[i]);
            }
        }
        assert(d[0] == decimal(n / 10)[0]);
    }
}

/// ASCII lower case maps 'A'..='Z' onto 'a'..='z' letter by letter and
/// leaves every other character alone.
pub proof fn lowercase_maps_letters(c: char)
    ensures
        'A' <= c <= 'Z' ==> 'a' <= lower(c) <= 'z' && lower(c) as u32 - 'a' as u32 == c as u32 - 'A' as u32,
        !('A' <= c <= 'Z') ==> lower(c) == c,
{
}

/// A character key binds with Shift exactly when it is an upper-case ASCII
/// letter, and with no other modifier.
pub proof fn char_binding_has_shift_exactly_for_uppercase(c: char)
    ensures
        ({
            let k = <KeyBinding as vstd::std_specs::convert::FromSpec<char>>::from_spec(c);
            &&& k.code == KeyCode::Char(c)
            &&& k.modifiers.has(KeyModifiers { bits: SHIFT_BIT }) <==> ('A' <= c <= 'Z')
            &&& !k.modifiers.has(KeyModifiers { bits: crate::keycode::CONTROL_BIT })
            &&& !k.modifiers.has(KeyModifiers { bits: crate::keycode::ALT_BIT })
        }),
{
    assert((1u8 & 2u8) != 2u8) by (bit_vector);
    assert((1u8 & 4u8) != 4u8) by (bit_vector);
    assert((1u8 & 1u8) == 1u8) by (bit_vector);
    assert((0u8 & 1u8) != 1u8) by (bit_vector);
    assert((0u8 & 2u8) != 2u8) by (bit_vector);
    assert((0u8 & 4u8) != 4u8) by (bit_vector);
}

/// The Control, Alt and Shift modifiers held with a key.
pub open spec fn held(m: KeyModifiers) -> (bool, bool, bool) {
    (has_ctrl(m), has_alt(m), has_shift(m))
}

/// Full notation tells the held Control, Alt and Shift modifiers apart: two
/// bindings of the same key (other than the space bar) with the same full
/// notation hold the same of these modifiers.
pub proof fn display_shows_held_modifiers(k1: KeyBinding, k2: KeyBinding)
    requires
        k1.code == k2.code,
        k1.code != KeyCode::Char(' '),
        display_text(k1) == display_text(k2),
    ensures
        held(k1.modifiers) == held(k2.modifiers),
{
    reveal_strlit("Ctrl+");
    reveal_strlit("Alt+");
    reveal_strlit("Shift+");
    let (c1, a1, s1) = held(k1.modifiers);
    let (c2, a2, s2) = held(k2.modifiers);
    let n = key_name(k1.code).len() as int;
    assert(display_text(k1).len() == (if c1 { 5int } else { 0int }) + (if a1 { 4int } else { 0int }) + (if s1 { 6int } else { 0int }) + n);
    assert(display_text(k2).len() == (if c2 { 5int } else { 0int }) + (if a2 { 4int } else { 0int }) + (if s2 { 6int } else { 0int }) + n);
}

/// Compact notation tells the held Control, Alt and Shift modifiers apart:
/// two bindings of the same key with the same compact notation hold the same
/// of these modifiers.
pub proof fn compact_shows_held_modifiers(k1: KeyBinding, k2: KeyBinding)
    requires
        k1.code == k2.code,
        compact_text(k1) == compact_text(k2),
    ensures
        held(k1.modifiers) == held(k2.modifiers),
{
    let m1 = k1.modifiers;
    let m2 = k2.modifiers;
    let p1 = (if has_ctrl(m1) { seq!['\u{2303}'] } else { Seq::empty() })
        + (if has_alt(m1) { seq!['\u{2325}'] } else { Seq::empty() })
        + (if has_shift(m1) { seq!['\u{21e7}'] } else { Seq::empty() });
    let p2 = (if has_ctrl(m2) { seq!['\u{2303}'] } else { Seq::empty() })
        + (if has_alt(m2) { seq!['\u{2325}'] } else { Seq::empty() })
        + (if has_shift(m2) { seq!['\u{21e7}'] } else { Seq::empty() });
    let name = compact_key_name(k1.code);
    assert(compact_text(k1) == p1 + name);
    assert(compact_text(k2) == p2 + name);
    assert(p1.len() == p2.len());
    assert(p1 =~= (p1 + name).subrange(0, p1.len() as int));
    assert(p2 =~= (p2 + name).subrange(0, p2.len() as int));
    assert(p1 == p2);
    if p1.len() > 0 {
        assert(p1[0] == p2[0]);
    }
    if p1.len() > 1 {
        assert(p1[1] == p2[1]);
    }
}

proof fn lemma_first_occurrences_order<T>(s: Seq<T>, j1: int, j2: int)
    requires
        0 <= j1 < j2 < first_occurrences(s).len(),
    ensures
        exists|i1: int|
            0 <= i1 < s.len() && s[i1] == first_occurrences(s)[j1] && forall|i: int|
                0 <= i <= i1 ==> s[i] != #[trigger] first_occurrences(s)[j2],
    decreases s.len(),
{
    let d = s.drop_last();
    let p = first_occurrences(d);
    lemma_first_occurrences(d);
    if j2 < p.len() {
        assert(first_occurrences(s)[j1] == p[j1] && first_occurrences(s)[j2] == p[j2]);
        lemma_first_occurrences_order(d, j1, j2);
        let i1 = choose|i1: int|
            0 <= i1 < d.len() && d[i1] == p[j1] && forall|i: int| 0 <= i <= i1 ==> d[i] != #[trigger] p[j2];
        assert(s[i1] == first_occurrences(s)[j1]);
        assert forall|i: int| 0 <= i <= i1 implies s[i] != #[trigger] first_occurrences(s)[j2] by {
            assert(s[i] == d[i]);
        }
    } else {
        assert(!p.contains(s.last()));
        assert(first_occurrences(s)[j2] == s.last());
        assert(first_occurrences(s)[j1] == p[j1]);
        assert(p.contains(p[j1]));
        assert(d.contains(p[j1]));
        let i1 = choose|i1: int| 0 <= i1 < d.len() && d[i1] == p[j1];
        assert(s[i1] == first_occurrences(s)[j1]);
        assert forall|i: int| 0 <= i <= i1 implies s[i] != #[trigger] first_occurrences(s)[j2] by {
            assert(s[i] == d[i]);
            assert(d.contains(d[i]));
        }
    }
}

/// The entries of a help listing come in the order of their groups' first
/// bindings: among the listed bindings, some binding of an earlier entry's
/// group comes before every binding of a later entry's group.
pub proof fn listing_follows_first_binding_order<A>(
    r: Seq<DisplayInfo>,
    bs: Seq<Binding<A>>,
    ids: Option<Seq<Seq<char>>>,
    j1: int,
    j2: int,
)
    requires
        is_listing(r, bs, ids),
        0 <= j1 < j2 < r.len(),
    ensures
        ({
            let f = bs.filter(|b: Binding<A>| shown(b, ids));
            exists|i1: int|
                0 <= i1 < f.len() && group_of(f[i1]) == info_group(r[j1]) && forall|i: int|
                    0 <= i <= i1 ==> group_of(#[trigger] f[i]) != info_group(r[j2])
        }),
{
    let f = bs.filter(|b: Binding<A>| shown(b, ids));
    let s = f.map_values(|b: Binding<A>| group_of(b));
    let rg = r.map_values(|d: DisplayInfo| info_group(d));
    assert(rg == first_occurrences(s));
    assert(rg[j1] == info_group(r[j1]) && rg[j2] == info_group(r[j2]));
    lemma_first_occurrences_order(s, j1, j2);
    let i1 = choose|i1: int|
        0 <= i1 < s.len() && s[i1] == first_occurrences(s)[j1] && forall|i: int|
            0 <= i <= i1 ==> s[i] != #[trigger] first_occurrences(s)[j2];
    assert(group_of(f[i1]) == info_group(r[j1]));
    assert forall|i: int| 0 <= i <= i1 implies group_of(#[trigger] f[i]) != info_group(r[j2]) by {
        assert(s[i] == group_of(f[i]));
    }
}

} // verus!
