//! Key bindings: keys with modifiers, their display notation, and a registry
//! that maps keys of widgets to actions, with grouped help listings.
use vstd::prelude::*;

use crate::keycode::{
    compact_key_name, has_alt, has_ctrl, has_shift, key_name, media_name, modifier_name,
    unnamed_key, KeyCode, KeyModifiers, MediaKeyCode, ModifierKeyCode, ALT_BIT, CONTROL_BIT,
    SHIFT_BIT,
};
use crate::text::{is_ascii_uppercase, join, string_views, push_char, push_decimal, text, to_ascii_lowercase};
use crate::WidgetId;

verus! {

/// A key together with the modifiers held with it.
#[derive(Debug, Clone, Copy, PartialEq, Eq, Hash, Structural)]
pub struct KeyBinding {
    pub code: KeyCode,
    pub modifiers: KeyModifiers,
}

/// Full notation of a binding: the held modifiers as `Ctrl+`, `Alt+`,
/// `Shift+` (in that order) before the key name; the space bar is `Space`
/// whatever the modifiers.
pub open spec fn display_text(k: KeyBinding) -> Seq<char> {
    if k.code == KeyCode::Char(' ') {
        "Space"@
    } else {
        (if has_ctrl(k.modifiers) { "Ctrl+"@ } else { Seq::empty() })
            + (if has_alt(k.modifiers) { "Alt+"@ } else { Seq::empty() })
            + (if has_shift(k.modifiers) { "Shift+"@ } else { Seq::empty() })
            + key_name(k.code)
    }
}

/// Compact notation of a binding: the symbols of the held modifiers
/// (Control, Alt, Shift, in that order) directly before the compact key name.
pub open spec fn compact_text(k: KeyBinding) -> Seq<char> {
    (if has_ctrl(k.modifiers) { seq!['\u{2303}'] } else { Seq::empty() })
        + (if has_alt(k.modifiers) { seq!['\u{2325}'] } else { Seq::empty() })
        + (if has_shift(k.modifiers) { seq!['\u{21e7}'] } else { Seq::empty() })
        + compact_key_name(k.code)
}

fn push_media_name(s: &mut String, m: MediaKeyCode)
    ensures
        final(s)@ == old(s)@ + media_name(m),
{
    match m {
        MediaKeyCode::Play => s.append("Play"),
        MediaKeyCode::Pause => s.append("Pause"),
        MediaKeyCode::PlayPause => s.append("PlayPause"),
        MediaKeyCode::Reverse => s.append("Reverse"),
        MediaKeyCode::Stop => s.append("Stop"),
        MediaKeyCode::FastForward => s.append("FastForward"),
        MediaKeyCode::Rewind => s.append("Rewind"),
        MediaKeyCode::TrackNext => s.append("TrackNext"),
        MediaKeyCode::TrackPrevious => s.append("TrackPrevious"),
        MediaKeyCode::Record => s.append("Record"),
        MediaKeyCode::LowerVolume => s.append("LowerVolume"),
        MediaKeyCode::RaiseVolume => s.append("RaiseVolume"),
        MediaKeyCode::MuteVolume => s.append("MuteVolume"),
    }
}

fn push_modifier_name(s: &mut String, m: ModifierKeyCode)
    ensures
        final(s)@ == old(s)@ + modifier_name(m),
{
    match m {
        ModifierKeyCode::LeftShift => s.append("LeftShift"),
        ModifierKeyCode::LeftControl => s.append("LeftControl"),
        ModifierKeyCode::LeftAlt => s.append("LeftAlt"),
        ModifierKeyCode::LeftSuper => s.append("LeftSuper"),
        ModifierKeyCode::LeftHyper => s.append("LeftHyper"),
        ModifierKeyCode::LeftMeta => s.append("LeftMeta"),
        ModifierKeyCode::RightShift => s.append("RightShift"),
        ModifierKeyCode::RightControl => s.append("RightControl"),
        ModifierKeyCode::RightAlt => s.append("RightAlt"),
        ModifierKeyCode::RightSuper => s.append("RightSuper"),
        ModifierKeyCode::RightHyper => s.append("RightHyper"),
        ModifierKeyCode::RightMeta => s.append("RightMeta"),
        ModifierKeyCode::IsoLevel3Shift => s.append("IsoLevel3Shift"),
        ModifierKeyCode::IsoLevel5Shift => s.append("IsoLevel5Shift"),
    }
}

fn push_unnamed_key(s: &mut String, code: KeyCode)
    ensures
        final(s)@ == old(s)@ + unnamed_key(code),
{
    match code {
        KeyCode::Insert => s.append("Insert"),
        KeyCode::Null => s.append("Null"),
        KeyCode::CapsLock => s.append("CapsLock"),
        KeyCode::ScrollLock => s.append("ScrollLock"),
        KeyCode::NumLock => s.append("NumLock"),
        KeyCode::PrintScreen => s.append("PrintScreen"),
        KeyCode::Pause => s.append("Pause"),
        KeyCode::Menu => s.append("Menu"),
        KeyCode::KeypadBegin => s.append("KeypadBegin"),
        KeyCode::Media(m) => {
            s.append("Media(");
            push_media_name(s, m);
            s.append(")");
        },
        KeyCode::Modifier(m) => {
            s.append("Modifier(");
            push_modifier_name(s, m);
            s.append(")");
        },
        _ => {
            assert(unnamed_key(code) =~= Seq::<char>::empty());
        },
    }
}

fn push_char_key(s: &mut String, c: char)
    ensures
        final(s)@ == old(s)@ + (if c == ' ' { "Space"@ } else { seq![crate::text::lower(c)] }),
{
    if c == ' ' {
        s.append("Space");
    } else {
        push_char(s, to_ascii_lowercase(c));
    }
}

fn push_key_name(s: &mut String, code: KeyCode)
    ensures
        final(s)@ == old(s)@ + key_name(code),
{
    match code {
        KeyCode::Char(c) => push_char_key(s, c),
        KeyCode::Up => s.append("\u{2191}"),
        KeyCode::Down => s.append("\u{2193}"),
        KeyCode::Left => s.append("\u{2190}"),
        KeyCode::Right => s.append("\u{2192}"),
        KeyCode::Enter => s.append("Enter"),
        KeyCode::Esc => s.append("Esc"),
        KeyCode::Tab => s.append("Tab"),
        KeyCode::BackTab => s.append("Shift+Tab"),
        KeyCode::Backspace => s.append("Backspace"),
        KeyCode::Delete => s.append("Delete"),
        KeyCode::Home => s.append("Home"),
        KeyCode::End => s.append("End"),
        KeyCode::PageUp => s.append("PageUp"),
        KeyCode::PageDown => s.append("PageDown"),
        KeyCode::F(n) => {
            s.append("F");
            push_decimal(s, n);
        },
        _ => push_unnamed_key(s, code),
    }
}

fn push_compact_key_name(s: &mut String, code: KeyCode)
    ensures
        final(s)@ == old(s)@ + compact_key_name(code),
{
    match code {
        KeyCode::Char(c) => push_char_key(s, c),
        KeyCode::Up => s.append("\u{2191}"),
        KeyCode::Down => s.append("\u{2193}"),
        KeyCode::Left => s.append("\u{2190}"),
        KeyCode::Right => s.append("\u{2192}"),
        KeyCode::Enter => s.append("\u{23ce}"),
        KeyCode::Esc => s.append("Esc"),
        KeyCode::BackTab => s.append("Tab"),
        KeyCode::Tab => s.append("Tab"),
        KeyCode::Backspace => s.append("\u{232b}"),
        KeyCode::Delete => s.append("Del"),
        KeyCode::Home => s.append("Home"),
        KeyCode::End => s.append("End"),
        KeyCode::PageUp => s.append("PgUp"),
        KeyCode::PageDown => s.append("PgDn"),
        KeyCode::F(n) => {
            s.append("F");
            push_decimal(s, n);
        },
        _ => push_unnamed_key(s, code),
    }
}

impl KeyBinding {
    /// A binding of `code` with `modifiers`.
    pub fn new(code: KeyCode, modifiers: KeyModifiers) -> (r: Self)
        ensures
            r == (KeyBinding { code, modifiers }),
    {
        Self { code, modifiers }
    }

    /// A binding of `code` with no modifier.
    pub fn key(code: KeyCode) -> (r: Self)
        ensures
            r == (KeyBinding { code, modifiers: KeyModifiers { bits: 0 } }),
    {
        Self::new(code, KeyModifiers::none())
    }

    /// Control with the character `c`.
    pub fn ctrl(c: char) -> (r: Self)
        ensures
            r == (KeyBinding { code: KeyCode::Char(c), modifiers: KeyModifiers { bits: CONTROL_BIT } }),
    {
        Self::new(KeyCode::Char(c), KeyModifiers::control())
    }

    /// Alt with the character `c`.
    pub fn alt(c: char) -> (r: Self)
        ensures
            r == (KeyBinding { code: KeyCode::Char(c), modifiers: KeyModifiers { bits: ALT_BIT } }),
    {
        Self::new(KeyCode::Char(c), KeyModifiers::alt())
    }

    /// Shift with the character `c`.
    pub fn shift(c: char) -> (r: Self)
        ensures
            r == (KeyBinding { code: KeyCode::Char(c), modifiers: KeyModifiers { bits: SHIFT_BIT } }),
    {
        Self::new(KeyCode::Char(c), KeyModifiers::shift())
    }

    /// Compact notation with symbols for the modifiers, such as `⇧Tab`, `⌃c`, `⌥x`, `⇧h`.
    pub fn display_compact(&self) -> (r: String)
        ensures
            r@ == compact_text(*self),
    {
        let mut parts = String::new();
        if self.modifiers.contains(KeyModifiers::control()) {
            push_char(&mut parts, '\u{2303}');
        }
        if self.modifiers.contains(KeyModifiers::alt()) {
            push_char(&mut parts, '\u{2325}');
        }
        if self.modifiers.contains(KeyModifiers::shift()) {
            push_char(&mut parts, '\u{21e7}');
        }
        push_compact_key_name(&mut parts, self.code);
        assert(parts@ =~= compact_text(*self));
        parts
    }

    /// Full notation, such as `Ctrl+c`, `Shift+h`, `↑`, `Space`.
    pub fn display(&self) -> (r: String)
        ensures
            r@ == display_text(*self),
    {
        if let KeyCode::Char(c) = self.code {
            if c == ' ' {
                return text("Space");
            }
        }
        let mut parts = String::new();
        if self.modifiers.contains(KeyModifiers::control()) {
            parts.append("Ctrl+");
        }
        if self.modifiers.contains(KeyModifiers::alt()) {
            parts.append("Alt+");
        }
        if self.modifiers.contains(KeyModifiers::shift()) {
            parts.append("Shift+");
        }
        push_key_name(&mut parts, self.code);
        assert(parts@ =~= display_text(*self));
        parts
    }
}

impl From<KeyCode> for KeyBinding {
    /// `code` with no modifier.
    fn from(code: KeyCode) -> (r: Self) {
        Self::key(code)
    }
}

impl vstd::std_specs::convert::FromSpecImpl<KeyCode> for KeyBinding {
    open spec fn obeys_from_spec() -> bool {
        true
    }

    open spec fn from_spec(code: KeyCode) -> Self {
        KeyBinding { code, modifiers: KeyModifiers { bits: 0 } }
    }
}

impl From<char> for KeyBinding {
    /// The character key `c`; an upper-case ASCII letter comes with Shift.
    fn from(c: char) -> (r: Self) {
        if is_ascii_uppercase(c) {
            Self::new(KeyCode::Char(c), KeyModifiers::shift())
        } else {
            Self::key(KeyCode::Char(c))
        }
    }
}

impl vstd::std_specs::convert::FromSpecImpl<char> for KeyBinding {
    open spec fn obeys_from_spec() -> bool {
        true
    }

    open spec fn from_spec(c: char) -> Self {
        KeyBinding {
            code: KeyCode::Char(c),
            modifiers: if 'A' <= c <= 'Z' { KeyModifiers { bits: SHIFT_BIT } } else { KeyModifiers { bits: 0 } },
        }
    }
}

/// A collection of keys for binding several keys at once.
#[derive(Debug)]
pub struct Keys(pub Vec<KeyBinding>);

impl Clone for Keys {
    fn clone(&self) -> (r: Self)
        ensures
            r.0@ == self.0@,
    {
        let mut v: Vec<KeyBinding> = Vec::new();
        let mut i: usize = 0;
        while i < self.0.len()
            invariant
                i <= self.0@.len(),
                v@ == self.0@.take(i as int),
            decreases self.0@.len() - i,
        {
            v.push(self.0[i]);
            assert(self.0@.take(i + 1) =~= self.0@.take(i as int).push(self.0@[i as int]));
            i += 1;
        }
        assert(self.0@.take(self.0@.len() as int) =~= self.0@);
        Keys(v)
    }
}

impl From<Vec<KeyBinding>> for Keys {
    fn from(keys: Vec<KeyBinding>) -> (r: Self) {
        Keys(keys)
    }
}

impl vstd::std_specs::convert::FromSpecImpl<Vec<KeyBinding>> for Keys {
    open spec fn obeys_from_spec() -> bool {
        true
    }

    open spec fn from_spec(keys: Vec<KeyBinding>) -> Self {
        Keys(keys)
    }
}

/// The keys of one action of one widget, for help display.
#[derive(Debug)]
pub struct DisplayInfo {
    /// The keys, in the order they were bound.
    pub keys: Vec<KeyBinding>,
    /// The widget.
    pub id: WidgetId,
    /// The name of the action.
    pub name: &'static str,
}

impl DisplayInfo {
    /// The keys in full notation, separated by commas, such as `Shift+h, j, k`.
    pub fn keys_display(&self) -> (r: String)
        ensures
            r@ == join(self.keys@.map_values(|k: KeyBinding| display_text(k)), ", "@),
    {
        let r = self.keys_display_with(KeyBinding::display);
        proof {
            let outs = choose|outs: Seq<String>|
                #![trigger string_views(outs)]
                outs.len() == self.keys@.len()
                && (forall|i: int| 0 <= i < outs.len() ==> call_ensures(KeyBinding::display, (&self.keys@[i],), #[trigger] outs[i]))
                && r@ == join(string_views(outs), ", "@);
            assert(string_views(outs) =~= self.keys@.map_values(|k: KeyBinding| display_text(k))) by {
                assert forall|i: int| 0 <= i < outs.len() implies outs[i]@ == display_text(self.keys@[i]) by {
                    assert(call_ensures(KeyBinding::display, (&self.keys@[i],), outs[i]));
                }
            }
        }
        r
    }

    /// The keys in compact notation, separated by commas, such as `⇧h, j, k`.
    pub fn keys_display_compact(&self) -> (r: String)
        ensures
            r@ == join(self.keys@.map_values(|k: KeyBinding| compact_text(k)), ", "@),
    {
        let r = self.keys_display_with(KeyBinding::display_compact);
        proof {
            let outs = choose|outs: Seq<String>|
                #![trigger string_views(outs)]
                outs.len() == self.keys@.len()
                && (forall|i: int| 0 <= i < outs.len() ==> call_ensures(KeyBinding::display_compact, (&self.keys@[i],), #[trigger] outs[i]))
                && r@ == join(string_views(outs), ", "@);
            assert(string_views(outs) =~= self.keys@.map_values(|k: KeyBinding| compact_text(k))) by {
                assert forall|i: int| 0 <= i < outs.len() implies outs[i]@ == compact_text(self.keys@[i]) by {
                    assert(call_ensures(KeyBinding::display_compact, (&self.keys@[i],), outs[i]));
                }
            }
        }
        r
    }

    /// The keys formatted by `formatter`, separated by commas.
    pub fn keys_display_with<F: Fn(&KeyBinding) -> String>(&self, formatter: F) -> (r: String)
        requires
            forall|i: int| 0 <= i < self.keys@.len() ==> formatter.requires((&self.keys@[i],)),
        ensures
            exists|outs: Seq<String>|
                #![trigger string_views(outs)]
                outs.len() == self.keys@.len()
                && (forall|i: int| 0 <= i < outs.len() ==> formatter.ensures((&self.keys@[i],), #[trigger] outs[i]))
                && r@ == join(string_views(outs), ", "@),
    {
        let mut res = String::new();
        let ghost mut outs: Seq<String> = Seq::empty();
        let mut i: usize = 0;
        while i < self.keys.len()
            invariant
                i <= self.keys@.len(),
                outs.len() == i,
                forall|j: int| 0 <= j < self.keys@.len() ==> formatter.requires((&self.keys@[j],)),
                forall|j: int| 0 <= j < outs.len() ==> formatter.ensures((&self.keys@[j],), #[trigger] outs[j]),
                res@ == join(string_views(outs), ", "@),
            decreases self.keys@.len() - i,
        {
            let part = formatter(&self.keys[i]);
            if i > 0 {
                res.append(", ");
            }
            res.append(part.as_str());
            proof {
                let prev = outs;
                outs = outs.push(part);
                assert(string_views(outs).drop_last() =~= prev.map_values(|s: String| s@));
                assert(string_views(outs).last() == part@);
                if i == 0 {
                    assert(string_views(outs).len() == 1);
                }
            }
            i += 1;
        }
        res
    }
}

/// A key of a widget bound to a named action.
pub struct Binding<A> {
    pub key: KeyBinding,
    pub id: WidgetId,
    pub action: A,
    pub name: &'static str,
}

/// A handler for any key pressed on a widget that no binding takes.
pub struct AnyKeyHandler<H> {
    pub id: WidgetId,
    pub handler: H,
}

/// What a key press on a set of active widgets resolves to.
pub enum KeyAction<'a, A, H> {
    /// The action of the first matching binding.
    Bound(&'a A),
    /// The first any-key handler of an active widget.
    AnyKey(&'a H),
    /// Nothing takes the key.
    Unhandled,
}

impl<'a, A, H> KeyAction<'a, A, H> {
    /// Whether something takes the key.
    pub fn is_handled(&self) -> (r: bool)
        ensures
            r == !(*self is Unhandled),
    {
        match self {
            KeyAction::Unhandled => false,
            _ => true,
        }
    }
}

/// The identifiers of a slice of widgets, by their text.
pub open spec fn ids_view(ids: Seq<WidgetId>) -> Seq<Seq<char>> {
    ids.map_values(|w: WidgetId| w@)
}

/// Whether `id` is among `ids`.
pub fn contains_id(ids: &[WidgetId], id: WidgetId) -> (r: bool)
    ensures
        r == ids_view(ids@).contains(id@),
{
    let mut i: usize = 0;
    while i < ids.len()
        invariant
            i <= ids@.len(),
            forall|j: int| 0 <= j < i ==> ids@[j]@ != id@,
        decreases ids@.len() - i,
    {
        if ids[i] == id {
            assert(ids_view(ids@)[i as int] == id@);
            return true;
        }
        i += 1;
    }
    assert forall|j: int| 0 <= j < ids_view(ids@).len() implies ids_view(ids@)[j] != id@ by {
        assert(ids_view(ids@)[j] == ids@[j]@);
    }
    false
}

/// Taking one more element of `s` adds it to the filtered prefix when it passes.
pub proof fn lemma_filter_take<T>(s: Seq<T>, p: spec_fn(T) -> bool, i: int)
    requires
        0 <= i < s.len(),
    ensures
        s.take(i + 1).filter(p) == (if p(s[i]) {
            s.take(i).filter(p).push(s[i])
        } else {
            s.take(i).filter(p)
        }),
{
    reveal(Seq::filter);
    assert(s.take(i + 1).drop_last() =~= s.take(i));
    assert(s.take(i + 1).last() == s[i]);
}

/// A binding that a later binding of `key` (any key when `None`) for widget `id` removes.
pub open spec fn drops<A>(b: Binding<A>, id: Seq<char>, key: Option<KeyBinding>) -> bool {
    &&& b.id@ == id
    &&& match key {
        Some(k) => b.key == k,
        None => true,
    }
}

/// The bindings of `bs` that `drops` keeps.
pub open spec fn kept<A>(bs: Seq<Binding<A>>, id: Seq<char>, key: Option<KeyBinding>) -> Seq<Binding<A>> {
    bs.filter(|b: Binding<A>| !drops(b, id, key))
}

/// `bs` after binding `key` of widget `id` to `action`: an earlier binding of
/// the same key for the same widget is removed, the new one goes last.
pub open spec fn bind_one<A>(bs: Seq<Binding<A>>, id: WidgetId, key: KeyBinding, name: &'static str, action: A) -> Seq<Binding<A>> {
    kept(bs, id@, Some(key)).push(Binding { key, id, action, name })
}

/// `bs` after binding each of `keys`, in order, the i-th to `actions[i]`.
pub open spec fn bind_all<A>(bs: Seq<Binding<A>>, id: WidgetId, keys: Seq<KeyBinding>, name: &'static str, actions: Seq<A>) -> Seq<Binding<A>>
    decreases keys.len(),
{
    if keys.len() == 0 {
        bs
    } else {
        bind_one(bind_all(bs, id, keys.drop_last(), name, actions.drop_last()), id, keys.last(), name, actions.last())
    }
}

/// A binding fires on `key` when it is for that key and its widget is active.
pub open spec fn fires<A>(b: Binding<A>, key: KeyBinding, ids: Seq<Seq<char>>) -> bool {
    b.key == key && ids.contains(b.id@)
}

/// Whether a binding is listed: always when `ids` is `None`, else when its widget is in `ids`.
pub open spec fn shown<A>(b: Binding<A>, ids: Option<Seq<Seq<char>>>) -> bool {
    match ids {
        Some(v) => v.contains(b.id@),
        None => true,
    }
}

/// The help group of a binding: its widget and action name.
pub open spec fn group_of<A>(b: Binding<A>) -> (Seq<char>, Seq<char>) {
    (b.id@, b.name@)
}

/// The help group of a listing entry.
pub open spec fn info_group(d: DisplayInfo) -> (Seq<char>, Seq<char>) {
    (d.id@, d.name@)
}

/// The distinct elements of `s`, in the order of their first occurrence.
pub open spec fn first_occurrences<T>(s: Seq<T>) -> Seq<T>
    decreases s.len(),
{
    if s.len() == 0 {
        s
    } else {
        let prev = first_occurrences(s.drop_last());
        if prev.contains(s.last()) {
            prev
        } else {
            prev.push(s.last())
        }
    }
}

/// The help groups of the listed bindings, in the order of their first binding.
pub open spec fn help_groups<A>(bs: Seq<Binding<A>>, ids: Option<Seq<Seq<char>>>) -> Seq<(Seq<char>, Seq<char>)> {
    first_occurrences(bs.filter(|b: Binding<A>| shown(b, ids)).map_values(|b: Binding<A>| group_of(b)))
}

/// The keys of the listed bindings of help group `g`, in binding order.
pub open spec fn help_keys<A>(bs: Seq<Binding<A>>, ids: Option<Seq<Seq<char>>>, g: (Seq<char>, Seq<char>)) -> Seq<KeyBinding> {
    bs.filter(|b: Binding<A>| shown(b, ids) && group_of(b) == g).map_values(|b: Binding<A>| b.key)
}

/// Some entry of `r` has the widget and action name of `b` and lists its key.
pub open spec fn lists_binding<A>(r: Seq<DisplayInfo>, b: Binding<A>) -> bool {
    exists|j: int| 0 <= j < r.len() && r[j].id@ == b.id@ && r[j].name@ == b.name@ && r[j].keys@.contains(b.key)
}

/// A help listing of `bs`: one entry per help group in order of first
/// binding, each with the keys of its group in binding order.
pub open spec fn is_listing<A>(r: Seq<DisplayInfo>, bs: Seq<Binding<A>>, ids: Option<Seq<Seq<char>>>) -> bool {
    &&& r.map_values(|d: DisplayInfo| info_group(d)) == help_groups(bs, ids)
    &&& forall|j: int| 0 <= j < r.len() ==> (#[trigger] r[j]).keys@ == help_keys(bs, ids, info_group(r[j]))
}

/// A help group key, by text.
pub open spec fn group_view(p: (WidgetId, &'static str)) -> (Seq<char>, Seq<char>) {
    (p.0@, p.1@)
}

fn has_group(groups: &Vec<(WidgetId, &'static str)>, id: WidgetId, name: &'static str) -> (r: bool)
    ensures
        r == groups@.map_values(|p: (WidgetId, &'static str)| group_view(p)).contains((id@, name@)),
{
    let ghost gv = groups@.map_values(|p: (WidgetId, &'static str)| group_view(p));
    let mut i: usize = 0;
    while i < groups.len()
        invariant
            i <= groups@.len(),
            gv == groups@.map_values(|p: (WidgetId, &'static str)| group_view(p)),
            forall|j: int| 0 <= j < i ==> gv[j] != (id@, name@),
        decreases groups@.len() - i,
    {
        let g = groups[i];
        if g.0 == id && crate::text::str_eq(g.1, name) {
            assert(gv[i as int] == (id@, name@));
            return true;
        }
        i += 1;
    }
    false
}

/// Registry of key bindings of widgets and of any-key handlers.
pub struct Keybindings<A, H> {
    bindings: Vec<Binding<A>>,
    any_key_handlers: Vec<AnyKeyHandler<H>>,
}

impl<A, H> Keybindings<A, H> {
    /// The bindings, oldest first.
    pub closed spec fn bindings(&self) -> Seq<Binding<A>> {
        self.bindings@
    }

    /// The any-key handlers, oldest first.
    pub closed spec fn any_handlers(&self) -> Seq<AnyKeyHandler<H>> {
        self.any_key_handlers@
    }

    /// An empty registry.
    pub fn new() -> (r: Self)
        ensures
            r.bindings() == Seq::<Binding<A>>::empty(),
            r.any_handlers() == Seq::<AnyKeyHandler<H>>::empty(),
    {
        Keybindings { bindings: Vec::new(), any_key_handlers: Vec::new() }
    }

    fn retain(bs: Vec<Binding<A>>, id: WidgetId, key: Option<KeyBinding>) -> (r: Vec<Binding<A>>)
        ensures
            r@ == kept(bs@, id@, key),
    {
        let ghost orig = bs@;
        let ghost p = |b: Binding<A>| !drops(b, id@, key);
        let total = bs.len();
        let mut rest = bs;
        let mut out: Vec<Binding<A>> = Vec::new();
        let mut i: usize = 0;
        while rest.len() > 0
            invariant
                i + rest@.len() == orig.len(),
                orig.len() == total,
                rest@ == orig.subrange(i as int, orig.len() as int),
                out@ == orig.take(i as int).filter(p),
                p == (|b: Binding<A>| !drops(b, id@, key)),
            decreases rest@.len(),
        {
            let b = rest.remove(0);
            proof {
                assert(b == orig[i as int]);
                lemma_filter_take(orig, p, i as int);
            }
            let drop_it = b.id == id && match key {
                Some(k) => b.key == k,
                None => true,
            };
            if !drop_it {
                out.push(b);
            }
            i += 1;
        }
        assert(orig.take(orig.len() as int) =~= orig);
        out
    }

    /// Binds `key` of widget `id` to an action named `name`, replacing an
    /// earlier binding of the same key for the same widget. The new binding
    /// goes last.
    pub fn bind(&mut self, id: WidgetId, key: KeyBinding, name: &'static str, action: A)
        ensures
            final(self).bindings() == bind_one(old(self).bindings(), id, key, name, action),
            final(self).any_handlers() == old(self).any_handlers(),
            forall|i: int|
                0 <= i < old(self).bindings().len() && !(old(self).bindings()[i].key == key
                    && old(self).bindings()[i].id@ == id@) ==> final(self).bindings().contains(
                    #[trigger] old(self).bindings()[i],
                ),
            final(self).bindings().last() == (Binding { key, id, action, name }),
    {
        let mut bs: Vec<Binding<A>> = Vec::new();
        std::mem::swap(&mut bs, &mut self.bindings);
        let ghost before = bs@;
        let mut kept_bindings = Self::retain(bs, id, Some(key));
        kept_bindings.push(Binding { id, key, action, name });
        self.bindings = kept_bindings;
        proof {
            crate::laws::bind_keeps_other_bindings(before, id, key, name, action);
        }
    }

    /// Binds each of `keys`, in order, to a clone of `action`.
    pub fn bind_many(&mut self, id: WidgetId, keys: Keys, name: &'static str, action: A)
        where
            A: Clone,
        ensures
            exists|actions: Seq<A>|
                #![trigger bind_all(old(self).bindings(), id, keys.0@, name, actions)]
                actions.len() == keys.0@.len()
                && (forall|i: int| 0 <= i < actions.len() ==> cloned(action, #[trigger] actions[i]))
                && final(self).bindings() == bind_all(old(self).bindings(), id, keys.0@, name, actions),
            final(self).any_handlers() == old(self).any_handlers(),
    {
        let ghost orig = self.bindings();
        let ks = keys.0;
        let ghost ks_view = ks@;
        let ghost mut actions: Seq<A> = Seq::empty();
        let mut i: usize = 0;
        while i < ks.len()
            invariant
                i <= ks@.len(),
                ks@ == ks_view,
                actions.len() == i,
                forall|j: int| 0 <= j < actions.len() ==> cloned(action, #[trigger] actions[j]),
                self.bindings() == bind_all(orig, id, ks_view.take(i as int), name, actions),
                self.any_handlers() == old(self).any_handlers(),
            decreases ks@.len() - i,
        {
            let a = action.clone();
            let k = ks[i];
            self.bind(id, k, name, a);
            proof {
                let ghost prev = actions;
                actions = actions.push(a);
                assert(ks_view.take(i + 1).drop_last() =~= ks_view.take(i as int));
                assert(actions.drop_last() =~= prev);
                assert(ks_view.take(i + 1).last() == k);
            }
            i += 1;
        }
        assert(ks_view.take(ks_view.len() as int) =~= ks_view);
    }

    /// Adds a handler for any key pressed on widget `id` that no binding takes.
    pub fn bind_any(&mut self, id: WidgetId, handler: H)
        ensures
            final(self).bindings() == old(self).bindings(),
            final(self).any_handlers() == old(self).any_handlers().push(AnyKeyHandler { id, handler }),
    {
        self.any_key_handlers.push(AnyKeyHandler { id, handler });
    }

    /// Resolves a key press with the widgets `ids` active: the action of the
    /// first binding of the key to an active widget; else the first any-key
    /// handler of an active widget; else nothing.
    pub fn handle<'a>(&'a self, key: &KeyBinding, ids: &[WidgetId]) -> (r: KeyAction<'a, A, H>)
        ensures
            match r {
                KeyAction::Bound(a) => exists|i: int|
                    0 <= i < self.bindings().len()
                    && #[trigger] fires(self.bindings()[i], *key, ids_view(ids@))
                    && (forall|j: int| 0 <= j < i ==> !#[trigger] fires(self.bindings()[j], *key, ids_view(ids@)))
                    && *a == self.bindings()[i].action,
                KeyAction::AnyKey(h) => (forall|j: int| 0 <= j < self.bindings().len()
                    ==> !#[trigger] fires(self.bindings()[j], *key, ids_view(ids@)))
                    && exists|i: int|
                    0 <= i < self.any_handlers().len()
                    && ids_view(ids@).contains(#[trigger] self.any_handlers()[i].id@)
                    && (forall|j: int| 0 <= j < i ==> !ids_view(ids@).contains(#[trigger] self.any_handlers()[j].id@))
                    && *h == self.any_handlers()[i].handler,
                KeyAction::Unhandled => (forall|j: int| 0 <= j < self.bindings().len()
                    ==> !#[trigger] fires(self.bindings()[j], *key, ids_view(ids@)))
                    && (forall|j: int| 0 <= j < self.any_handlers().len()
                    ==> !ids_view(ids@).contains(#[trigger] self.any_handlers()[j].id@)),
            },
            (exists|i: int|
                0 <= i < self.bindings().len() && #[trigger] self.bindings()[i].key == *key
                    && ids_view(ids@).contains(self.bindings()[i].id@)) ==> r is Bound,
            r matches KeyAction::Bound(a) ==> exists|i: int|
                0 <= i < self.bindings().len() && #[trigger] self.bindings()[i].key == *key
                    && ids_view(ids@).contains(self.bindings()[i].id@)
                    && *a == self.bindings()[i].action,
    {
        let mut i: usize = 0;
        while i < self.bindings.len()
            invariant
                i <= self.bindings@.len(),
                forall|j: int| 0 <= j < i ==> !#[trigger] fires(self.bindings()[j], *key, ids_view(ids@)),
            decreases self.bindings@.len() - i,
        {
            let binding = &self.bindings[i];
            if binding.key == *key {
                if contains_id(ids, binding.id) {
                    assert(fires(self.bindings()[i as int], *key, ids_view(ids@)));
                    return KeyAction::Bound(&binding.action);
                }
            }
            i += 1;
        }
        let mut i: usize = 0;
        while i < self.any_key_handlers.len()
            invariant
                i <= self.any_key_handlers@.len(),
                forall|j: int| 0 <= j < self.bindings().len() ==> !#[trigger] fires(self.bindings()[j], *key, ids_view(ids@)),
                forall|j: int| 0 <= j < i ==> !ids_view(ids@).contains(#[trigger] self.any_handlers()[j].id@),
            decreases self.any_key_handlers@.len() - i,
        {
            let handler = &self.any_key_handlers[i];
            if contains_id(ids, handler.id) {
                assert(ids_view(ids@).contains(self.any_handlers()[i as int].id@));
                proof {
                    assert forall|t: int|
                        0 <= t < self.bindings().len() && #[trigger] self.bindings()[t].key == *key implies
                        !ids_view(ids@).contains(self.bindings()[t].id@) by {
                        assert(!fires(self.bindings()[t], *key, ids_view(ids@)));
                    }
                }
                return KeyAction::AnyKey(&handler.handler);
            }
            i += 1;
        }
        proof {
                assert forall|t: int|
                    0 <= t < self.bindings().len() && #[trigger] self.bindings()[t].key == *key implies
                    !ids_view(ids@).contains(self.bindings()[t].id@) by {
                    assert(!fires(self.bindings()[t], *key, ids_view(ids@)));
                }
            }
        KeyAction::Unhandled
    }

    fn listing(&self, ids: &[WidgetId], all: bool) -> (r: Vec<DisplayInfo>)
        ensures
            is_listing(r@, self.bindings(), if all { None } else { Some(ids_view(ids@)) }),
    {
        let ghost sel: Option<Seq<Seq<char>>> = if all { None } else { Some(ids_view(ids@)) };
        let ghost bs = self.bindings@;
        let ghost p = |b: Binding<A>| shown(b, sel);
        let ghost gf = |b: Binding<A>| group_of(b);
        let ghost pv = |q: (WidgetId, &'static str)| group_view(q);
        let n = self.bindings.len();
        let mut groups: Vec<(WidgetId, &'static str)> = Vec::new();
        let mut i: usize = 0;
        while i < n
            invariant
                n == bs.len(),
                bs == self.bindings@,
                i <= n,
                p == (|b: Binding<A>| shown(b, sel)),
                gf == (|b: Binding<A>| group_of(b)),
                pv == (|q: (WidgetId, &'static str)| group_view(q)),
                sel == (if all { None } else { Some(ids_view(ids@)) }),
                groups@.map_values(pv) == first_occurrences(bs.take(i as int).filter(p).map_values(gf)),
            decreases n - i,
        {
            let b = &self.bindings[i];
            let listed = all || contains_id(ids, b.id);
            proof {
                lemma_filter_take(bs, p, i as int);
                let f = bs.take(i as int).filter(p);
                assert(f.push(bs[i as int]).map_values(gf) =~= f.map_values(gf).push(gf(bs[i as int])));
                assert(f.map_values(gf).push(gf(bs[i as int])).drop_last() =~= f.map_values(gf));
            }
            if listed {
                if !has_group(&groups, b.id, b.name) {
                    let ghost before = groups@;
                    groups.push((b.id, b.name));
                    assert(groups@.map_values(pv) =~= before.map_values(pv).push(pv((b.id, b.name))));
                }
            }
            i += 1;
        }
        assert(bs.take(n as int) =~= bs);
        let mut out: Vec<DisplayInfo> = Vec::new();
        let mut j: usize = 0;
        while j < groups.len()
            invariant
                n == bs.len(),
                bs == self.bindings@,
                j <= groups@.len(),
                out@.len() == j,
                sel == (if all { None } else { Some(ids_view(ids@)) }),
                pv == (|q: (WidgetId, &'static str)| group_view(q)),
                forall|k: int| 0 <= k < j ==> info_group(#[trigger] out@[k]) == pv(groups@[k]),
                forall|k: int| 0 <= k < j ==> (#[trigger] out@[k]).keys@ == help_keys(bs, sel, info_group(out@[k])),
            decreases groups@.len() - j,
        {
            let (gid, gname) = groups[j];
            let ghost g = (gid@, gname@);
            let ghost q = |b: Binding<A>| shown(b, sel) && group_of(b) == g;
            let mut keys: Vec<KeyBinding> = Vec::new();
            let mut i: usize = 0;
            while i < n
                invariant
                    n == bs.len(),
                    bs == self.bindings@,
                    i <= n,
                    sel == (if all { None } else { Some(ids_view(ids@)) }),
                    q == (|b: Binding<A>| shown(b, sel) && group_of(b) == g),
                    g == (gid@, gname@),
                    keys@ == bs.take(i as int).filter(q).map_values(|b: Binding<A>| b.key),
                decreases n - i,
            {
                let b = &self.bindings[i];
                proof {
                    lemma_filter_take(bs, q, i as int);
                    let f = bs.take(i as int).filter(q);
                    assert(f.push(bs[i as int]).map_values(|b: Binding<A>| b.key) =~= f.map_values(|b: Binding<A>| b.key).push(bs[i as int].key));
                }
                let listed = all || contains_id(ids, b.id);
                if listed && b.id == gid && crate::text::str_eq(b.name, gname) {
                    keys.push(b.key);
                }
                i += 1;
            }
            assert(bs.take(n as int) =~= bs);
            out.push(DisplayInfo { keys, id: gid, name: gname });
            j += 1;
        }
        assert(out@.map_values(|d: DisplayInfo| info_group(d)) =~= groups@.map_values(pv));
        out
    }

    /// The bindings of the widgets `ids`, grouped by widget and action name:
    /// one entry per group, in the order of the group's first binding, with
    /// its keys in binding order.
    pub fn display_for(&self, ids: &[WidgetId]) -> (r: Vec<DisplayInfo>)
        ensures
            is_listing(r@, self.bindings(), Some(ids_view(ids@))),
            forall|i: int|
                0 <= i < self.bindings().len() && ids_view(ids@).contains(self.bindings()[i].id@)
                    ==> lists_binding(r@, #[trigger] self.bindings()[i]),
            forall|j: int, k: int|
                0 <= j < r@.len() && 0 <= k < r@[j].keys@.len() ==> exists|i: int|
                    0 <= i < self.bindings().len() && ids_view(ids@).contains(self.bindings()[i].id@)
                        && self.bindings()[i].key == #[trigger] r@[j].keys@[k] && self.bindings()[i].id@
                        == r@[j].id@ && self.bindings()[i].name@ == r@[j].name@,
    {
        let r = self.listing(ids, false);
        proof {
            assert forall|i: int|
                0 <= i < self.bindings().len() && ids_view(ids@).contains(self.bindings()[i].id@)
                    implies lists_binding(r@, #[trigger] self.bindings()[i]) by {
                crate::laws::listing_covers_active_bindings(r@, self.bindings(), ids_view(ids@), i);
            }
            assert forall|j: int, k: int|
                0 <= j < r@.len() && 0 <= k < r@[j].keys@.len() implies exists|i: int|
                    0 <= i < self.bindings().len() && ids_view(ids@).contains(self.bindings()[i].id@)
                        && self.bindings()[i].key == #[trigger] r@[j].keys@[k] && self.bindings()[i].id@
                        == r@[j].id@ && self.bindings()[i].name@ == r@[j].name@ by {
                crate::laws::listing_shows_only_active_bindings(r@, self.bindings(), ids_view(ids@), j, k);
            }
        }
        r
    }

    /// All bindings, grouped by widget and action name: one entry per group,
    /// in the order of the group's first binding, with its keys in binding order.
    pub fn display_all(&self) -> (r: Vec<DisplayInfo>)
        ensures
            is_listing(r@, self.bindings(), None),
            forall|i: int| 0 <= i < self.bindings().len() ==> lists_binding(r@, #[trigger] self.bindings()[i]),
    {
        let none: [WidgetId; 0] = [];
        let r = self.listing(&none, true);
        proof {
            assert forall|i: int| 0 <= i < self.bindings().len() implies lists_binding(r@, #[trigger] self.bindings()[i]) by {
                crate::laws::listing_covers_all_bindings(r@, self.bindings(), i);
            }
        }
        r
    }

    /// Removes all bindings of widget `id`; its any-key handlers stay.
    pub fn unbind(&mut self, id: WidgetId)
        ensures
            final(self).bindings() == kept(old(self).bindings(), id@, None),
            final(self).any_handlers() == old(self).any_handlers(),
            forall|i: int| 0 <= i < final(self).bindings().len() ==> (#[trigger] final(self).bindings()[i]).id@ != id@,
            forall|i: int|
                0 <= i < old(self).bindings().len() && old(self).bindings()[i].id@ != id@
                    ==> final(self).bindings().contains(#[trigger] old(self).bindings()[i]),
    {
        proof {
            crate::laws::unbind_removes_all_bindings(old(self).bindings(), id);
            crate::laws::unbind_keeps_other_widgets(old(self).bindings(), id);
        }
        let mut bs: Vec<Binding<A>> = Vec::new();
        std::mem::swap(&mut bs, &mut self.bindings);
        self.bindings = Self::retain(bs, id, None);
    }
}

impl<A, H> Default for Keybindings<A, H> {
    fn default() -> (r: Self)
        ensures
            r.bindings() == Seq::<Binding<A>>::empty(),
            r.any_handlers() == Seq::<AnyKeyHandler<H>>::empty(),
    {
        Self::new()
    }
}

} // verus!
