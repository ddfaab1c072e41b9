use tui_world::keybindings::{KeyAction, KeyBinding, Keybindings, Keys};
use tui_world::keycode::{KeyCode, KeyModifiers, MediaKeyCode, ModifierKeyCode};
use tui_world::WidgetId;

const LIST: WidgetId = WidgetId("list");
const GLOBAL: WidgetId = WidgetId("global");

fn action_of(k: &Keybindings<&'static str, &'static str>, key: KeyBinding, ids: &[WidgetId]) -> Option<&'static str> {
    match k.handle(&key, ids) {
        KeyAction::Bound(a) => Some(*a),
        KeyAction::AnyKey(h) => Some(*h),
        KeyAction::Unhandled => None,
    }
}

#[test]
fn display_full_notation() {
    assert_eq!(KeyBinding::from('H').display(), "Shift+h");
    assert_eq!(KeyBinding::ctrl('c').display(), "Ctrl+c");
    assert_eq!(KeyBinding::alt('x').display(), "Alt+x");
    assert_eq!(KeyBinding::shift('a').display(), "Shift+a");
    assert_eq!(KeyBinding::key(KeyCode::Up).display(), "\u{2191}");
    assert_eq!(KeyBinding::key(KeyCode::Down).display(), "\u{2193}");
    assert_eq!(KeyBinding::key(KeyCode::Left).display(), "\u{2190}");
    assert_eq!(KeyBinding::key(KeyCode::Right).display(), "\u{2192}");
    assert_eq!(KeyBinding::key(KeyCode::BackTab).display(), "Shift+Tab");
    assert_eq!(KeyBinding::key(KeyCode::Enter).display(), "Enter");
    assert_eq!(KeyBinding::key(KeyCode::Backspace).display(), "Backspace");
    assert_eq!(KeyBinding::key(KeyCode::PageDown).display(), "PageDown");
    assert_eq!(KeyBinding::key(KeyCode::F(12)).display(), "F12");
    assert_eq!(KeyBinding::key(KeyCode::F(100)).display(), "F100");
    assert_eq!(KeyBinding::key(KeyCode::Insert).display(), "Insert");
    assert_eq!(KeyBinding::key(KeyCode::Media(MediaKeyCode::PlayPause)).display(), "Media(PlayPause)");
    assert_eq!(KeyBinding::key(KeyCode::Modifier(ModifierKeyCode::LeftShift)).display(), "Modifier(LeftShift)");
    let all = KeyModifiers::control().union(KeyModifiers::alt()).union(KeyModifiers::shift());
    assert_eq!(KeyBinding::new(KeyCode::Char('X'), all).display(), "Ctrl+Alt+Shift+x");
    assert_eq!(KeyBinding::new(KeyCode::F(1), KeyModifiers::alt()).display(), "Alt+F1");
}

#[test]
fn space_is_shown_without_modifiers_in_full_notation() {
    assert_eq!(KeyBinding::key(KeyCode::Char(' ')).display(), "Space");
    assert_eq!(KeyBinding::ctrl(' ').display(), "Space");
    assert_eq!(KeyBinding::ctrl(' ').display_compact(), "\u{2303}Space");
}

#[test]
fn display_compact_notation() {
    assert_eq!(KeyBinding::from('H').display_compact(), "\u{21e7}h");
    assert_eq!(KeyBinding::ctrl('c').display_compact(), "\u{2303}c");
    assert_eq!(KeyBinding::alt('x').display_compact(), "\u{2325}x");
    assert_eq!(KeyBinding::key(KeyCode::BackTab).display_compact(), "Tab");
    assert_eq!(KeyBinding::key(KeyCode::Enter).display_compact(), "\u{23ce}");
    assert_eq!(KeyBinding::key(KeyCode::Backspace).display_compact(), "\u{232b}");
    assert_eq!(KeyBinding::key(KeyCode::Delete).display_compact(), "Del");
    assert_eq!(KeyBinding::key(KeyCode::PageUp).display_compact(), "PgUp");
    assert_eq!(KeyBinding::key(KeyCode::PageDown).display_compact(), "PgDn");
    assert_eq!(KeyBinding::key(KeyCode::F(7)).display_compact(), "F7");
    assert_eq!(KeyBinding::key(KeyCode::Null).display_compact(), "Null");
    let all = KeyModifiers::control().union(KeyModifiers::alt()).union(KeyModifiers::shift());
    assert_eq!(KeyBinding::new(KeyCode::Tab, all).display_compact(), "\u{2303}\u{2325}\u{21e7}Tab");
}

#[test]
fn char_conversion_adds_shift_for_uppercase_only() {
    assert_eq!(KeyBinding::from('H'), KeyBinding::new(KeyCode::Char('H'), KeyModifiers::shift()));
    assert_eq!(KeyBinding::from('h'), KeyBinding::new(KeyCode::Char('h'), KeyModifiers::none()));
    assert_eq!(KeyBinding::from('1'), KeyBinding::key(KeyCode::Char('1')));
    assert_eq!(KeyBinding::from(KeyCode::Esc), KeyBinding::new(KeyCode::Esc, KeyModifiers::none()));
}

#[test]
fn modifier_sets() {
    let m = KeyModifiers::control().union(KeyModifiers::shift());
    assert!(m.contains(KeyModifiers::control()));
    assert!(m.contains(KeyModifiers::shift()));
    assert!(!m.contains(KeyModifiers::alt()));
    assert!(m.contains(KeyModifiers::none()));
    assert_eq!(m.bits, 3);
}

#[test]
fn bind_replaces_same_key_of_same_widget() {
    let mut k: Keybindings<&'static str, &'static str> = Keybindings::new();
    k.bind(LIST, KeyBinding::from('j'), "Down", "first");
    k.bind(LIST, KeyBinding::from('j'), "Down", "second");
    assert_eq!(action_of(&k, KeyBinding::from('j'), &[LIST]), Some("second"));
    assert_eq!(k.display_all().len(), 1);
    assert_eq!(k.display_all()[0].keys.len(), 1);
}

#[test]
fn handle_takes_first_binding_of_an_active_widget() {
    let mut k: Keybindings<&'static str, &'static str> = Keybindings::new();
    k.bind(GLOBAL, KeyBinding::from('q'), "Quit", "quit");
    k.bind(LIST, KeyBinding::from('q'), "Close", "close");
    assert_eq!(action_of(&k, KeyBinding::from('q'), &[GLOBAL, LIST]), Some("quit"));
    assert_eq!(action_of(&k, KeyBinding::from('q'), &[LIST]), Some("close"));
    assert_eq!(action_of(&k, KeyBinding::from('q'), &[]), None);
    assert_eq!(action_of(&k, KeyBinding::ctrl('q'), &[GLOBAL, LIST]), None);
}

#[test]
fn any_key_handler_is_the_fallback() {
    let mut k: Keybindings<&'static str, &'static str> = Keybindings::new();
    k.bind(LIST, KeyBinding::from('j'), "Down", "down");
    k.bind_any(LIST, "typed");
    k.bind_any(GLOBAL, "global-typed");
    assert_eq!(action_of(&k, KeyBinding::from('j'), &[LIST]), Some("down"));
    assert_eq!(action_of(&k, KeyBinding::from('x'), &[LIST]), Some("typed"));
    assert_eq!(action_of(&k, KeyBinding::from('x'), &[GLOBAL, LIST]), Some("typed"));
    assert_eq!(action_of(&k, KeyBinding::from('x'), &[GLOBAL]), Some("global-typed"));
    assert!(k.handle(&KeyBinding::from('x'), &[LIST]).is_handled());
    assert!(!k.handle(&KeyBinding::from('x'), &[WidgetId("other")]).is_handled());
}

#[test]
fn unbind_removes_bindings_but_not_any_key_handlers() {
    let mut k: Keybindings<&'static str, &'static str> = Keybindings::new();
    k.bind(LIST, KeyBinding::from('j'), "Down", "down");
    k.bind(GLOBAL, KeyBinding::from('q'), "Quit", "quit");
    k.bind_any(LIST, "typed");
    k.unbind(LIST);
    assert_eq!(action_of(&k, KeyBinding::from('j'), &[LIST]), Some("typed"));
    assert_eq!(action_of(&k, KeyBinding::from('q'), &[GLOBAL]), Some("quit"));
    assert_eq!(k.display_all().len(), 1);
}

#[test]
fn bind_many_binds_each_key() {
    let mut k: Keybindings<&'static str, &'static str> = Keybindings::new();
    let keys: Keys = vec![KeyBinding::key(KeyCode::Up), KeyBinding::from('k')].into();
    k.bind_many(LIST, keys, "Up", "up");
    assert_eq!(action_of(&k, KeyBinding::key(KeyCode::Up), &[LIST]), Some("up"));
    assert_eq!(action_of(&k, KeyBinding::from('k'), &[LIST]), Some("up"));
    let info = k.display_for(&[LIST]);
    assert_eq!(info.len(), 1);
    assert_eq!(info[0].keys_display(), "\u{2191}, k");
}

#[test]
fn display_groups_by_widget_and_name_in_first_binding_order() {
    let mut k: Keybindings<&'static str, &'static str> = Keybindings::new();
    k.bind(LIST, KeyBinding::from('j'), "Down", "down");
    k.bind(GLOBAL, KeyBinding::from('q'), "Quit", "quit");
    k.bind(LIST, KeyBinding::from('k'), "Up", "up");
    k.bind(LIST, KeyBinding::key(KeyCode::Down), "Down", "down");
    k.bind(GLOBAL, KeyBinding::ctrl('c'), "Quit", "quit");

    let all = k.display_all();
    let summary: Vec<(&str, &str, String)> = all.iter().map(|d| (d.id.0, d.name, d.keys_display())).collect();
    assert_eq!(
        summary,
        vec![
            ("list", "Down", "j, \u{2193}".to_string()),
            ("global", "Quit", "q, Ctrl+c".to_string()),
            ("list", "Up", "k".to_string()),
        ]
    );

    let list_only = k.display_for(&[LIST]);
    let names: Vec<&str> = list_only.iter().map(|d| d.name).collect();
    assert_eq!(names, vec!["Down", "Up"]);
    assert_eq!(list_only[0].keys_display_compact(), "j, \u{2193}");

    assert!(k.display_for(&[WidgetId("other")]).is_empty());
}

#[test]
fn same_name_on_different_widgets_is_two_groups() {
    let mut k: Keybindings<u8, u8> = Keybindings::new();
    k.bind(LIST, KeyBinding::from('x'), "Delete", 1);
    k.bind(GLOBAL, KeyBinding::from('d'), "Delete", 2);
    assert_eq!(k.display_all().len(), 2);
    assert_eq!(k.display_for(&[GLOBAL, LIST]).len(), 2);
}

#[test]
fn keys_display_with_custom_formatter() {
    let mut k: Keybindings<u8, u8> = Keybindings::new();
    k.bind(LIST, KeyBinding::key(KeyCode::Up), "Move", 1);
    k.bind(LIST, KeyBinding::key(KeyCode::Down), "Move", 1);
    let info = &k.display_all()[0];
    assert_eq!(info.keys_display_with(|key| format!("[{}]", key.display())), "[\u{2191}], [\u{2193}]");
    let empty = tui_world::DisplayInfo { keys: vec![], id: LIST, name: "Nothing" };
    assert_eq!(empty.keys_display(), "");
}

#[test]
fn keys_clone_keeps_keys() {
    let keys = Keys(vec![KeyBinding::from('a'), KeyBinding::from('B')]);
    let copy = keys.clone();
    assert_eq!(copy.0, keys.0);
}
