use tui_world::focus::Focus;
use tui_world::WidgetId;

#[test]
fn focus_follows_set_and_clear() {
    let mut focus = Focus::new(WidgetId("input"));
    assert!(focus.is_focused(WidgetId("input")));

    focus.set(Some(WidgetId("button")));
    assert!(focus.is_focused(WidgetId("button")));
    assert!(!focus.is_focused(WidgetId("input")));

    focus.clear();
    assert!(!focus.is_focused(WidgetId("button")));
}

#[test]
fn default_focus_is_empty() {
    let focus = Focus::default();
    assert_eq!(focus.id, None);
    assert!(!focus.is_focused(WidgetId("")));
}

#[test]
fn set_none_clears_focus() {
    let mut focus = Focus::new(WidgetId("a"));
    focus.set(None);
    assert_eq!(focus.id, None);
}

#[test]
fn widget_ids_compare_by_text() {
    assert_eq!(WidgetId("list"), WidgetId("list"));
    assert_ne!(WidgetId("list"), WidgetId("lisT"));
    assert_ne!(WidgetId("list"), WidgetId("lis"));
    assert_eq!(WidgetId::default(), WidgetId(""));
}
