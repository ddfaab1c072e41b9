use tui_world::mouse::Mouse;
use tui_world::WidgetId;

#[test]
fn click_handler_is_read_back_and_removed() {
    let mut m: Mouse<u32> = Mouse::new();
    assert!(m.get(WidgetId("a")).is_none());
    m.on_click(WidgetId("a"), 1);
    m.on_click(WidgetId("b"), 2);
    m.on_click(WidgetId("a"), 3);
    assert_eq!(m.get(WidgetId("a")), Some(&3));
    assert_eq!(m.get(WidgetId("b")), Some(&2));
    m.remove(WidgetId("a"));
    assert_eq!(m.get(WidgetId("a")), None);
    assert_eq!(m.get(WidgetId("b")), Some(&2));
}
