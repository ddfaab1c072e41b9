use tui_world::input_event::{MouseButton, MouseEventKind};
use tui_world::pointer::{Area, Pointer};
use tui_world::WidgetId;

fn two_widgets() -> Pointer<&'static str> {
    let mut p = Pointer::new();
    p.set(WidgetId("list"), Area::new(0, 0, 20, 10));
    p.set(WidgetId("button"), Area::new(5, 5, 4, 1));
    p.on_click(WidgetId("list"), "list-down");
    p.on_drag(WidgetId("list"), "list-drag");
    p.on_up(WidgetId("list"), "list-up");
    p.on_click(WidgetId("button"), "button-down");
    p
}

#[test]
fn hit_test_returns_topmost() {
    let p = two_widgets();
    assert_eq!(p.hit_test(6, 5), Some(WidgetId("button")));
    assert_eq!(p.hit_test(6, 6), Some(WidgetId("list")));
    assert_eq!(p.hit_test(30, 30), None);
}

#[test]
fn hit_test_handler_pairs_widget_and_click_handler() {
    let p = two_widgets();
    assert_eq!(p.hit_test_handler(6, 5), Some((WidgetId("button"), &"button-down")));
    assert_eq!(p.hit_test_handler(30, 30), None);
    let mut q: Pointer<&'static str> = Pointer::new();
    q.set(WidgetId("plain"), Area::new(0, 0, 2, 2));
    assert_eq!(q.hit_test_handler(1, 1), None);
}

#[test]
fn handlers_by_kind() {
    let p = two_widgets();
    let left = MouseButton::Left;
    assert_eq!(p.get_handler(WidgetId("list")), Some(&"list-down"));
    assert_eq!(p.get_handler_for(WidgetId("list"), MouseEventKind::Down(left)), Some(&"list-down"));
    assert_eq!(p.get_handler_for(WidgetId("list"), MouseEventKind::Drag(left)), Some(&"list-drag"));
    assert_eq!(p.get_handler_for(WidgetId("list"), MouseEventKind::Up(left)), Some(&"list-up"));
    assert_eq!(p.get_handler_for(WidgetId("list"), MouseEventKind::Moved), None);
    assert_eq!(p.get_handler_for(WidgetId("button"), MouseEventKind::Drag(left)), None);
    assert_eq!(p.get_handler_for(WidgetId("none"), MouseEventKind::Down(left)), None);
}

#[test]
fn on_down_is_on_click() {
    let mut p: Pointer<u8> = Pointer::new();
    p.on_drag(WidgetId("w"), 2);
    p.on_down(WidgetId("w"), 1);
    assert_eq!(p.get_handler(WidgetId("w")), Some(&1));
    assert_eq!(p.get_handler_for(WidgetId("w"), MouseEventKind::Drag(MouseButton::Right)), Some(&2));
}

#[test]
fn drag_and_up_go_to_the_widget_pressed() {
    let mut p = two_widgets();
    let left = MouseButton::Left;
    let down = MouseEventKind::Down(left);
    assert_eq!(p.route_mouse(down, 1, 1), Some(WidgetId("list")));
    assert_eq!(p.active(), Some(WidgetId("list")));
    p.finish_mouse(down);
    let drag = MouseEventKind::Drag(left);
    assert_eq!(p.route_mouse(drag, 6, 5), Some(WidgetId("list")));
    let target = p.mouse_target(WidgetId("list"), drag).map(|(a, f)| (a.width, *f));
    assert_eq!(target, Some((20, "list-drag")));
    let up = MouseEventKind::Up(left);
    assert_eq!(p.route_mouse(up, 50, 50), Some(WidgetId("list")));
    p.finish_mouse(up);
    assert_eq!(p.active(), None);
    assert_eq!(p.route_mouse(drag, 1, 1), None);
}

#[test]
fn down_outside_clears_active() {
    let mut p = two_widgets();
    let down = MouseEventKind::Down(MouseButton::Left);
    p.route_mouse(down, 1, 1);
    assert_eq!(p.route_mouse(down, 90, 90), None);
    assert_eq!(p.active(), None);
    assert_eq!(p.route_mouse(MouseEventKind::ScrollDown, 1, 1), None);
}

#[test]
fn remove_drops_area_handlers_and_active() {
    let mut p = two_widgets();
    p.set_active(Some(WidgetId("button")));
    p.remove(WidgetId("button"));
    assert!(p.get(WidgetId("button")).is_none());
    assert!(p.get_handler(WidgetId("button")).is_none());
    assert_eq!(p.active(), None);
    assert_eq!(p.hit_test(6, 5), Some(WidgetId("list")));
    p.set_active(Some(WidgetId("list")));
    p.remove(WidgetId("button"));
    assert_eq!(p.active(), Some(WidgetId("list")));
}

#[test]
fn mouse_target_needs_area_and_handler() {
    let mut p: Pointer<u8> = Pointer::new();
    let down = MouseEventKind::Down(MouseButton::Left);
    p.on_click(WidgetId("w"), 7);
    assert!(p.mouse_target(WidgetId("w"), down).is_none());
    p.set(WidgetId("w"), Area::new(1, 2, 3, 4));
    let t = p.mouse_target(WidgetId("w"), down).map(|(a, f)| (a.x, a.y, *f));
    assert_eq!(t, Some((1, 2, 7)));
}
