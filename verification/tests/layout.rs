use tui_world::layout::{Area, HitMap};
use tui_world::WidgetId;

#[test]
fn area_contains_its_cells_only() {
    let a = Area::new(10, 5, 20, 3);
    assert!(a.contains(10, 5));
    assert!(a.contains(29, 7));
    assert!(!a.contains(30, 7));
    assert!(!a.contains(29, 8));
    assert!(!a.contains(9, 5));
    assert!(!a.contains(10, 4));
}

#[test]
fn empty_area_contains_nothing() {
    let a = Area::new(3, 3, 0, 5);
    assert!(!a.contains(3, 3));
}

#[test]
fn area_from_point_is_one_cell() {
    let a: Area = (4u16, 9u16).into();
    assert_eq!((a.x, a.y, a.width, a.height), (4, 9, 1, 1));
}

#[test]
fn hit_map_prefers_later_widgets() {
    let mut m = HitMap::default();
    m.set(WidgetId("back"), Area::new(0, 0, 10, 10));
    m.set(WidgetId("front"), Area::new(2, 2, 3, 3));
    assert_eq!(m.hit_test(3, 3), Some(WidgetId("front")));
    assert_eq!(m.hit_test(8, 8), Some(WidgetId("back")));
    assert_eq!(m.hit_test(20, 20), None);
}

#[test]
fn hit_map_reset_keeps_z_order() {
    let mut m = HitMap::default();
    m.set(WidgetId("back"), Area::new(0, 0, 10, 10));
    m.set(WidgetId("front"), Area::new(0, 0, 10, 10));
    m.set(WidgetId("back"), Area::new(0, 0, 5, 5));
    assert_eq!(m.hit_test(1, 1), Some(WidgetId("front")));
    assert_eq!(m.get(WidgetId("back")).map(|a| a.width), Some(5));
}

#[test]
fn hit_map_remove_forgets_widget() {
    let mut m = HitMap::default();
    m.set(WidgetId("a"), Area::new(0, 0, 10, 10));
    m.set(WidgetId("b"), Area::new(0, 0, 10, 10));
    m.remove(WidgetId("b"));
    assert!(m.get(WidgetId("b")).is_none());
    assert_eq!(m.hit_test(1, 1), Some(WidgetId("a")));
    m.remove(WidgetId("missing"));
    assert_eq!(m.hit_test(1, 1), Some(WidgetId("a")));
}

#[test]
fn can_hit_test_detects_overflowing_areas() {
    let mut m = HitMap::default();
    m.set(WidgetId("edge"), Area::new(65530, 0, 10, 1));
    assert!(!m.can_hit_test(65531, 0));
    assert!(m.can_hit_test(3, 0));
    assert_eq!(m.hit_test(3, 0), None);
}
