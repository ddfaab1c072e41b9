use tui_world::input_event::{InputEvent, MouseButton, MouseEvent, MouseEventKind};
use tui_world::keybindings::KeyBinding;

#[test]
fn input_events_hold_plain_values() {
    let e = InputEvent::Mouse(MouseEvent { kind: MouseEventKind::Down(MouseButton::Middle), column: 3, row: 4 });
    match e {
        InputEvent::Mouse(m) => assert_eq!((m.column, m.row), (3, 4)),
        _ => panic!("not a mouse event"),
    }
    let k = InputEvent::Key(KeyBinding::from('a'));
    assert!(matches!(k, InputEvent::Key(_)));
    assert!(matches!(InputEvent::Tick, InputEvent::Tick));
}
