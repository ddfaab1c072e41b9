# tui_world

State and event management for terminal user interfaces, verified with Verus.

- `src/` is the verified library: widget identifiers (`WidgetId`), keyboard
  focus (`Focus`), key codes and key bindings with their display notation
  (`keycode`, `keybindings`), an insertion-ordered map keyed by widget
  (`id_map`), widget areas with hit testing (`layout`), click handlers
  (`mouse`), and the pointer that routes mouse down, drag and up events
  (`pointer`). `laws` states the properties that span several operations.
  Callbacks are type parameters: the library decides which callback an event
  goes to and hands it back.
- `app/` is the glue around it: the `World` resource container, the boxed
  callback types, conversion of crossterm events and ratatui rectangles, and
  the delivery of events to callbacks.
- `tests/` exercises the library on concrete values.
