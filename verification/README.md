# wlc

The data-device (clipboard and drag-and-drop) logic of a small Wayland
compositor, with its contracts proved, and the compositor around it.

- `src/protocol.rs`: plain-valued protocol objects, requests and the events
  the compositor sends (`DataAction`).
- `src/data_state.rs`: `WLCDataState`, the state machine; each operation
  returns the events to send, and its contract states the resulting state and
  events exactly over `DataStateView`.
- `src/laws.rs`: properties that span operations.
- `src/compositor.rs`: buffer release on commit, frame-callback time, SVG
  buffer size.
- `app/`: the compositor program (smithay event loop, protocol objects,
  sending events, SVG rendering with resvg).
