# stonemite

The overlay logic of Stonemite, a tool for playing several EverQuest clients
at once: which client is active, which ones show as picture-in-picture
thumbnails, where those thumbnails and their labels go on the monitor, what
the context menu does, how spell casts, trigger timers, notifications, toasts
and combat warnings appear and fade, and the decisions the window procedures
and the event loop make.

The library under `src/` is written in Verus. Every function carries a
contract over mathematical models (sequences, maps, integers), and the laws
that span several functions (for example that exchanging two window numbers
twice restores the registry, or that menu command identifiers decode to the
command they encode) are stated and proved as proof functions.

- `src/` – the verified library, one module per concern (`clients`,
  `layout`, `hosts`, `menu`, `event_loop`, `client_controller`, `casting`,
  `timers`, `notifications`, `combat_awareness`, `toast`, …).
- `tests/` – tests that run the library on concrete values.
- `app/` – the parts that need floating point or serde: motion curves, the
  animated border, cast progress curves, placement in fractions of the
  monitor, and the cast-time estimate file.
