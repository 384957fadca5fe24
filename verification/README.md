# ramp

The RAMP application runtime and its demo, as a Verus library.

- `src/lib.rs` — what the application does with each input of the window
  system (draw, resize, or hand an event to the interface).
- `src/window.rs`, `src/event.rs`, `src/canvas.rs` — the inputs, the
  interface's events, and colors, as plain values.
- `src/names.rs` — AIR identifiers and names; hashing, parsing and printing
  go through the `air` crate.
- `src/air.rs` — the registry of contracts, the routing of their events,
  the contracts and instances an account follows, the steps of the
  manager of contracts, the documents of instances, the order in which
  received events apply, and their all-or-nothing evaluation.
- `src/text.rs` — building and searching text.
- `src/demo/` — the demo: a chat room contract and its bot, a wallet
  contract over BDK, hardware controls, interface pieces, and the switcher.
- `app/` — serialisation of the library's values, the BDK persister, and
  the floating-point geometry and prices.
