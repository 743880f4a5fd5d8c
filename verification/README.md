# nes_online

The room, session and frame-relay logic of a server on which two players
play an NES game together, verified with Verus.

- `src/` is the library: the server state and its request handlers
  (`server`), the frame relay of a room (`frames_sync`), a player's
  websocket session (`websocket`), the reading of room ids (`params`), the
  HTTP answers (`response`, `router`) and the log level (`logger`).
  `bytes_buf`, `channel` and `rng` hold the trusted contracts of the calls
  into `bytes`, `tokio` and `rand`.
- `app/` is the actix-web program around it: the HTTP and websocket
  endpoints, the actors, and the tasks that run a room's relay.
- `tests/` runs the library on concrete values.
