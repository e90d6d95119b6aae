# tambola

A tambola (housie) game, with its logic verified by Verus.

- `src/game`: tickets, the board of drawn numbers, prizes and their
  verification (`mod.rs`); random choices and fresh tickets (`random.rs`);
  the protocol messages (`proto.rs`).
- `src/instance.rs`, `src/hub.rs`: the server's games and the decisions on
  each client request.
- `src/store.rs`, `src/ws_api.rs`, `src/screen.rs`, `src/layout.rs`,
  `src/announce.rs`, `src/page.rs`, `src/counter.rs`: the web client's state, decisions
  and the text it shows.
- `src/laws.rs`: properties that span several operations.
- `app/`: the game server (websocket and file serving); it asks the library
  for every decision.
