# plix_server

The game-server logic of Plix, written in Verus: match flow, quests and NPC
dialogue, mob damage and death, inventory use, mod distribution and payload
sync, the network loop's bookkeeping, replication, save scheduling, and the
security layer (strikes, rate limiting, handshake supervision, metrics).

Every function in `src/` carries a contract that Verus proves. Laws that span
several calls (a strike run never passes the threshold, the blocked count
counts refusals since the last reset, the match phase only moves along its
cycle, and so on) are stated as public proof functions next to the code they
are about.

Layout:

- `src/` — the verified library. Calls into other crates (chrono, std's clock
  and paths) go through small trusted items whose doc comments say what is
  assumed of them.
- `tests/` — ordinary Rust tests run against the compiled library.
- `app/` — the server binary around the library: sockets, files, async tasks,
  logging and serialization, and the parts that work on floating point.
