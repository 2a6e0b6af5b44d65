# platformer

The game logic of a small networked 2D platformer, verified with Verus.

- `src/` is the library. `network` holds the messages; `server` the
  server's player table (registration, movement, shots and damage, the
  periodic tick with its timeouts); `connections` the ids handed to new
  connections; `defs` and `messages` the client's tracking of remote
  players; `headless` the client-count prompt of the load tester;
  `vector` and `clock` declare the outside types (`bevy_math::Vec2`,
  `tokio::time::Instant`) that the logic carries without reading.
- `app/` is the program around it: the UDP server, the raylib window
  client, the headless load tester, the bincode wire format, and the float
  parts (hit testing, movement physics, interpolation).
- `tests/` runs the library on concrete games.
