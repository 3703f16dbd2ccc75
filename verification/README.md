# p2pawn

Peer-to-peer chess for the terminal: two players on one LAN find each other
by UDP broadcast, play over one TCP connection, and keep their finished games
as PGN files.

The library in `src/` holds the logic of the program, verified with Verus:

- `game/`: the chess position (rules from the `chess` crate), SAN and UCI
  notation, the two-sided clock, the game session (moves, draw offers,
  resignation, time-outs, end detection), PGN writing, reading and replay,
  and the file naming and ordering of the game history.
- `net/`: the wire protocol's messages and rules, and the peer-listing rules
  of discovery.
- `app.rs`, `input.rs`: the application as a state machine. A key press or a
  network message goes in; the new state and a list of effects (messages to
  send, connections to close, files to save) come out.
- `ui.rs`: what each screen shows, as plain values (board cells, status
  lines, labels).
- `config.rs`, `util.rs`, `text.rs`, `order.rs`: settings, timestamps,
  character helpers, and a stable sort.

`app/` is the program around the library: the terminal, the sockets and
threads, the files, the serialised forms of the messages and settings, and
the drawing. It performs the effects that the library returns and feeds the
library the events that follow.

`tests/` runs the library on concrete games, positions and key sequences.
