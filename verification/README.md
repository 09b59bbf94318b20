# journey

A small multiplayer survival game on a generated world of chunks: players
lead bands of units, move square by square, gather wood and food, and fight
the creatures around them. A server keeps the world on disk and carries out
the players' requests one after another; a text client shows the world and
sends requests; a generator builds the world; a launcher starts the rest.

The game's rules are written in Verus and proved against their contracts:

- `src/actions.rs`: what the server does with a request (spawn, move,
  attack, gather wood, gather food), as a function of the request, the
  chunk's creatures and tiles, and the draws it makes;
- `src/entities.rs`, `src/classes.rs`: creatures, units, their kits and the
  damage they take;
- `src/queue.rs`, `src/server.rs`: the request queue, the coyotes' turns and
  the registered players;
- `src/world.rs`, `src/tiles.rs`: chunks built from noise samples;
- `src/client.rs`, `src/draw.rs`, `src/menu.rs`: the client's state machine,
  its glyphs and the launcher's buttons;
- `src/text.rs`, `src/strmap.rs`, `src/names.rs`: numbers as text, text-keyed
  maps and creature names;
- `src/laws.rs`: properties that span several operations.

`app/` holds the programs around the rules (HTTP, files, the terminal, the
launcher window and the noise generator); `tests/` exercises the library.
