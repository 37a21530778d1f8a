# gamecore

The rules of a small tile-based strategy game, verified with Verus: a map of
tiles, loose resources, buildings with input and output slots, pawns that walk
routes found by A*, carry resources between buildings, fight and sleep, and the
player's controls (selection, tools, contextual right-click actions, console
commands).

- `src/` is the verified library. `world.rs` holds the game state `G` and its
  well-formedness (storage, and homes and workers that agree); the `world_*`
  modules add what happens to it: building placement, routes, delivery work,
  fighting, the pawn and building steps of a tick, and the player's input.
  Calls into `pathfinding`, `itertools`, `smallvec`, `fnv`, `rand` and
  `rand_chacha` go through small trusted wrappers whose contracts state what
  those crates document.
- `tests/` runs the library on concrete worlds.
- `app/` is a headless driver: it runs frames, ticks the simulation, reads
  console commands from standard input, and holds what uses floating point (the
  water simulation, frame timing, animation, and the aquarium of critters driven
  by small neural networks).
