# Willo's Graveyard — game logic

The rules of Willo's Graveyard, a sokoban-like puzzle game, as a library whose behaviour is
stated in contracts and proved with Verus.

- `src/` — the library: grid pushes and the collision map (`collision_grid`, `collision`,
  `sokoban`), volatile sublimation, history (undo and reset), the movement table and movement
  tiles, goals and their ghosts, frame timers and event scheduling, nine-slice images, level
  flow, walls around levels, and the UI decisions (action buttons, icon buttons, prompts).
- `tests/` — scenarios run against the compiled library.
- `app/` — the program around the library: command line handling, floating-point screen
  geometry, chance rolls, and serialisable copies of input actions.
