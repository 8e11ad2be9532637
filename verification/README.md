# abc_game_engine

A small 2D game engine that draws to the terminal, with its logic verified
by Verus.

- `src/` is the verified library: cameras; the key, mouse and gamepad
  button states and the rules that combine keys into buttons (`input`,
  `press`, `keys`); textures, sprite sheets, animations and the scaling of
  pixel grids (`renderer`); which of two colliding objects is moved
  (`physics`); the quad tree that gathers objects for collision checks
  (`quad_tree`); and which crash logs are kept (`crash_logs`). The hash maps
  of `fxhash`, the clock and the random characters of the renderer are
  reached through a few trusted functions, each documented where it stands.
- `app/` is the rest of the engine, around the library: the entity
  component system, floating-point geometry, physics through rapier,
  drawing to the terminal, audio, reading gamepads, files and the crash
  handler that restarts the program.
- `tests/` runs the library on concrete values.
