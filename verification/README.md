# xash3d

The logic of the xash3d engine bindings, written in Verus and proved
against its contracts.

- `src/` is the verified library: key buttons, the player-move material
  table, step sounds, stuck table and touch list, HUD sprite lookup, screen
  metrics, texture ids and frame buffer geometry, temporary C strings, the
  console logger's lines, single-threaded cells, the attributes of the
  `Save`/`Restore` derive and the bit-level sign helpers of the float math.
- `tests/` runs the library on concrete values.
- `app/` is the unverified glue: the global allocators, the logger, the
  engine calls, the floating point math, small movement helpers (hull
  bounds, velocity clipping, step volumes, box outlines), and the derive's
  token generation.
