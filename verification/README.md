# hex_fps

The integer core of a hex-arena first-person shooter, verified with Verus.

`src/` holds what the game decides with integers:

- `rng`: the xorshift generator and `range_i32`, whose result is stated
  exactly, including the rounding that its `f32` arithmetic performs
  (`rounding` models that rounding over the integers);
- `lcg`: the world's linear congruential generator;
- `hexgrid`: hex distance, the arena layout (cells, walls, floor shades) and
  the respawn cell draws of both generators;
- `mesh`: index buffers of the cube, UV sphere and hexagonal prism;
- `score`: shots, hits, score and queued respawns;
- `input`: which movement the held keys ask for;
- `shootable`: which colliders shots can hit.

`app/` is the game around it: windowing, rendering, physics (rapier3d) and
everything computed in `f32`, for the hex engine (default) and for bevy
(`motd` argument).
