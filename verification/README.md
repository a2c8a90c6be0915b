# sofia

The level logic of a 2D platformer, written in Verus and proved against its
contracts.

- `src/` is the library. `helpers` holds integer intervals and rectangles;
  `assets` and `brushes` the sprite-sheet layout of the first tile set and its
  island generator (`gen`); `map` the second tile set, its feature schema,
  auto-tiling, rendering into tile layers and the graph of a level's zones;
  `world` the world's zones, features and brushes, its tiles and its chunks.
  `spatial`, `open_ranges` and `random` hold the contracts of the outside
  crates that the library calls (an R-tree, sets of ranges, a seeded random
  number generator).
- `tests/` runs the library on concrete values.
- `app/` is the game around it: windowing, input, the camera, sprites and
  physics, and the conversion of floating-point noise into the plain samples
  that the brushes take.
