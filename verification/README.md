# emergence_lib

The verified core of Emergence, a hex-grid colony simulation: tile
coordinates and rotations, structure footprints, the per-tile indexes of the
map, per-tile data with hex patches of neighbouring data, passability, the
crafting cycle of structures, weather, and the placement of the first
organisms. Verus proves the functions of `src/` against their contracts,
except the small trusted wrappers in `src/hexx_ops.rs` and `src/random.rs`:
each makes one call into `hexx` or `rand`, and its contract restates what
that crate's source does. The random draws (`Facing::random`,
`RotationDirection::random`, `Weather::random`) promise nothing beyond their
result type, since any value can come out.

Layout:

- `src/tile.rs`, `src/hexx_ops.rs`: tiles, directions and facings; the
  hexagonal-grid operations taken from the `hexx` crate.
- `src/collections.rs`: a map and a set keyed by tile position.
- `src/footprint.rs`, `src/geometry.rs`: structure footprints and the map's
  indexes of terrain, structures and ghosts.
- `src/hex_patch.rs`, `src/neighbors.rs`, `src/map_data.rs`,
  `src/map_index.rs`, `src/pathfinding.rs`: data tied to tiles and the hex
  patches that read it.
- `src/crafting.rs`, `src/weather.rs`, `src/simulation.rs`, `src/status.rs`,
  `src/generation.rs`, `src/terrain.rs`, `src/structure_manifest.rs`: the
  rules of the simulation.
- `src/random.rs`: the random choices taken from the `rand` crate.
- `app/`: serialized forms, display text, floating-point rules and drivers
  that feed outside results into the library.
