# lifes_end

The rules of "Life's End", a top-down arcade game played against a Game of Life
colony, as a library verified with Verus.

- `src/cells.rs`: cells, a duplicate-free cell set and a cell-age table.
- `src/gol_grid.rs`: the colony: B3/S23 steps inside the arena, stagnation
  mutations, splitting the colony into connected groups, and the nuke.
- `src/level_config.rs`: the seed patterns, their mutation, the level formulas,
  building a level's grid and reinforcement waves.
- `src/tail.rs`: the player's position trail and the tail segments.
- `src/combat.rs`, `src/hud.rs`: nuke cost, projectile bounces, swarm alerts.
- `src/random.rs`: the random source, backed by `rand`'s `SmallRng`, with a ghost
  record of every draw that the contracts of the random steps speak of.
- `app/`: the Bevy game around the library (rendering, input, timers, ECS).

Run the tests with the crate's own tooling; `tests/` holds them.
