# necrophage

The rules of *Necrophage*, a top-down game in which a parasite escapes a jail,
grows a swarm and plays three city factions against each other, written as a
Verus library: every function states what it does in `requires`/`ensures`,
and Verus proves it.

## Layout

- `src/world/`: the tile grid (`TileMap`), tiles, and A* pathfinding.
- `src/levels/`: the level generators (jail, hub, faction zones, fortress,
  district, building interiors, the assembled world) and the placement rules
  that turn a layout into spawn points; random draws go through `rand`.
- `src/combat.rs`, `src/boss.rs`: line of sight, chase/flee/patrol steps,
  target choice, boss attack rotations and summons.
- `src/biomass.rs`, `src/swarm.rs`, `src/population.rs`: growth tiers,
  psychic power, the swarm and its unlocks, population density.
- `src/faction.rs`, `src/quest.rs`, `src/npc.rs`, `src/ending.rs`: faction
  deals, the quest line, the Liberator's script, dialogue, the ending.
- `src/menu.rs`, `src/minimap.rs`, `src/movement.rs`, `src/debug.rs`: menu
  decisions, minimap pixels, key-to-direction mapping, console parsing.
- `app/`: a headless runner around the library (new game, JSON report,
  save slots through serde, console commands); numeric tuning kept in
  floating point lives there too.
- `tests/`: tests on concrete values.

Laws that relate several functions are public proof functions named
`law_*`, next to the functions they speak of.
