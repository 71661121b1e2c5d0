//! Starting the game and starting it over: the run is put back to its start,
//! the world is generated from the level seed, every spawn point is snapped to
//! a walkable tile and each district enemy gets its way of fighting.

use vstd::prelude::*;

use rand::rngs::StdRng;

use super::generator::{all_walkable, all_within, seeded_rng, LevelGenerator, SpawnInfo};
use super::placement::{
    ArmyInvasionSpawned,
    plan_spawns, points_searchable, snapped, snapped_tagged, spec_fortress_placement, spec_initial_population,
    SpawnPlan,
};
use super::world::{world_ok, WorldGenerator};
use crate::biomass::BiomassTier;
use crate::combat::{is_loadout, roll_enemy_loadouts, roll_enemy_modes, spec_enemy_mode, AttackMode, MeleeAttackShape};
use crate::ending::EndingPhase;
use crate::faction::{FactionProgress, FactionState};
use crate::population::PopulationDensity;
use crate::quest::{reset_quest, BossDefeated, EscapeFired, FortressEntryFired, QuestState};
use crate::swarm::{Swarm, SwarmUnlocks};
use crate::world::map::TileMap;
use crate::world::PlayerDied;

verus! {

/// A generated world with every spawn point placed.
pub struct NewGame {
    pub map: TileMap,
    pub info: SpawnInfo,
    pub plan: SpawnPlan,
    /// How each planned district enemy fights, in the order of `plan.enemies`.
    pub enemy_modes: Vec<AttackMode>,
    pub population: PopulationDensity,
}

/// The world the game starts on: as `NewGame`, but each planned district
/// enemy gets a whole loadout (its way of fighting and, in melee, its swing).
pub struct StartedWorld {
    pub map: TileMap,
    pub info: SpawnInfo,
    pub plan: SpawnPlan,
    /// The loadout of each planned district enemy, in the order of `plan.enemies`.
    pub enemy_loadouts: Vec<(AttackMode, Option<MeleeAttackShape>)>,
    pub population: PopulationDensity,
}

/// Everything of a run that a new game puts back to its start.
pub struct RunState {
    pub tier: BiomassTier,
    pub quest: QuestState,
    pub boss_defeated: BossDefeated,
    pub escape_fired: EscapeFired,
    pub fortress_fired: FortressEntryFired,
    pub player_died: PlayerDied,
    pub army_spawned: ArmyInvasionSpawned,
    pub ending: EndingPhase,
    pub faction: FactionProgress,
    pub unlocks: SwarmUnlocks,
    pub swarm: Swarm,
}

/// `r` is a run at its start: the smallest tier, the quest at its first step
/// with no flag raised, the player alive, no army wave yet, no ending, every faction untouched and the General
/// alive, nothing unlocked, and a swarm of the one body `body`, in control.
pub open spec fn run_at_start(r: RunState, body: u64) -> bool {
    &&& r.tier == BiomassTier::Tiny
    &&& r.quest == QuestState::Escape
    &&& !r.boss_defeated.0
    &&& !r.escape_fired.0
    &&& !r.fortress_fired.0
    &&& !r.player_died.0
    &&& !r.army_spawned.0
    &&& r.ending == EndingPhase::Inactive
    &&& r.faction == FactionProgress {
        syndicate: FactionState::Untouched,
        precinct: FactionState::Untouched,
        covenant: FactionState::Untouched,
        general_defeated: false,
    }
    &&& r.unlocks.unlocked@.len() == 0
    &&& r.swarm.members@ == seq![body]
    &&& r.swarm.active_index == 0
}

/// What a placed world satisfies: it is a generated world, and every spawn
/// point is snapped to its nearest walkable tile, the population counted.
pub open spec fn placed(map: TileMap, info: SpawnInfo, plan: SpawnPlan, population: PopulationDensity) -> bool {
    &&& world_ok(map, info)
    &&& plan.guards@ == snapped(map, info.guard_positions@)
    &&& plan.enemies@ == snapped(map, info.enemy_positions@)
    &&& plan.elites@ == snapped(map, info.elite_positions@)
    &&& plan.faction_bosses@ == snapped_tagged(map, info.faction_bosses@)
    &&& (plan.general, plan.tank) == spec_fortress_placement(map, info.general_position, info.tank_position)
    &&& plan.job_targets@ == snapped_tagged(map, info.job_targets@)
    &&& plan.civilians@ == snapped(map, info.civilian_positions@)
    &&& plan.population == spec_initial_population(info)
    &&& population.current == plan.population
    &&& population.max == plan.population
    &&& population.boss_spawned
}

/// Puts every part of a run back to its start, with `player_body` as the one
/// body of the swarm.
pub fn reset_run(run: &mut RunState, player_body: u64)
    ensures
        run_at_start(*final(run), player_body),
{
    run.tier = BiomassTier::default();
    reset_quest(&mut run.quest, &mut run.escape_fired, &mut run.fortress_fired);
    run.boss_defeated = BossDefeated(false);
    run.player_died = PlayerDied(false);
    run.army_spawned = ArmyInvasionSpawned(false);
    run.ending = EndingPhase::default();
    run.faction = FactionProgress::default();
    run.unlocks.unlocked.clear();
    run.swarm.members.clear();
    run.swarm.members.push(player_body);
    run.swarm.active_index = 0;
}

/// A point of the world grid can be searched around without leaving `i32`.
proof fn lemma_grid_points_searchable(map: TileMap, s: Seq<(i32, i32)>)
    requires
        map.wf(),
        map.width == 250,
        map.height == 380,
        all_walkable(map, s) || all_within(s, 0, 0, 250, 380),
    ensures
        points_searchable(s),
{
    assert forall|i: int| 0 <= i < s.len() implies i32::MIN + 5 <= #[trigger] s[i].0 <= i32::MAX - 5 && i32::MIN + 5
        <= s[i].1 <= i32::MAX - 5 by {
        if !all_within(s, 0, 0, 250, 380) {
            assert(map.spec_is_walkable(s[i].0 as int, s[i].1 as int));
            if !map.spec_in_bounds(s[i].0 as int, s[i].1 as int) {
                map.lemma_outside_is_wall(s[i].0 as int, s[i].1 as int);
            }
        }
    }
}

/// Generates the world from a generator seeded with `seed` and places every
/// spawn point on it.
fn place_world(seed: u64) -> (r: (StdRng, TileMap, SpawnInfo, SpawnPlan, PopulationDensity))
    ensures
        placed(r.1, r.2, r.3, r.4),
{
    let mut rng = seeded_rng(seed);
    let (map, info) = WorldGenerator { seed }.generate(&mut rng);
    proof {
        lemma_grid_points_searchable(map, info.guard_positions@);
        lemma_grid_points_searchable(map, info.enemy_positions@);
        lemma_grid_points_searchable(map, info.elite_positions@);
        lemma_grid_points_searchable(map, info.civilian_positions@);
    }
    let plan = plan_spawns(&map, &info);
    let population = PopulationDensity::for_level(plan.population);
    (rng, map, info, plan, population)
}

/// The world the game starts on: generated from a generator seeded with
/// `seed`, every spawn point snapped to a walkable tile, then the same
/// generator rolls the loadout of each planned district enemy, one after
/// another, and the population is the plan's.
pub fn start_world(seed: u64) -> (w: StartedWorld)
    ensures
        placed(w.map, w.info, w.plan, w.population),
        w.enemy_loadouts@.len() == w.plan.enemies@.len(),
        forall|i: int| 0 <= i < w.enemy_loadouts@.len() ==> #[trigger] is_loadout(w.enemy_loadouts@[i]),
{
    let (mut rng, map, info, plan, population) = place_world(seed);
    let enemy_loadouts = roll_enemy_loadouts(&mut rng, plan.enemies.len());
    StartedWorld { map, info, plan, enemy_loadouts, population }
}

/// Starts a new game from the level seed: the run is put back to its start
/// with `player_body` as the swarm's one body; the world is generated again
/// from a generator seeded with `seed`, every spawn point snapped to a walkable
/// tile; the same generator then rolls how each planned enemy fights, and the
/// population is set to the plan's.
pub fn start_new_game(seed: u64, run: &mut RunState, player_body: u64) -> (g: NewGame)
    ensures
        run_at_start(*final(run), player_body),
        placed(g.map, g.info, g.plan, g.population),
        g.enemy_modes@.len() == g.plan.enemies@.len(),
        exists|coins: Seq<bool>|
            #![trigger coins.len()]
            coins.len() == g.plan.enemies@.len() && forall|i: int|
                0 <= i < coins.len() ==> #[trigger] g.enemy_modes@[i] == spec_enemy_mode(coins[i]),
{
    reset_run(run, player_body);
    let (mut rng, map, info, plan, population) = place_world(seed);
    let enemy_modes = roll_enemy_modes(&mut rng, plan.enemies.len());
    NewGame { map, info, plan, enemy_modes, population }
}

} // verus!
