use necrophage::combat::{enemy_mode, AttackMode, EntityPath};
use necrophage::faction::{
    collect_plan_reward, BossKillOutcome, BossRelation, FactionId, FactionProgress, FactionState, PLAN_REWARD_BIOMASS,
};
use necrophage::levels::building::BuildingGenerator;
use necrophage::levels::generator::{building_hash, BuildingKind, LevelGenerator};
use necrophage::biomass::BiomassTier;
use necrophage::ending::EndingPhase;
use necrophage::levels::new_game::{start_new_game, start_world, RunState};
use necrophage::levels::placement::{district_seed, ArmyInvasionSpawned, LevelSeed};
use necrophage::world::PlayerDied;
use necrophage::swarm::{CreatureKind, Swarm, SwarmUnlocks};
use necrophage::movement::GridPos;
use necrophage::npc::{liberator_step, LiberatorState, LINE_CONFRONTED, LINE_DISTRICT, LINE_FOLLOW_ME};
use necrophage::quest::{BossDefeated, EscapeFired, FortressEntryFired, QuestState};
use necrophage::world::map::TileMap;
use necrophage::world::tile::TileType;
use rand::rngs::StdRng;
use rand::{Rng, SeedableRng};

#[test]
fn the_coin_decides_the_mode() {
    assert_eq!(enemy_mode(true), AttackMode::Ranged);
    assert_eq!(enemy_mode(false), AttackMode::Melee);
}

#[test]
fn plan_reward_is_dropped_once_and_the_boss_turns() {
    let mut rel = BossRelation::DealAccepted;
    assert_eq!(collect_plan_reward(&mut rel, FactionState::JobComplete, 6), None);
    assert_eq!(rel, BossRelation::DealAccepted);
    assert_eq!(collect_plan_reward(&mut rel, FactionState::PlanAccepted, 2), None);
    assert_eq!(collect_plan_reward(&mut rel, FactionState::JobComplete, 5), Some(150));
    assert_eq!(rel, BossRelation::Hostile);
    assert_eq!(collect_plan_reward(&mut rel, FactionState::JobComplete, 5), None);
    assert_eq!(PLAN_REWARD_BIOMASS, 150);
}

#[test]
fn killing_a_boss_after_its_job_pays_150_biomass() {
    let mut p = FactionProgress::default();
    p.syndicate = FactionState::JobComplete;
    let mut biomass: u32 = 10;
    let out = p.on_boss_killed_paid(FactionId::Syndicate, &mut biomass);
    assert_eq!(out, BossKillOutcome::Resolved { plan_reward: true });
    assert_eq!(biomass, 160);
    assert_eq!(p.syndicate, FactionState::Resolved);
    let out = p.on_boss_killed_paid(FactionId::Syndicate, &mut biomass);
    assert_eq!(out, BossKillOutcome::AlreadyResolved);
    assert_eq!(biomass, 160);
    let out = p.on_boss_killed_paid(FactionId::Precinct, &mut biomass);
    assert_eq!(out, BossKillOutcome::Resolved { plan_reward: false });
    assert_eq!(biomass, 160);
    let mut full = u32::MAX - 10;
    p.covenant = FactionState::JobComplete;
    p.on_boss_killed_paid(FactionId::Covenant, &mut full);
    assert_eq!(full, u32::MAX);
}

#[test]
fn liberator_lines_and_timers() {
    let map = TileMap::new(10, 5, TileType::Floor);
    let far = GridPos { x: 9, y: 4 };
    let here = GridPos { x: 1, y: 1 };
    let s = liberator_step(&map, LiberatorState::Imprisoned, QuestState::Escape, true, here, far);
    assert_eq!((s.reset_timer_ms, s.line), (Some(500), Some(LINE_FOLLOW_ME)));
    let s = liberator_step(&map, LiberatorState::Imprisoned, QuestState::Escape, false, here, far);
    assert_eq!((s.reset_timer_ms, s.line), (None, None));
    let s = liberator_step(&map, LiberatorState::BreakingOut, QuestState::Escape, true, here, far);
    assert_eq!((s.reset_timer_ms, s.line), (Some(1000), None));
    let s = liberator_step(&map, LiberatorState::AwaitingPlayer, QuestState::Escape, false, here, GridPos { x: 3, y: 2 });
    assert_eq!((s.state, s.line), (LiberatorState::Gone, Some(LINE_DISTRICT)));
    let s = liberator_step(&map, LiberatorState::AwaitingPlayer, QuestState::Confrontation, false, here, far);
    assert_eq!((s.state, s.line), (LiberatorState::Gone, Some(LINE_CONFRONTED)));
}

#[test]
fn building_interiors_leave_the_given_generator_alone() {
    let mut used = StdRng::seed_from_u64(3);
    let mut fresh = StdRng::seed_from_u64(3);
    let g = BuildingGenerator::new(BuildingKind::GangHideout, 77);
    let (m1, i1) = g.generate(&mut used);
    let (m2, i2) = g.generate(&mut StdRng::seed_from_u64(99));
    assert_eq!(used.gen::<u64>(), fresh.gen::<u64>());
    assert_eq!((m1.width, m1.height, m1.exit_pos), (m2.width, m2.height, m2.exit_pos));
    assert_eq!(i1.enemy_positions, i2.enemy_positions);
}

#[test]
fn gang_hideouts_hold_three_to_five_enemies() {
    for seed in 0..40u64 {
        let mut rng = StdRng::seed_from_u64(0);
        let (map, info) = BuildingGenerator::new(BuildingKind::GangHideout, seed).generate(&mut rng);
        assert!((3..=5).contains(&info.enemy_positions.len()));
        for &(x, y) in &info.enemy_positions {
            assert!((1..13).contains(&x) && (1..11).contains(&y));
            assert!(map.is_walkable(x, y));
        }
        assert_eq!(info.elite_positions, vec![(10, 3)]);
    }
}

#[test]
fn gang_hideout_enemies_reach_the_left_room_too() {
    let mut left = false;
    for seed in 0..40u64 {
        let mut rng = StdRng::seed_from_u64(0);
        let (_, info) = BuildingGenerator::new(BuildingKind::GangHideout, seed).generate(&mut rng);
        for &(x, y) in &info.enemy_positions {
            assert!((1..13).contains(&x) && (1..11).contains(&y));
            assert!(!(x < 7 && y > 5), "no enemy on the walled-off corner");
            left |= x < 7;
        }
    }
    assert!(left);
}

#[test]
fn changing_one_hash_argument_changes_the_id() {
    let base = building_hash(10, 20, 12345);
    assert_ne!(base, building_hash(11, 20, 12345));
    assert_ne!(base, building_hash(10, 21, 12345));
    assert_ne!(base, building_hash(10, 20, 12346));
    assert_ne!(building_hash(-1, 0, 0), building_hash(1, 0, 0));
}

#[test]
fn astar_paths_never_repeat_a_tile_or_return_to_the_start() {
    let mut map = TileMap::new(10, 10, TileType::Floor);
    for y in 0..=4 {
        map.set(2, y, TileType::Wall);
    }
    let path = map.astar((0, 2), (4, 2));
    assert!(!path.contains(&(0, 2)));
    for i in 0..path.len() {
        for j in i + 1..path.len() {
            assert_ne!(path[i], path[j]);
        }
    }
    let mut plan = EntityPath::new();
    plan.replan(&map, GridPos { x: 0, y: 2 }, GridPos { x: 1, y: 3 });
    assert_eq!(plan.steps.iter().copied().collect::<Vec<_>>(), vec![(1, 3)]);
}

#[test]
fn a_new_game_starts_the_quest_over_and_plans_the_world() {
    let mut unlocks = SwarmUnlocks::default();
    unlocks.unlock(CreatureKind::Grasper);
    let mut run = RunState {
        tier: BiomassTier::Large,
        quest: QuestState::FinalBattle,
        boss_defeated: BossDefeated(true),
        escape_fired: EscapeFired(true),
        fortress_fired: FortressEntryFired(true),
        player_died: PlayerDied(true),
        army_spawned: ArmyInvasionSpawned(true),
        ending: EndingPhase::Done,
        faction: FactionProgress {
            syndicate: FactionState::Resolved,
            precinct: FactionState::Resolved,
            covenant: FactionState::Resolved,
            general_defeated: true,
        },
        unlocks,
        swarm: Swarm { members: vec![0, 7, 9], active_index: 2 },
    };
    let g = start_new_game(42, &mut run, 0);
    assert_eq!(run.quest, QuestState::Escape);
    assert!(!run.escape_fired.0 && !run.fortress_fired.0 && !run.boss_defeated.0);
    assert!(!run.player_died.0 && !run.army_spawned.0);
    assert_eq!(run.tier, BiomassTier::Tiny);
    assert_eq!(run.ending, EndingPhase::Inactive);
    assert_eq!(run.faction, FactionProgress::default());
    assert!(run.unlocks.unlocked.is_empty());
    assert_eq!(run.swarm.members, vec![0]);
    assert_eq!(run.swarm.active_index, 0);
    assert_eq!((g.map.width, g.map.height), (250, 380));
    assert_eq!(g.enemy_modes.len(), g.plan.enemies.len());
    assert_eq!(g.population.current, g.plan.population);
    assert_eq!(g.plan.faction_bosses.len(), 3);
}

#[test]
fn the_launch_world_gives_every_enemy_a_loadout() {
    let w = start_world(42);
    assert_eq!((w.map.width, w.map.height), (250, 380));
    assert_eq!(w.enemy_loadouts.len(), w.plan.enemies.len());
    for (mode, shape) in &w.enemy_loadouts {
        assert_eq!(*mode == AttackMode::Ranged, shape.is_none());
    }
    assert_eq!(w.population.current, w.plan.population);
    assert_eq!(
        w.plan.population as usize,
        w.info.enemy_positions.len() + w.info.elite_positions.len() + w.info.civilian_positions.len()
    );
    let again = start_world(42);
    assert_eq!(again.plan.enemies, w.plan.enemies);
}

#[test]
fn the_district_is_seeded_one_past_the_level_seed() {
    assert_eq!(district_seed(LevelSeed(41)), 42);
    assert_eq!(district_seed(LevelSeed(u64::MAX)), 0);
}
