use necrophage::boss::{district_boss_adds, district_boss_attack, BossAI, DistrictBossAttack};
use necrophage::combat::{
    axis_chase_step, corpse_adjacent, enemy_loadout, harvest_reward, pick_harvest_target, possession_slot_free,
    roll_enemy_loadouts, roll_enemy_modes, roll_harvest_reward, sight_by_distance, AttackMode, EnemyAI, EntityPath, HarvestReward,
    MeleeAttackShape, HARVEST_RANGE, patrol_move, patrol_step,
};
use necrophage::faction::{deal_offer_line, plan_accepted_line, plan_reward_line, surrender_line, FactionId};
use necrophage::movement::GridPos;
use necrophage::world::map::TileMap;
use necrophage::world::tile::TileType;
use rand::rngs::StdRng;
use rand::SeedableRng;

fn gp(x: i32, y: i32) -> GridPos {
    GridPos { x, y }
}

#[test]
fn harvest_rolls_map_to_rewards() {
    assert_eq!(harvest_reward(0), HarvestReward::Health);
    assert_eq!(harvest_reward(1), HarvestReward::Biomass);
    assert_eq!(harvest_reward(2), HarvestReward::Nothing);
}

#[test]
fn harvest_rolls_reach_every_reward() {
    let mut seen_health = false;
    let mut seen_biomass = false;
    let mut seen_nothing = false;
    let mut rng = StdRng::seed_from_u64(7);
    for _ in 0..200 {
        match roll_harvest_reward(&mut rng) {
            HarvestReward::Health => seen_health = true,
            HarvestReward::Biomass => seen_biomass = true,
            HarvestReward::Nothing => seen_nothing = true,
        }
    }
    assert!(seen_health && seen_biomass && seen_nothing);
}

#[test]
fn harvest_picks_nearest_in_range() {
    let windows = vec![gp(13, 10), gp(11, 11), gp(12, 9), gp(10, 11)];
    // (11, 11) and (10, 11) are both one tile away; the first of them wins.
    assert_eq!(pick_harvest_target(gp(10, 10), &windows), Some(1));
}

#[test]
fn harvest_ignores_enemies_out_of_range() {
    let windows = vec![gp(14, 10), gp(10, 20)];
    assert_eq!(pick_harvest_target(gp(10, 10), &windows), None);
    let windows = vec![gp(14, 10), gp(13, 13)];
    assert_eq!(pick_harvest_target(gp(10, 10), &windows), Some(1));
    assert_eq!(pick_harvest_target(gp(10, 10), &Vec::new()), None);
}

#[test]
fn path_following_takes_planned_steps() {
    let map = TileMap::new(10, 10, TileType::Floor);
    let mut path = EntityPath::new();
    path.replan(&map, gp(1, 1), gp(4, 1));
    assert!(!path.steps.is_empty());
    assert_eq!(*path.steps.back().unwrap(), (4, 1));
    let first = path.steps[0];
    let before = path.steps.len();
    let p = path.follow(&map, gp(1, 1), gp(4, 1));
    assert_eq!((p.x, p.y), first);
    assert_eq!(path.steps.len(), before - 1);
}

#[test]
fn path_following_drops_a_blocked_plan() {
    let mut map = TileMap::new(10, 10, TileType::Floor);
    let mut path = EntityPath::new();
    path.replan(&map, gp(1, 1), gp(4, 1));
    let (bx, by) = path.steps[0];
    map.set(bx, by, TileType::Wall);
    let p = path.follow(&map, gp(1, 1), gp(4, 1));
    assert_eq!(p, gp(1, 1));
    assert!(path.steps.is_empty());
}

#[test]
fn path_following_without_plan_steps_directly() {
    let map = TileMap::new(10, 10, TileType::Floor);
    let mut path = EntityPath::new();
    let p = path.follow(&map, gp(2, 2), gp(5, 6));
    assert_eq!(p, gp(3, 3));
    assert!(path.steps.is_empty());
}

#[test]
fn replan_to_a_wall_gives_no_steps() {
    let mut map = TileMap::new(10, 10, TileType::Floor);
    map.set(5, 5, TileType::Wall);
    let mut path = EntityPath::new();
    path.replan(&map, gp(0, 0), gp(5, 5));
    assert!(path.steps.is_empty());
}

#[test]
fn district_enemies_chase_within_eight_tiles() {
    assert_eq!(sight_by_distance(EnemyAI::Patrol, gp(0, 0), gp(8, 3)), EnemyAI::Chase);
    assert_eq!(sight_by_distance(EnemyAI::Chase, gp(0, 0), gp(9, 0)), EnemyAI::Patrol);
    assert_eq!(sight_by_distance(EnemyAI::Patrol, gp(0, 0), gp(0, 9)), EnemyAI::Patrol);
    assert_eq!(sight_by_distance(EnemyAI::AttackTarget, gp(0, 0), gp(20, 0)), EnemyAI::AttackTarget);
}

#[test]
fn axis_chase_prefers_x_then_y() {
    let mut map = TileMap::new(10, 10, TileType::Floor);
    assert_eq!(axis_chase_step(&map, gp(2, 2), gp(5, 5)), gp(3, 2));
    map.set(3, 2, TileType::Wall);
    assert_eq!(axis_chase_step(&map, gp(2, 2), gp(5, 5)), gp(2, 3));
    map.set(2, 3, TileType::Wall);
    assert_eq!(axis_chase_step(&map, gp(2, 2), gp(5, 5)), gp(2, 2));
    assert_eq!(axis_chase_step(&map, gp(2, 2), gp(2, 2)), gp(2, 2));
}

#[test]
fn possession_needs_adjacency_and_a_free_slot() {
    assert!(corpse_adjacent(gp(5, 5), gp(6, 4)));
    assert!(corpse_adjacent(gp(5, 5), gp(5, 5)));
    assert!(!corpse_adjacent(gp(5, 5), gp(7, 5)));
    assert!(possession_slot_free(0, 1));
    assert!(!possession_slot_free(1, 1));
}

#[test]
fn district_boss_rotation_and_adds() {
    let mut ai = BossAI { phase: 0 };
    assert_eq!(district_boss_attack(ai, 2), DistrictBossAttack::MeleeSwipe { hits: true });
    assert_eq!(district_boss_attack(ai, 3), DistrictBossAttack::MeleeSwipe { hits: false });
    ai.advance();
    assert_eq!(district_boss_attack(ai, 3), DistrictBossAttack::RangedThrow);
    ai.advance();
    assert_eq!(district_boss_attack(ai, 0), DistrictBossAttack::SummonAdds);
    let adds = district_boss_adds(gp(59, 45));
    assert_eq!(adds, [gp(59, 39), gp(58, 39)]);
    let adds = district_boss_adds(gp(0, 10));
    assert_eq!(adds, [gp(1, 10), gp(0, 10)]);
}

#[test]
fn faction_bosses_speak_their_own_lines() {
    assert_eq!(
        deal_offer_line(FactionId::Syndicate),
        "I've heard about you. You're more useful to me alive. Take out my rival's enforcer first \u{2014} then we talk."
    );
    assert_eq!(
        plan_accepted_line(FactionId::Precinct),
        "The informant was last seen near the central plaza. Make it look clean."
    );
    assert_eq!(
        surrender_line(FactionId::Covenant),
        "The void... it speaks through you. Take our offering. We submit."
    );
    assert_eq!(plan_reward_line(FactionId::Syndicate), "A deal's a deal. Take it and go.");
    for fid in [FactionId::Syndicate, FactionId::Precinct, FactionId::Covenant] {
        assert_ne!(deal_offer_line(fid), surrender_line(fid));
    }
}

#[test]
fn enemy_loadouts_follow_the_coins() {
    assert_eq!(enemy_loadout(true, true), (AttackMode::Ranged, None));
    assert_eq!(enemy_loadout(true, false), (AttackMode::Ranged, None));
    assert_eq!(enemy_loadout(false, true), (AttackMode::Melee, Some(MeleeAttackShape::Broad)));
    assert_eq!(enemy_loadout(false, false), (AttackMode::Melee, Some(MeleeAttackShape::Jab)));
}

#[test]
fn rolled_loadouts_cover_every_kind() {
    let mut rng = StdRng::seed_from_u64(3);
    let v = roll_enemy_loadouts(&mut rng, 120);
    assert_eq!(v.len(), 120);
    let ranged = v.iter().filter(|l| l.0 == AttackMode::Ranged).count();
    assert!(v.iter().all(|l| (l.0 == AttackMode::Ranged) == l.1.is_none()));
    assert!(ranged > 20 && ranged < 100);
    assert!(v.contains(&(AttackMode::Melee, Some(MeleeAttackShape::Broad))));
    assert!(v.contains(&(AttackMode::Melee, Some(MeleeAttackShape::Jab))));
    assert!(roll_enemy_loadouts(&mut rng, 0).is_empty());
}

#[test]
fn new_game_modes_are_one_coin_each() {
    let mut a = StdRng::seed_from_u64(11);
    let modes = roll_enemy_modes(&mut a, 64);
    assert_eq!(modes.len(), 64);
    assert!(modes.contains(&AttackMode::Ranged));
    assert!(modes.contains(&AttackMode::Melee));
    // The same seed rolls the same modes.
    let mut b = StdRng::seed_from_u64(11);
    assert_eq!(roll_enemy_modes(&mut b, 64), modes);
}

#[test]
fn harvest_range_positive() {
    assert!(HARVEST_RANGE > 0);
}

#[test]
fn slot_limit_prevents_possession() {
    let max_slots = 2usize;
    let used_at_capacity = 2usize;
    assert!(!possession_slot_free(used_at_capacity, max_slots), "should block possession when at capacity");
    let used_with_space = 1usize;
    assert!(possession_slot_free(used_with_space, max_slots), "should allow possession when a slot is free");
}

#[test]
fn patrol_moves_one_tile_or_stays() {
    let mut map = TileMap::new(10, 10, TileType::Floor);
    assert_eq!(patrol_move(&map, gp(5, 5), 0), gp(5, 4));
    assert_eq!(patrol_move(&map, gp(5, 5), 1), gp(5, 6));
    assert_eq!(patrol_move(&map, gp(5, 5), 2), gp(4, 5));
    assert_eq!(patrol_move(&map, gp(5, 5), 3), gp(6, 5));
    let mut rng = StdRng::seed_from_u64(5);
    for _ in 0..20 {
        let p = patrol_step(&map, gp(5, 5), &mut rng);
        assert_eq!((p.x - 5).abs() + (p.y - 5).abs(), 1);
    }
    for (x, y) in [(5, 4), (5, 6), (4, 5), (6, 5)] {
        map.set(x, y, TileType::Wall);
    }
    assert_eq!(patrol_step(&map, gp(5, 5), &mut rng), gp(5, 5));
}

#[test]
fn swarm_deaths_and_control_switches() {
    let mut swarm = necrophage::swarm::Swarm::default();
    swarm.members = vec![0, 7, 9, 12];
    swarm.active_index = 2;
    assert!(swarm.has_member(9) && !swarm.has_member(5));
    // A stranger's death leaves the swarm alone.
    assert_eq!(swarm.on_member_died(5, 9, false), 9);
    assert_eq!((swarm.members.clone(), swarm.active_index), (vec![0, 7, 9, 12], 2));
    // So does the original body's.
    assert_eq!(swarm.on_member_died(0, 9, true), 9);
    assert_eq!(swarm.members, vec![0, 7, 9, 12]);
    // Losing the controlled body passes control to the first body.
    assert_eq!(swarm.on_member_died(9, 9, false), 0);
    assert_eq!((swarm.members.clone(), swarm.active_index), (vec![0, 7, 12], 0));
    // Losing another body keeps control where it is.
    swarm.active_index = 2;
    assert_eq!(swarm.on_member_died(7, 12, false), 12);
    assert_eq!((swarm.members.clone(), swarm.active_index), (vec![0, 12], 1));
    // Switching cycles to the next body that still exists.
    assert_eq!(swarm.switch_control(&vec![true, true]), Some(0));
    assert_eq!(swarm.active_index, 0);
    assert_eq!(swarm.switch_control(&vec![true, false]), Some(0));
    assert_eq!(swarm.switch_control(&vec![false, false]), None);
    assert_eq!(swarm.active_index, 0);
}
