use necrophage::biomass::{update_tier, BiomassTier, PsychicPower, TierChanged};
use necrophage::boss::{
    barrage_offsets, burst_tick, general_plan, harlan_attack, summon_positions, BossAI, GeneralPhase, HarlanAttack,
};
use necrophage::combat::{
    alert_response, chase_step, corpse_biomass, flee_step, has_line_of_sight, AttackMode, EnemyAI, SightRange,
    ALERT_RADIUS,
};
use necrophage::faction::{
    accepts_deal, offers_deal, BossKillOutcome, BossRelation, FactionId, FactionProgress, FactionState,
};
use necrophage::movement::{wasd_direction, GridPos};
use necrophage::quest::{check_escape, EscapeFired, QuestState};
use necrophage::swarm::{spawn_check, CreatureKind, SpawnCheck, Swarm, SwarmUnlocks};
use necrophage::world::map::TileMap;
use necrophage::world::tile::TileType;

#[test]
fn tier_thresholds() {
    assert_eq!(BiomassTier::from_biomass(0), BiomassTier::Tiny);
    assert_eq!(BiomassTier::from_biomass(10), BiomassTier::Tiny);
    assert_eq!(BiomassTier::from_biomass(11), BiomassTier::Small);
    assert_eq!(BiomassTier::from_biomass(30), BiomassTier::Small);
    assert_eq!(BiomassTier::from_biomass(31), BiomassTier::Medium);
    assert_eq!(BiomassTier::from_biomass(75), BiomassTier::Medium);
    assert_eq!(BiomassTier::from_biomass(76), BiomassTier::Large);
    assert_eq!(BiomassTier::from_biomass(150), BiomassTier::Large);
    assert_eq!(BiomassTier::from_biomass(151), BiomassTier::Apex);
}

const TIERS: [BiomassTier; 5] =
    [BiomassTier::Tiny, BiomassTier::Small, BiomassTier::Medium, BiomassTier::Large, BiomassTier::Apex];

#[test]
fn tier_scale_ordering() {
    for i in 0..TIERS.len() - 1 {
        assert!(TIERS[i].scale() < TIERS[i + 1].scale(), "{:?} scale should be less than {:?}", TIERS[i], TIERS[i + 1]);
    }
}

#[test]
fn tier_damage_multiplier_ordering() {
    for i in 0..TIERS.len() - 1 {
        assert!(TIERS[i].damage_multiplier() < TIERS[i + 1].damage_multiplier());
    }
}

#[test]
fn tier_hp_bonus_ordering() {
    for i in 0..TIERS.len() - 1 {
        assert!(TIERS[i].hp_bonus() < TIERS[i + 1].hp_bonus());
    }
}

#[test]
fn tier_percentages_are_exact() {
    assert_eq!(BiomassTier::Medium.scale(), 160);
    assert_eq!(BiomassTier::Apex.hp_bonus(), 350);
    assert_eq!(BiomassTier::Small.damage_multiplier(), 130);
    assert_eq!(BiomassTier::Large.speed_multiplier(), 130);
    assert_eq!(BiomassTier::Tiny.speed_multiplier(), 100);
    assert_eq!(BiomassTier::Small.speed_multiplier(), 130);
    assert_eq!(BiomassTier::Medium.speed_multiplier(), 120);
    assert_eq!(BiomassTier::Apex.speed_multiplier(), 140);
    assert_eq!(BiomassTier::default(), BiomassTier::Tiny);
}

#[test]
fn update_tier_reports_changes_only() {
    let mut tier = BiomassTier::Tiny;
    assert_eq!(update_tier(&mut tier, 5), None);
    assert_eq!(update_tier(&mut tier, 40), Some(TierChanged { old: BiomassTier::Tiny, new: BiomassTier::Medium }));
    assert_eq!(tier, BiomassTier::Medium);
    assert_eq!(update_tier(&mut tier, 41), None);
}

#[test]
fn psychic_power_tier_thresholds() {
    assert_eq!(PsychicPower(0).tier(), 0);
    assert_eq!(PsychicPower(50).tier(), 0);
    assert_eq!(PsychicPower(51).tier(), 1);
    assert_eq!(PsychicPower(150).tier(), 1);
    assert_eq!(PsychicPower(151).tier(), 2);
    assert_eq!(PsychicPower(300).tier(), 2);
    assert_eq!(PsychicPower(301).tier(), 3);
    assert_eq!(PsychicPower(600).tier(), 3);
    assert_eq!(PsychicPower(601).tier(), 4);
}

#[test]
fn psychic_power_swarm_capacity_grows() {
    for t in 0u8..5 {
        let p = match t {
            0 => PsychicPower(0),
            1 => PsychicPower(51),
            2 => PsychicPower(151),
            3 => PsychicPower(301),
            _ => PsychicPower(601),
        };
        assert_eq!(p.swarm_capacity(), t as usize + 2);
    }
}

#[test]
fn psychic_power_damage_multiplier_increases() {
    let powers = [PsychicPower(0), PsychicPower(51), PsychicPower(151), PsychicPower(301), PsychicPower(601)];
    for i in 0..powers.len() - 1 {
        assert!(powers[i].damage_multiplier() < powers[i + 1].damage_multiplier());
    }
    assert_eq!(PsychicPower(601).attack_potency(), 90);
}

#[test]
fn civilian_drops_smaller_orb_than_enemy() {
    let civilian_orb = corpse_biomass(true);
    let enemy_orb = corpse_biomass(false);
    assert!(civilian_orb < enemy_orb);
    assert_eq!(civilian_orb, 2);
    assert_eq!(enemy_orb, 5);
}

#[test]
fn enemy_chase_prefers_diagonal() {
    let map = TileMap::new(10, 10, TileType::Floor);
    let pos = GridPos { x: 0, y: 0 };
    let target = GridPos { x: 3, y: 3 };
    let next = chase_step(&map, pos, target);
    assert_eq!(next.x, 1);
    assert_eq!(next.y, 1);
}

#[test]
fn chase_falls_back_to_an_axis() {
    let mut map = TileMap::new(10, 10, TileType::Floor);
    map.set(1, 1, TileType::Wall);
    let next = chase_step(&map, GridPos { x: 0, y: 0 }, GridPos { x: 3, y: 3 });
    assert_eq!(next, GridPos { x: 1, y: 0 });
    map.set(1, 0, TileType::Wall);
    let next = chase_step(&map, GridPos { x: 0, y: 0 }, GridPos { x: 3, y: 3 });
    assert_eq!(next, GridPos { x: 0, y: 1 });
}

#[test]
fn civilians_flee_only_when_near() {
    let map = TileMap::new(30, 30, TileType::Floor);
    let p = flee_step(&map, GridPos { x: 5, y: 5 }, GridPos { x: 7, y: 9 });
    assert_eq!(p, GridPos { x: 4, y: 5 });
    let far = flee_step(&map, GridPos { x: 5, y: 5 }, GridPos { x: 25, y: 5 });
    assert_eq!(far, GridPos { x: 5, y: 5 });
}

#[test]
fn sight_range_defaults_to_8() {
    let sr = SightRange(8);
    assert_eq!(sr.0, 8);
    assert_eq!(SightRange::default().0, 8);
}

#[test]
fn los_clear_on_open_floor() {
    let map = TileMap::new(10, 10, TileType::Floor);
    assert!(has_line_of_sight(&map, GridPos { x: 0, y: 0 }, GridPos { x: 9, y: 0 }));
}

#[test]
fn los_blocked_by_wall() {
    let mut map = TileMap::new(10, 10, TileType::Floor);
    map.set(5, 0, TileType::Wall);
    assert!(!has_line_of_sight(&map, GridPos { x: 0, y: 0 }, GridPos { x: 9, y: 0 }));
}

#[test]
fn los_diagonal_clear() {
    let map = TileMap::new(10, 10, TileType::Floor);
    assert!(has_line_of_sight(&map, GridPos { x: 0, y: 0 }, GridPos { x: 5, y: 5 }));
}

#[test]
fn los_same_tile_returns_true() {
    let map = TileMap::new(10, 10, TileType::Floor);
    let pos = GridPos { x: 3, y: 3 };
    assert!(has_line_of_sight(&map, pos, pos));
}

#[test]
fn los_rounds_halves_away_from_zero() {
    // From (0,0) to (2,1): the middle sample is (1, 0.5), which rounds to (1, 1).
    let mut map = TileMap::new(5, 5, TileType::Floor);
    map.set(1, 1, TileType::Wall);
    assert!(!has_line_of_sight(&map, GridPos { x: 0, y: 0 }, GridPos { x: 2, y: 1 }));
    let mut map2 = TileMap::new(5, 5, TileType::Floor);
    map2.set(1, 0, TileType::Wall);
    assert!(has_line_of_sight(&map2, GridPos { x: 0, y: 0 }, GridPos { x: 2, y: 1 }));
}

#[test]
fn alert_radius_positive() {
    assert!(ALERT_RADIUS > 0);
}

#[test]
fn alerts_wake_patrols_in_range_only() {
    let o = GridPos { x: 10, y: 10 };
    assert_eq!(alert_response(EnemyAI::Patrol, GridPos { x: 16, y: 4 }, o), EnemyAI::Chase);
    assert_eq!(alert_response(EnemyAI::Patrol, GridPos { x: 17, y: 10 }, o), EnemyAI::Patrol);
    assert_eq!(alert_response(EnemyAI::AttackTarget, GridPos { x: 10, y: 10 }, o), EnemyAI::AttackTarget);
}

#[test]
fn all_factions_resolved_requires_all_three() {
    let mut p = FactionProgress::default();
    assert!(!p.all_factions_resolved());
    p.syndicate = FactionState::Resolved;
    p.precinct = FactionState::Resolved;
    assert!(!p.all_factions_resolved());
    p.covenant = FactionState::Resolved;
    assert!(p.all_factions_resolved());
}

#[test]
fn resolved_count_increments() {
    let mut p = FactionProgress::default();
    assert_eq!(p.resolved_count(), 0);
    p.syndicate = FactionState::Resolved;
    assert_eq!(p.resolved_count(), 1);
    p.precinct = FactionState::Resolved;
    assert_eq!(p.resolved_count(), 2);
    p.covenant = FactionState::Resolved;
    assert_eq!(p.resolved_count(), 3);
}

#[test]
fn faction_get_mut_round_trips() {
    let mut p = FactionProgress::default();
    *p.get_mut(FactionId::Precinct) = FactionState::Resolved;
    assert_eq!(p.get(FactionId::Precinct), FactionState::Resolved);
    assert_eq!(p.get(FactionId::Syndicate), FactionState::Untouched);
}

#[test]
fn faction_names() {
    assert_eq!(FactionId::Syndicate.display_name(), "Syndicate");
    assert_eq!(FactionId::Covenant.boss_name(), "The Prophet");
    assert_eq!(FactionId::Precinct.boss_name(), "Chief Harlan");
}

#[test]
fn boss_death_after_job_pays_the_plan_reward() {
    let mut p = FactionProgress::default();
    p.accept_plan(FactionId::Syndicate);
    assert!(p.complete_job(FactionId::Syndicate));
    assert!(!p.complete_job(FactionId::Syndicate));
    assert_eq!(p.on_boss_killed(FactionId::Syndicate), BossKillOutcome::Resolved { plan_reward: true });
    assert_eq!(p.on_boss_killed(FactionId::Syndicate), BossKillOutcome::AlreadyResolved);
    assert_eq!(p.on_boss_killed(FactionId::Covenant), BossKillOutcome::Resolved { plan_reward: false });
    assert_eq!(p.resolved_count(), 2);
    assert!(p.resolve(FactionId::Precinct));
    assert!(!p.resolve(FactionId::Precinct));
    assert!(p.all_factions_resolved());
}

#[test]
fn deals_are_offered_and_accepted_by_distance() {
    assert!(offers_deal(BossRelation::Hostile, FactionState::Untouched, 5));
    assert!(!offers_deal(BossRelation::Hostile, FactionState::Untouched, 6));
    assert!(!offers_deal(BossRelation::Hostile, FactionState::PlanAccepted, 1));
    assert!(accepts_deal(BossRelation::OfferingDeal, 7));
    assert!(!accepts_deal(BossRelation::OfferingDeal, 8));
    assert_eq!(BossRelation::default(), BossRelation::Hostile);
}

#[test]
fn creature_costs_increase_with_power() {
    let costs = [
        CreatureKind::Scuttler.biomass_cost(),
        CreatureKind::Grasper.biomass_cost(),
        CreatureKind::Ravager.biomass_cost(),
        CreatureKind::Spitter.biomass_cost(),
        CreatureKind::Voidthrall.biomass_cost(),
        CreatureKind::Psychovore.biomass_cost(),
        CreatureKind::Colossoid.biomass_cost(),
    ];
    for w in costs.windows(2) {
        assert!(w[1] > w[0], "costs should increase: {} <= {}", w[1], w[0]);
    }
}

#[test]
fn unlocks_do_not_repeat() {
    let mut u = SwarmUnlocks::default();
    assert!(!u.is_unlocked(&CreatureKind::Grasper));
    u.unlock(CreatureKind::Grasper);
    u.unlock(CreatureKind::Scuttler);
    u.unlock(CreatureKind::Grasper);
    assert_eq!(u.unlocked, vec![CreatureKind::Grasper, CreatureKind::Scuttler]);
    assert!(u.is_unlocked(&CreatureKind::Scuttler));
    assert_eq!(spawn_check(&u, CreatureKind::Ravager, 100, 1, 2), SpawnCheck::NotUnlocked);
    assert_eq!(spawn_check(&u, CreatureKind::Grasper, 24, 1, 2), SpawnCheck::TooExpensive);
    assert_eq!(spawn_check(&u, CreatureKind::Grasper, 25, 1, 2), SpawnCheck::Allowed);
    assert_eq!(spawn_check(&u, CreatureKind::Grasper, 25, 2, 2), SpawnCheck::SwarmFull);
    assert_eq!(CreatureKind::Voidthrall.display_name(), "Voidthrall");
}

#[test]
fn creatures_fight_in_their_listed_roles() {
    assert_eq!(CreatureKind::Scuttler.attack_mode(), AttackMode::Melee);
    assert_eq!(CreatureKind::Grasper.attack_mode(), AttackMode::Melee);
    assert_eq!(CreatureKind::Ravager.attack_mode(), AttackMode::Melee);
    assert_eq!(CreatureKind::Spitter.attack_mode(), AttackMode::Ranged);
    assert_eq!(CreatureKind::Voidthrall.attack_mode(), AttackMode::Ranged);
    assert_eq!(CreatureKind::Psychovore.attack_mode(), AttackMode::Ranged);
    assert_eq!(CreatureKind::Colossoid.attack_mode(), AttackMode::Melee);
}

#[test]
fn creature_costs_follow_the_price_list() {
    assert_eq!(CreatureKind::Scuttler.biomass_cost(), 15);
    assert_eq!(CreatureKind::Grasper.biomass_cost(), 25);
    assert_eq!(CreatureKind::Colossoid.biomass_cost(), 180);
}

#[test]
fn spawning_charges_the_cost_and_respects_the_cap() {
    let mut u = SwarmUnlocks::default();
    u.unlock(CreatureKind::Scuttler);
    let mut s = Swarm { members: vec![0], active_index: 0 };
    let mut biomass: u32 = 40;
    // Psychic power 0 gives a cap of two bodies.
    let cap = PsychicPower(0).swarm_capacity();
    assert_eq!(s.spawn_creature(&u, CreatureKind::Scuttler, &mut biomass, cap, 5), SpawnCheck::Allowed);
    assert_eq!((biomass, s.members.clone()), (25, vec![0, 5]));
    assert_eq!(s.spawn_creature(&u, CreatureKind::Scuttler, &mut biomass, cap, 6), SpawnCheck::SwarmFull);
    assert_eq!((biomass, s.members.clone()), (25, vec![0, 5]));
    assert_eq!(s.spawn_creature(&u, CreatureKind::Grasper, &mut biomass, 10, 7), SpawnCheck::NotUnlocked);
    let mut poor: u32 = 10;
    assert_eq!(s.spawn_creature(&u, CreatureKind::Scuttler, &mut poor, 10, 8), SpawnCheck::TooExpensive);
    assert_eq!((poor, s.members.len()), (10, 2));
}

#[test]
fn swarm_control_cycles_and_removal_keeps_order() {
    let mut s = Swarm { members: vec![10, 11, 12, 13], active_index: 1 };
    assert_eq!(s.next_controllable(&vec![true, true, true, true]), Some(2));
    assert_eq!(s.next_controllable(&vec![true, true, false, false]), Some(0));
    assert_eq!(s.next_controllable(&vec![false, true, false, false]), Some(1));
    assert_eq!(s.next_controllable(&vec![false, false, false, false]), None);
    let active = s.remove_member(11, 11);
    assert_eq!(s.members, vec![10, 12, 13]);
    assert_eq!(active, 10);
    assert_eq!(s.active_index, 0);
    let active = s.remove_member(12, 13);
    assert_eq!(active, 13);
    assert_eq!(s.members, vec![10, 13]);
    assert_eq!(s.active_index, 1);
}

#[test]
fn initial_quest_state() {
    let state = QuestState::default();
    assert_eq!(state.current_step(), 0);
    assert_eq!(state, QuestState::Escape);
}

#[test]
fn quest_advance() {
    let mut state = QuestState::Escape;
    assert_eq!(state.current_step(), 0);
    state.advance();
    assert_eq!(state, QuestState::FactionHunt);
    assert_eq!(state.current_step(), 1);
    state.advance();
    assert_eq!(state, QuestState::ArmyInvasion);
    assert_eq!(state.current_step(), 4);
    state.advance();
    assert_eq!(state, QuestState::FinalBattle);
    assert_eq!(state.current_step(), 5);
    state.advance();
    assert_eq!(state, QuestState::Victory);
    assert_eq!(state.current_step(), 6);
    state.advance();
    assert_eq!(state, QuestState::Victory);
}

#[test]
fn victory_step_number() {
    assert_eq!(QuestState::Victory.current_step(), 6);
}

#[test]
fn escape_fired_guard_prevents_double_fire() {
    let mut fired = EscapeFired::default();
    assert!(!fired.0);
    fired.0 = true;
    assert!(fired.0);
}

#[test]
fn escape_fires_once_and_unlocks_scuttler() {
    let mut q = QuestState::Escape;
    let mut fired = EscapeFired::default();
    let mut unlocks = SwarmUnlocks::default();
    assert!(!check_escape(&mut q, &mut fired, &mut unlocks, 62));
    assert!(check_escape(&mut q, &mut fired, &mut unlocks, 63));
    assert_eq!(q, QuestState::FactionHunt);
    assert!(fired.0);
    assert_eq!(unlocks.unlocked, vec![CreatureKind::Scuttler]);
    assert!(!check_escape(&mut q, &mut fired, &mut unlocks, 100));
}

#[test]
fn betrayal_step_number() {
    assert_eq!(QuestState::Betrayal.current_step(), 3);
}

#[test]
fn army_invasion_step_number() {
    assert_eq!(QuestState::ArmyInvasion.current_step(), 4);
}

#[test]
fn movement_8_directional_all_deltas() {
    let cases = [
        (true, false, false, false, (-1, -1)),
        (false, true, false, false, (1, 1)),
        (false, false, true, false, (-1, 1)),
        (false, false, false, true, (1, -1)),
        (true, false, false, true, (0, -2)),
        (true, false, true, false, (-2, 0)),
        (false, true, false, true, (2, 0)),
        (false, true, true, false, (0, 2)),
    ];
    for (w, s, a, d, expected) in cases {
        assert_eq!(wasd_direction(w, s, a, d), expected, "w={w} s={s} a={a} d={d}");
    }
}

#[test]
fn boss_rotation_and_summons() {
    let mut ai = BossAI { phase: 0 };
    assert_eq!(harlan_attack(ai), HarlanAttack::Burst);
    ai.advance();
    assert_eq!(harlan_attack(ai), HarlanAttack::ShieldWall);
    ai.advance();
    assert_eq!(harlan_attack(ai), HarlanAttack::TacticalStrike);
    let guards = summon_positions(GridPos { x: 1, y: 7 }, 3, 2, 0);
    assert_eq!(guards, vec![GridPos { x: 0, y: 7 }, GridPos { x: 1, y: 7 }, GridPos { x: 3, y: 7 }]);
    let reinf = summon_positions(GridPos { x: 10, y: 1 }, 3, 3, 3);
    assert_eq!(reinf, vec![GridPos { x: 7, y: -2 }, GridPos { x: 10, y: -2 }, GridPos { x: 13, y: -2 }]);
    assert_eq!(barrage_offsets(3), vec![-3, 0, 3]);
    assert_eq!(barrage_offsets(2), vec![-3, 0]);
    assert!(barrage_offsets(0).is_empty());
    assert!(summon_positions(GridPos { x: 5, y: 5 }, -2, 3, 0).is_empty());
    let wide = summon_positions(GridPos { x: 100, y: i32::MIN + 1 }, 12, 5, 4);
    assert_eq!(wide.len(), 12);
    assert_eq!(wide[0], GridPos { x: 70, y: i32::MIN });
    assert_eq!(wide[11], GridPos { x: 125, y: i32::MIN });
    let dropping = summon_positions(GridPos { x: 0, y: i32::MAX - 1 }, 1, 1, -4);
    assert_eq!(dropping, vec![GridPos { x: 0, y: i32::MAX }]);
    assert_eq!(general_plan(GeneralPhase::ArtilleryBarrage).barrage_markers, 3);
    assert!(general_plan(GeneralPhase::Enrage).combo);
    assert_eq!(burst_tick(2), (1, true));
    assert_eq!(burst_tick(0), (0, false));
}
