use necrophage::boss::{blink_target, boss_step, general_acts, prophet_attack, varro_attack, BossAI, ProphetAttack, VarroAttack};
use necrophage::ending::EndingPhase;
use necrophage::faction::{on_faction_resolved, BossRelation, FactionProgress, FactionState};
use necrophage::levels::placement::{army_wave_due, army_wave_positions, district_transition, LevelSeed, LevelState};
use necrophage::levels::generator::LevelGenerator;
use necrophage::levels::world::WorldGenerator;
use necrophage::movement::{tab_next_index, GridPos};
use necrophage::npc::{dialogue_should_advance, liberator_step, DialogueQueue, LiberatorState, LINE_AT_EXIT};
use necrophage::quest::{
    check_army_invasion, check_fortress_entry, check_victory, quest_on_load, FortressEntryFired, QuestState,
};
use necrophage::swarm::{CreatureKind, SwarmUnlocks};
use necrophage::world::map::TileMap;
use necrophage::world::tile::TileType;
use rand::rngs::StdRng;
use rand::SeedableRng;

#[test]
fn liberator_leads_to_the_exit_then_waits() {
    let mut map = TileMap::new(10, 5, TileType::Floor);
    map.exit_pos = Some((3, 1));
    let player = GridPos { x: 9, y: 4 };
    let s = liberator_step(&map, LiberatorState::Imprisoned, QuestState::Escape, true, GridPos { x: 1, y: 3 }, player);
    assert_eq!(s.state, LiberatorState::BreakingOut);
    assert_eq!(s.reset_timer_ms, Some(500));
    let s = liberator_step(&map, s.state, QuestState::Escape, true, s.pos, player);
    assert_eq!(s.state, LiberatorState::Leading);
    let mut st = s;
    for _ in 0..4 {
        st = liberator_step(&map, st.state, QuestState::Escape, true, st.pos, player);
    }
    assert_eq!(st.pos, GridPos { x: 3, y: 1 });
    let st = liberator_step(&map, st.state, QuestState::Escape, true, st.pos, player);
    assert_eq!(st.state, LiberatorState::AwaitingPlayer);
    assert_eq!(st.line, Some(LINE_AT_EXIT));
    let near = GridPos { x: 5, y: 2 };
    let st = liberator_step(&map, st.state, QuestState::Escape, false, st.pos, near);
    assert_eq!(st.state, LiberatorState::Gone);
}

#[test]
fn dialogue_is_first_in_first_out() {
    let mut q = DialogueQueue::default();
    q.push("System", "one");
    q.push("Liberator", "two");
    assert_eq!(q.advance().unwrap().text, "one");
    let second = q.advance().unwrap();
    assert_eq!(second.speaker, "Liberator");
    assert!(q.advance().is_none());
    assert!(dialogue_should_advance(false, 4000));
    assert!(!dialogue_should_advance(false, 3999));
}

#[test]
fn the_story_runs_to_victory() {
    let mut q = QuestState::FactionHunt;
    let mut faction = FactionProgress::default();
    let mut unlocks = SwarmUnlocks::default();
    faction.syndicate = FactionState::Resolved;
    on_faction_resolved(&faction, &mut unlocks);
    assert_eq!(unlocks.unlocked, vec![CreatureKind::Ravager]);
    faction.precinct = FactionState::Resolved;
    on_faction_resolved(&faction, &mut unlocks);
    assert!(!check_army_invasion(&mut q, &faction, &mut unlocks));
    faction.covenant = FactionState::Resolved;
    assert!(check_army_invasion(&mut q, &faction, &mut unlocks));
    assert_eq!(q, QuestState::ArmyInvasion);
    let mut fired = FortressEntryFired::default();
    assert!(!check_fortress_entry(&mut q, &mut fired, &mut unlocks, 297));
    assert!(check_fortress_entry(&mut q, &mut fired, &mut unlocks, 298));
    assert_eq!(q, QuestState::FinalBattle);
    let mut ending = EndingPhase::default();
    assert!(!check_victory(&mut q, &faction, &mut ending));
    assert_eq!(ending, EndingPhase::Inactive);
    faction.on_general_killed();
    assert!(check_victory(&mut q, &faction, &mut ending));
    assert_eq!(q, QuestState::Victory);
    assert_eq!(ending, EndingPhase::FadingIn);
    assert_eq!(
        unlocks.unlocked,
        vec![CreatureKind::Ravager, CreatureKind::Spitter, CreatureKind::Voidthrall, CreatureKind::Psychovore, CreatureKind::Colossoid]
    );
    assert_eq!(quest_on_load(QuestState::Complete), QuestState::FactionHunt);
    assert_eq!(quest_on_load(QuestState::Betrayal), QuestState::Betrayal);
}

#[test]
fn bosses_rotate_move_and_blink() {
    assert_eq!(varro_attack(BossAI { phase: 4 }), VarroAttack::RangedThrow);
    assert_eq!(prophet_attack(BossAI { phase: 5 }), ProphetAttack::BlinkAndControl);
    let map = TileMap::new(20, 20, TileType::Floor);
    let b = GridPos { x: 10, y: 10 };
    assert_eq!(boss_step(&map, b, GridPos { x: 0, y: 10 }, BossRelation::Hostile), GridPos { x: 9, y: 10 });
    assert_eq!(boss_step(&map, b, GridPos { x: 0, y: 10 }, BossRelation::DealAccepted), b);
    assert!(general_acts(BossRelation::Hostile));
    let mut rng = StdRng::seed_from_u64(4);
    let p = blink_target(&map, b, &mut rng);
    assert!(map.is_walkable(p.x, p.y));
    assert!((p.x - b.x).abs() <= 8 && (p.y - b.y).abs() <= 8);
    let walls = TileMap::new(20, 20, TileType::Wall);
    assert_eq!(blink_target(&walls, b, &mut rng), b);
}

#[test]
fn army_wave_lands_in_the_hub() {
    assert!(army_wave_due(false, QuestState::ArmyInvasion));
    assert!(!army_wave_due(true, QuestState::ArmyInvasion));
    assert!(!army_wave_due(false, QuestState::FinalBattle));
    let mut rng = StdRng::seed_from_u64(42);
    let (map, _) = WorldGenerator { seed: 42 }.generate(&mut rng);
    let wave = army_wave_positions(&map, &mut rng);
    assert!(wave.len() <= 30);
    for &(x, y) in &wave {
        assert!(map.is_walkable(x, y));
        assert!((65..125).contains(&x) && (0..80).contains(&y));
    }
}

#[test]
fn transition_to_the_district() {
    assert_eq!(LevelSeed::default().0, 12345);
    assert_eq!(LevelState::default(), LevelState::Jail);
    let (map, info, player, liberator) = district_transition(LevelSeed(7));
    assert_eq!((map.width, map.height), (60, 40));
    assert_eq!(player, GridPos { x: 5, y: 37 });
    assert_eq!(liberator, GridPos { x: 7, y: 37 });
    assert_eq!(info.player_start, (5, 37));
}

#[test]
fn tab_cycles_through_controllable_bodies() {
    assert_eq!(tab_next_index(0, 3), 1);
    assert_eq!(tab_next_index(2, 3), 0);
}
