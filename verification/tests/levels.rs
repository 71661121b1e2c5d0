use necrophage::faction::FactionId;
use necrophage::levels::building::BuildingGenerator;
use necrophage::levels::covenant::{CovenantGenerator, RITUAL_CENTER, RITUAL_ZONE_RADIUS};
use necrophage::levels::district::{nearest_street_south, overlaps_street, DistrictGenerator};
use necrophage::levels::fortress::FortressGenerator;
use necrophage::levels::generator::{building_hash, BuildingKind, LevelGenerator};
use necrophage::levels::hub::HubGenerator;
use necrophage::levels::jail::JailGenerator;
use necrophage::levels::placement::{
    find_walkable_near, plan_spawns, suspend_action, SuspendAction, SUSPEND_DIST, WAKE_DIST,
};
use necrophage::levels::precinct::PrecinctGenerator;
use necrophage::levels::syndicate::SyndicateGenerator;
use necrophage::levels::world::{
    WorldGenerator, COVENANT_OFFSET_Y, DISTRICT_OFFSET_X, FORTRESS_ENTRY_Y, FORTRESS_OFFSET_Y, JAIL_BOUNDARY_X,
    WORLD_H, WORLD_W,
};
use necrophage::world::map::TileMap;
use necrophage::world::tile::TileType;
use rand::rngs::StdRng;
use rand::SeedableRng;

#[test]
fn same_seed_produces_identical_map() {
    let builder = BuildingGenerator::new(BuildingKind::Generic, 42);
    let mut rng1 = StdRng::seed_from_u64(0);
    let mut rng2 = StdRng::seed_from_u64(99);
    let (map1, _) = builder.generate(&mut rng1);
    let (map2, _) = builder.generate(&mut rng2);
    assert_eq!(map1.width, map2.width);
    assert_eq!(map1.height, map2.height);
    for y in 0..map1.height {
        for x in 0..map1.width {
            assert_eq!(map1.tile_at(x, y), map2.tile_at(x, y), "Tile mismatch at ({x},{y})");
        }
    }
}

#[test]
fn different_seeds_produce_different_maps() {
    let gen1 = BuildingGenerator::new(BuildingKind::GangHideout, 1);
    let gen2 = BuildingGenerator::new(BuildingKind::GangHideout, 2);
    let mut dummy = StdRng::seed_from_u64(0);
    let (_, info1) = gen1.generate(&mut dummy);
    let (_, info2) = gen2.generate(&mut dummy);
    let _ = info1;
    let _ = info2;
}

#[test]
fn generic_building_has_exit() {
    let builder = BuildingGenerator::new(BuildingKind::Generic, 7);
    let mut rng = StdRng::seed_from_u64(0);
    let (map, _) = builder.generate(&mut rng);
    assert!(map.exit_pos.is_some());
    let (ex, ey) = map.exit_pos.unwrap();
    assert_eq!(map.tile_at(ex, ey), TileType::Exit);
}

#[test]
fn jail_generator_player_start_is_walkable() {
    let mut rng = StdRng::seed_from_u64(42);
    let jail_gen = JailGenerator;
    let (map, info) = jail_gen.generate(&mut rng);
    let (px, py) = info.player_start;
    assert!(map.is_walkable(px, py), "player_start ({px},{py}) should be a walkable tile");
}

#[test]
fn world_dimensions_are_correct() {
    let wgen = WorldGenerator { seed: 42 };
    let mut rng = StdRng::seed_from_u64(42);
    let (map, _) = wgen.generate(&mut rng);
    assert_eq!(map.width, WORLD_W);
    assert_eq!(map.height, WORLD_H);
}

#[test]
fn faction_bosses_are_present_in_spawn_info() {
    let wgen = WorldGenerator { seed: 42 };
    let mut rng = StdRng::seed_from_u64(42);
    let (_, info) = wgen.generate(&mut rng);
    assert_eq!(info.faction_bosses.len(), 3);
    assert!(info.general_position.is_some());
}

#[test]
fn jail_boundary_is_in_corridor() {
    assert!(JAIL_BOUNDARY_X >= 55 && JAIL_BOUNDARY_X <= DISTRICT_OFFSET_X);
}

#[test]
fn fortress_entry_y_is_before_fortress_zone() {
    assert!(FORTRESS_ENTRY_Y < FORTRESS_OFFSET_Y);
    assert!(FORTRESS_ENTRY_Y > COVENANT_OFFSET_Y);
}

#[test]
fn suspend_wake_hysteresis() {
    assert!(SUSPEND_DIST > WAKE_DIST);
}

#[test]
fn district_offset_positive() {
    assert!(DISTRICT_OFFSET_X > 0);
}

#[test]
fn building_kind_codes_round_trip() {
    for kind in [BuildingKind::Generic, BuildingKind::GangHideout, BuildingKind::BossHq] {
        assert_eq!(BuildingKind::from_code(kind.to_code()), kind);
    }
    assert_eq!(BuildingKind::Generic.to_code(), 0);
    assert_eq!(BuildingKind::GangHideout.to_code(), 1);
    assert_eq!(BuildingKind::BossHq.to_code(), 2);
    assert_eq!(BuildingKind::from_code(9), BuildingKind::Generic);
}

#[test]
fn building_hash_is_deterministic_and_position_dependent() {
    let a = building_hash(10, 12, 12345);
    assert_eq!(a, building_hash(10, 12, 12345));
    assert_ne!(a, building_hash(11, 12, 12345));
    assert_ne!(a, building_hash(10, 12, 54321));
    // seed 0 at the origin mixes to 0.
    assert_eq!(building_hash(0, 0, 0), 0);
}

#[test]
fn nearest_street_south_picks_next_row() {
    assert_eq!(nearest_street_south(15, 40), 20);
    assert_eq!(nearest_street_south(2, 40), 5);
    assert_eq!(nearest_street_south(25, 40), 35);
    assert_eq!(nearest_street_south(36, 40), 39);
}

#[test]
fn overlaps_street_detects_streets() {
    assert!(!overlaps_street(8, 8, 12, 12, 60, 40));
    assert!(overlaps_street(4, 8, 8, 12, 60, 40));
    assert!(overlaps_street(8, 19, 12, 22, 60, 40));
    assert!(overlaps_street(28, 8, 29, 12, 60, 40) == false);
    assert!(overlaps_street(28, 8, 30, 12, 60, 40));
}

#[test]
fn district_default_seed_and_layout() {
    let g = DistrictGenerator::default();
    assert_eq!(g.seed, 12345);
    let mut rng = StdRng::seed_from_u64(3);
    let (map, info) = g.generate(&mut rng);
    assert_eq!(map.exit_pos, Some((58, 38)));
    assert_eq!(map.tile_at(58, 38), TileType::Exit);
    assert_eq!(map.tile_at(49, 15), TileType::Door);
    assert_eq!(info.boss_position, Some((49, 10)));
    let last = *info.entrance_positions.last().unwrap();
    assert_eq!(last, (49, 15, building_hash(45, 8, 12345), BuildingKind::BossHq));
    assert_eq!(info.streetlight_positions.len(), 24);
    for x in 0..60 {
        for y in [5, 6, 20, 21, 35, 36] {
            assert_eq!(map.tile_at(x, y), TileType::Floor);
        }
    }
}

#[test]
fn hub_layout_and_spawns() {
    let mut rng = StdRng::seed_from_u64(5);
    let (map, info) = HubGenerator.generate(&mut rng);
    assert_eq!((map.width, map.height), (60, 80));
    assert_eq!(info.player_start, (4, 77));
    assert_eq!(info.streetlight_positions.len(), 9);
    for &(x, y) in info.enemy_positions.iter().chain(info.civilian_positions.iter()) {
        assert!(map.is_walkable(x, y));
    }
    // A walled building: wall on the border, floor inside.
    assert_eq!(map.tile_at(10, 14), TileType::Wall);
    assert_eq!(map.tile_at(15, 18), TileType::Floor);
}

#[test]
fn faction_zones_place_their_bosses() {
    let mut rng = StdRng::seed_from_u64(8);
    let (smap, sinfo) = SyndicateGenerator { seed: 1 }.generate(&mut rng);
    assert_eq!(sinfo.faction_bosses, vec![(60, 5, FactionId::Syndicate)]);
    assert!(smap.is_walkable(60, 5));
    let (pmap, pinfo) = PrecinctGenerator { seed: 1 }.generate(&mut rng);
    assert_eq!(pinfo.faction_bosses, vec![(60, 6, FactionId::Precinct)]);
    assert!(pmap.is_walkable(60, 6));
    let (cmap, cinfo) = CovenantGenerator { seed: 1 }.generate(&mut rng);
    assert_eq!(cinfo.faction_bosses, vec![(60, 5, FactionId::Covenant)]);
    assert!(cmap.is_walkable(60, 62));
    let (fmap, finfo) = FortressGenerator { seed: 1 }.generate(&mut rng);
    assert_eq!(finfo.general_position, Some((60, 6)));
    assert_eq!(finfo.tank_position, Some((60, 12)));
    assert!(fmap.is_walkable(60, 12));
    assert!(finfo.elite_positions.len() >= 4 && finfo.elite_positions.len() < 8);
    for (i, &e) in finfo.elite_positions.iter().enumerate() {
        assert_eq!(e, (14 + 16 * i as i32, 42));
    }
}

#[test]
fn ritual_plaza_covers_every_float_ring_point() {
    // Every point the float ring sweep reaches lies in the integer disk that
    // the generator fills.
    let mut rng = StdRng::seed_from_u64(11);
    let (map, _) = CovenantGenerator { seed: 1 }.generate(&mut rng);
    let (cx, cy) = RITUAL_CENTER;
    for r in 0..=RITUAL_ZONE_RADIUS {
        for angle in 0..360 {
            let rad = angle as f32 * std::f32::consts::PI / 180.0;
            let px = cx + (r as f32 * rad.cos()) as i32;
            let py = cy + (r as f32 * rad.sin()) as i32;
            let (dx, dy) = (px - cx, py - cy);
            assert!(dx * dx + dy * dy <= RITUAL_ZONE_RADIUS * RITUAL_ZONE_RADIUS);
            assert_eq!(map.tile_at(px, py), TileType::Floor);
        }
    }
}

#[test]
fn world_spawns_are_walkable() {
    let mut rng = StdRng::seed_from_u64(42);
    let (map, info) = WorldGenerator { seed: 42 }.generate(&mut rng);
    for &(x, y) in info.enemy_positions.iter().chain(info.civilian_positions.iter()).chain(info.guard_positions.iter()) {
        assert!(map.is_walkable(x, y));
    }
    assert_eq!(info.general_position, Some((190, 306)));
    assert_eq!(info.tank_position, Some((190, 312)));
    for y in 0..WORLD_H {
        assert!(map.is_walkable(71, y));
    }
}

#[test]
fn find_walkable_near_prefers_the_point_then_nearest_ring() {
    let mut map = TileMap::new(10, 10, TileType::Wall);
    map.set(5, 5, TileType::Floor);
    assert_eq!(find_walkable_near(&map, 5, 5), Some((5, 5)));
    assert_eq!(find_walkable_near(&map, 3, 5), Some((5, 5)));
    assert_eq!(find_walkable_near(&map, 5, 0), Some((5, 5)));
    map.set(4, 3, TileType::Floor);
    // From (3, 4): (4, 3) is in ring 1, (5, 5) in ring 2.
    assert_eq!(find_walkable_near(&map, 3, 4), Some((4, 3)));
    let empty = TileMap::new(20, 20, TileType::Wall);
    assert_eq!(find_walkable_near(&empty, 10, 10), None);
}

#[test]
fn plan_spawns_snaps_and_counts() {
    let mut rng = StdRng::seed_from_u64(42);
    let (map, info) = WorldGenerator { seed: 42 }.generate(&mut rng);
    let plan = plan_spawns(&map, &info);
    assert_eq!(plan.enemies.len(), info.enemy_positions.len());
    assert_eq!(plan.faction_bosses.len(), 3);
    assert_eq!(plan.general, Some((190, 306)));
    assert_eq!(
        plan.population as usize,
        info.enemy_positions.len() + info.elite_positions.len() + info.civilian_positions.len()
    );
}

#[test]
fn suspension_rule_and_its_band() {
    assert_eq!(suspend_action(0, 0, 30, 0, false), SuspendAction::Suspend);
    assert_eq!(suspend_action(0, 0, 22, 0, false), SuspendAction::Keep);
    assert_eq!(suspend_action(0, 0, 20, 5, true), SuspendAction::Keep);
    assert_eq!(suspend_action(0, 0, 18, 18, true), SuspendAction::Wake);
    assert_eq!(suspend_action(0, 0, 2, 2, false), SuspendAction::Keep);
}

#[test]
fn compact_jail_layout_and_guards() {
    for seed in 0..20u64 {
        let mut rng = StdRng::seed_from_u64(seed);
        let (map, info) = necrophage::levels::small_jail::JailGenerator.generate(&mut rng);
        assert_eq!((map.width, map.height), (30, 20));
        assert_eq!(map.exit_pos, Some((28, 18)));
        assert_eq!(map.tile_at(28, 18), TileType::Exit);
        assert_eq!(map.tile_at(3, 5), TileType::Door);
        assert_eq!(info.player_start, (2, 2));
        assert_eq!(info.liberator_start, Some((2, 7)));
        assert!(map.is_walkable(2, 2) && map.is_walkable(2, 7));
        assert!((1..=3).contains(&info.guard_positions.len()));
        for (i, &g) in info.guard_positions.iter().enumerate() {
            assert_eq!(g, (25 + i as i32 % 2, 16 + i as i32 / 2));
            assert!(map.is_walkable(g.0, g.1));
        }
        assert!(info.enemy_positions.is_empty() && info.faction_bosses.is_empty());
    }
}
