use necrophage::world::astar::PathSearch;
use necrophage::world::map::TileMap;
use necrophage::world::tile::TileType;

#[test]
fn walkable_floor_tile() {
    let mut map = TileMap::new(10, 10, TileType::Wall);
    map.set(5, 5, TileType::Floor);
    assert!(map.is_walkable(5, 5));
}

#[test]
fn wall_tile_not_walkable() {
    let map = TileMap::new(10, 10, TileType::Wall);
    assert!(!map.is_walkable(5, 5));
}

#[test]
fn out_of_bounds_not_walkable() {
    let map = TileMap::new(10, 10, TileType::Floor);
    assert!(!map.is_walkable(-1, 0));
    assert!(!map.is_walkable(0, -1));
    assert!(!map.is_walkable(10, 0));
    assert!(!map.is_walkable(0, 10));
    assert!(!map.is_walkable(-100, -100));
}

#[test]
fn astar_same_start_goal_returns_empty() {
    let map = TileMap::new(10, 10, TileType::Floor);
    let path = map.astar((3, 3), (3, 3));
    assert!(path.is_empty());
}

#[test]
fn astar_goal_is_wall_returns_empty() {
    let mut map = TileMap::new(10, 10, TileType::Floor);
    map.set(5, 5, TileType::Wall);
    let path = map.astar((0, 0), (5, 5));
    assert!(path.is_empty());
}

#[test]
fn astar_straight_line_path() {
    let map = TileMap::new(10, 10, TileType::Floor);
    let path = map.astar((0, 0), (3, 0));
    assert!(!path.is_empty());
    assert_eq!(*path.last().unwrap(), (3, 0));
}

#[test]
fn map_astar_navigates_around_wall() {
    let mut map = TileMap::new(10, 10, TileType::Floor);
    for y in 0..=4 {
        map.set(2, y, TileType::Wall);
    }
    let path = map.astar((0, 2), (4, 2));
    assert!(!path.is_empty());
    for &(x, y) in &path {
        assert!(!(x == 2 && y <= 4), "path passed through wall at ({x},{y})");
    }
    assert_eq!(*path.last().unwrap(), (4, 2));
}

#[test]
fn astar_excludes_start_includes_goal() {
    let map = TileMap::new(10, 10, TileType::Floor);
    let start = (1, 1);
    let goal = (4, 4);
    let path = map.astar(start, goal);
    assert!(!path.is_empty());
    assert_ne!(path[0], start, "path should not include start");
    assert_eq!(*path.last().unwrap(), goal);
}

#[test]
fn ecs_integration_astar_navigates_around_wall() {
    let mut map = TileMap::new(10, 10, TileType::Floor);
    for y in 0..=4 {
        map.set(2, y, TileType::Wall);
    }
    let path = map.astar((0, 2), (4, 2));
    assert!(!path.is_empty(), "A* should find a path around the wall");
    for &(x, y) in &path {
        assert!(!(x == 2 && y <= 4), "path passed through wall tile at ({x},{y})");
    }
    assert_eq!(*path.last().unwrap(), (4, 2), "path should end at the goal");
}

#[test]
fn tile_type_variants() {
    assert_ne!(TileType::Floor, TileType::Wall);
    assert_ne!(TileType::Floor, TileType::Door);
    assert_ne!(TileType::Floor, TileType::Exit);
    assert_ne!(TileType::Wall, TileType::Door);
    assert_ne!(TileType::Wall, TileType::Exit);
    assert_ne!(TileType::Door, TileType::Exit);
}

#[test]
fn floor_is_walkable() {
    assert!(TileType::Floor.is_walkable());
    assert!(TileType::Door.is_walkable());
    assert!(TileType::Exit.is_walkable());
    assert!(!TileType::Wall.is_walkable());
}

#[test]
fn player_cannot_walk_into_wall() {
    let mut m = TileMap::new(10, 10, TileType::Floor);
    for y in 0..10 {
        m.set(9, y, TileType::Wall);
    }
    let (mut px, mut py) = (8, 5);
    let (dx, dy) = (1i32, 0i32);
    let nx = px + dx;
    let ny = py + dy;
    if m.is_walkable(nx, ny) {
        px = nx;
        py = ny;
    }
    assert_eq!(px, 8, "player should be blocked by wall");
    assert_eq!(py, 5);
}

#[test]
fn diagonal_blocked_falls_back_to_cardinal() {
    let mut m = TileMap::new(10, 10, TileType::Floor);
    m.set(6, 4, TileType::Wall);
    let (mut px, py) = (5, 5);
    let (dx, dy) = (1i32, -1i32);
    let nx = px + dx;
    let ny = py + dy;
    assert!(!m.is_walkable(nx, ny));
    assert!(m.is_walkable(px + dx, py));
    px += dx;
    assert_eq!(px, 6);
    assert_eq!(py, 5);
}

fn make_map_with_floor() -> TileMap {
    let mut m = TileMap::new(10, 10, TileType::Floor);
    for y in 0..10 {
        m.set(9, y, TileType::Wall);
    }
    m
}

#[test]
fn make_map_with_floor_has_right_wall() {
    let m = make_map_with_floor();
    assert!(!m.is_walkable(9, 5));
    assert!(m.is_walkable(8, 5));
}

#[test]
fn continuous_movement_blocked_near_wall() {
    let m = make_map_with_floor();
    let r = 0.35f32;
    let pz = 5.0f32;
    let vx = 0.1f32;
    let px_far = 8.0f32;
    let front_far = (px_far + vx) + r;
    assert!(
        m.is_walkable(front_far.round() as i32, (pz - r).round() as i32),
        "should not be blocked far from wall"
    );
    let px_close = 8.6f32;
    let front_close = (px_close + vx) + r;
    assert!(
        !m.is_walkable(front_close.round() as i32, (pz - r).round() as i32),
        "should be blocked when front edge enters wall tile"
    );
}

#[test]
fn set_outside_grid_changes_nothing() {
    let mut map = TileMap::new(4, 3, TileType::Wall);
    map.set(-1, 0, TileType::Floor);
    map.set(4, 0, TileType::Floor);
    for y in 0..3 {
        for x in 0..4 {
            assert_eq!(map.tile_at(x, y), TileType::Wall);
        }
    }
    assert_eq!(map.tile_at(7, 7), TileType::Wall);
}

#[test]
fn fill_rect_is_inclusive_and_clipped() {
    let mut map = TileMap::new(5, 5, TileType::Wall);
    map.fill_rect(3, 3, 10, 10, TileType::Floor);
    assert_eq!(map.tile_at(3, 3), TileType::Floor);
    assert_eq!(map.tile_at(4, 4), TileType::Floor);
    assert_eq!(map.tile_at(2, 3), TileType::Wall);
    assert_eq!(map.tile_at(3, 2), TileType::Wall);
}

#[test]
fn iter_tiles_is_row_major() {
    let mut map = TileMap::new(3, 2, TileType::Wall);
    map.set(1, 1, TileType::Exit);
    let tiles = map.iter_tiles();
    assert_eq!(tiles.len(), 6);
    assert_eq!(tiles[0], (0, 0, TileType::Wall));
    assert_eq!(tiles[4], (1, 1, TileType::Exit));
    assert_eq!(tiles[5], (2, 1, TileType::Wall));
}

#[test]
fn astar_path_steps_are_adjacent_and_walkable() {
    let mut map = TileMap::new(8, 8, TileType::Floor);
    for y in 1..8 {
        map.set(4, y, TileType::Wall);
    }
    let path = map.astar((1, 6), (6, 6));
    assert!(!path.is_empty());
    let mut prev = (1, 6);
    for &(x, y) in &path {
        assert!(map.is_walkable(x, y));
        assert!((x - prev.0).abs() <= 1 && (y - prev.1).abs() <= 1);
        prev = (x, y);
    }
    assert_eq!(prev, (6, 6));
}

#[test]
fn astar_steps_straight_onto_a_neighbouring_goal() {
    let map = TileMap::new(10, 10, TileType::Floor);
    assert_eq!(map.astar((1, 1), (2, 2)), vec![(2, 2)]);
    assert_eq!(map.astar((4, 4), (4, 3)), vec![(4, 3)]);
    let mut walled = TileMap::new(10, 10, TileType::Floor);
    walled.set(2, 1, TileType::Wall);
    assert_eq!(walled.astar((1, 1), (2, 1)), Vec::<(i32, i32)>::new());
}

fn wall_in(map: &mut TileMap, cx: i32, cy: i32) {
    for dx in -1..=1 {
        for dy in -1..=1 {
            if dx != 0 || dy != 0 {
                map.set(cx + dx, cy + dy, TileType::Wall);
            }
        }
    }
}

#[test]
fn search_reports_a_walled_in_goal_as_unreachable() {
    let mut map = TileMap::new(10, 10, TileType::Floor);
    wall_in(&mut map, 7, 7);
    assert!(matches!(map.search((1, 1), (7, 7)), PathSearch::Unreachable));
    assert!(map.astar((1, 1), (7, 7)).is_empty());
}

#[test]
fn search_gives_up_on_a_large_sealed_map() {
    let mut map = TileMap::new(40, 40, TileType::Floor);
    wall_in(&mut map, 37, 37);
    match map.search((1, 1), (37, 37)) {
        PathSearch::GaveUp(log) => {
            assert_eq!(log.len(), 401);
            assert_eq!((log[0].0, log[0].1, log[0].2), (1, 1, 0));
            assert!(log.iter().all(|&(x, y, _)| (x, y) != (37, 37)));
            for a in 0..log.len() {
                for b in a + 1..log.len() {
                    assert_ne!(log[a], log[b]);
                }
            }
        }
        other => panic!("expected the search to give up, got {:?}", other),
    }
    assert!(map.astar((1, 1), (37, 37)).is_empty());
}

#[test]
fn search_finds_the_path_that_astar_returns() {
    let mut map = TileMap::new(10, 10, TileType::Floor);
    for y in 0..=4 {
        map.set(2, y, TileType::Wall);
    }
    match map.search((0, 2), (4, 2)) {
        PathSearch::Found(path) => {
            assert_eq!(path, map.astar((0, 2), (4, 2)));
            assert_eq!(*path.last().unwrap(), (4, 2));
        }
        other => panic!("expected a path, got {:?}", other),
    }
}

#[test]
fn search_from_the_goal_finds_the_empty_path() {
    let map = TileMap::new(10, 10, TileType::Floor);
    assert!(matches!(map.search((3, 3), (3, 3)), PathSearch::Found(ref p) if p.is_empty()));
}

#[test]
fn search_reports_a_wall_goal_as_unreachable() {
    let mut map = TileMap::new(10, 10, TileType::Floor);
    map.set(5, 5, TileType::Wall);
    assert!(matches!(map.search((0, 0), (5, 5)), PathSearch::Unreachable));
}
