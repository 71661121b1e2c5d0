//! Building interior generator: small indoor levels for enterable district
//! buildings.

use rand::rngs::StdRng;
use vstd::prelude::*;

use super::generator::{
    all_walkable, all_within, range_i32, range_usize, seeded_rng, BuildingKind, LevelGenerator, SpawnInfo,
};
use crate::world::map::{in_rect, TileMap};
use crate::world::tile::TileType;

verus! {

/// Generates the interior of one building, deterministically from its own seed.
pub struct BuildingGenerator {
    pub kind: BuildingKind,
    pub seed: u64,
}

/// The layout of a generic building: a 12 × 10 room with its exit at the
/// middle of the bottom wall.
pub open spec fn generic_layout(a: int, b: int) -> TileType {
    if a == 6 && b == 9 {
        TileType::Exit
    } else if in_rect(a, b, 1, 1, 10, 8) {
        TileType::Floor
    } else {
        TileType::Wall
    }
}

/// The layout of a gang hideout: a small room on the left and a tall room on
/// the right joined by a door, with the exit in the bottom wall.
pub open spec fn hideout_layout(a: int, b: int) -> TileType {
    if a == 3 && b == 11 {
        TileType::Exit
    } else if a == 7 && b == 3 {
        TileType::Door
    } else if in_rect(a, b, 1, 1, 6, 5) || in_rect(a, b, 7, 1, 12, 10) {
        TileType::Floor
    } else {
        TileType::Wall
    }
}

/// The layout of a boss headquarters: an 18 × 14 hall with its exit at the
/// middle of the bottom wall.
pub open spec fn boss_hq_layout(a: int, b: int) -> TileType {
    if a == 9 && b == 13 {
        TileType::Exit
    } else if in_rect(a, b, 1, 1, 16, 12) {
        TileType::Floor
    } else {
        TileType::Wall
    }
}

/// The map is the 12 × 10 generic building.
pub open spec fn is_generic_map(map: TileMap) -> bool {
    &&& map.wf()
    &&& map.width == 12
    &&& map.height == 10
    &&& forall|a: int, b: int| 0 <= a < 12 && 0 <= b < 10 ==> #[trigger] map.spec_tile_at(a, b) == generic_layout(a, b)
}

/// The map is the 14 × 12 gang hideout.
pub open spec fn is_hideout_map(map: TileMap) -> bool {
    &&& map.wf()
    &&& map.width == 14
    &&& map.height == 12
    &&& forall|a: int, b: int| 0 <= a < 14 && 0 <= b < 12 ==> #[trigger] map.spec_tile_at(a, b) == hideout_layout(a, b)
}

/// The map is the 18 × 14 boss headquarters.
pub open spec fn is_boss_hq_map(map: TileMap) -> bool {
    &&& map.wf()
    &&& map.width == 18
    &&& map.height == 14
    &&& forall|a: int, b: int| 0 <= a < 18 && 0 <= b < 14 ==> #[trigger] map.spec_tile_at(a, b) == boss_hq_layout(a, b)
}

impl LevelGenerator for BuildingGenerator {
    /// Generates the interior from the building's own seed; the generator
    /// passed in is not used, so the layout does not depend on call order.
    fn generate(&self, _rng: &mut StdRng) -> (res: (TileMap, SpawnInfo))
        ensures
            *final(_rng) == *old(_rng),
            self.kind == BuildingKind::Generic ==> generic_ok(res.0, res.1),
            self.kind == BuildingKind::GangHideout ==> hideout_ok(res.0, res.1),
            self.kind == BuildingKind::BossHq ==> boss_hq_ok(res.0, res.1),
    {
        let mut rng = seeded_rng(self.seed);
        self.generate_with_rng(&mut rng)
    }
}

impl BuildingGenerator {
    pub fn new(kind: BuildingKind, seed: u64) -> (g: Self)
        ensures
            g.kind == kind,
            g.seed == seed,
    {
        Self { kind, seed }
    }

    fn generate_with_rng(&self, rng: &mut StdRng) -> (res: (TileMap, SpawnInfo))
        ensures
            self.kind == BuildingKind::Generic ==> generic_ok(res.0, res.1),
            self.kind == BuildingKind::GangHideout ==> hideout_ok(res.0, res.1),
            self.kind == BuildingKind::BossHq ==> boss_hq_ok(res.0, res.1),
    {
        match self.kind {
            BuildingKind::Generic => self.gen_generic(rng),
            BuildingKind::GangHideout => self.gen_gang_hideout(rng),
            BuildingKind::BossHq => self.gen_boss_hq(rng),
        }
    }

    /// One room, 1–3 enemies.
    fn gen_generic(&self, rng: &mut StdRng) -> (res: (TileMap, SpawnInfo))
        ensures
            generic_ok(res.0, res.1),
    {
        let w: i32 = 12;
        let h: i32 = 10;
        let mut map = TileMap::new(w, h, TileType::Wall);
        let ghost m0 = map;
        map.fill_rect(1, 1, w - 2, h - 2, TileType::Floor);
        let ghost m1 = map;
        let exit_x: i32 = w / 2;
        let exit_y: i32 = h - 1;
        assert(exit_x == 6 && exit_y == 9);
        map.set(exit_x, exit_y, TileType::Exit);
        let ghost m2 = map;
        map.exit_pos = Some((exit_x, exit_y));
        assert forall|a: int, b: int| 0 <= a < 12 && 0 <= b < 10 implies #[trigger] map.spec_tile_at(a, b)
            == generic_layout(a, b) by {
            assert(map.spec_tile_at(a, b) == m2.spec_tile_at(a, b));
            assert(m2.spec_tile_at(a, b) == if a == 6 && b == 9 { TileType::Exit } else { m1.spec_tile_at(a, b) });
            assert(m0.spec_tile_at(a, b) == TileType::Wall);
            assert(m1.spec_tile_at(a, b) == if in_rect(a, b, 1, 1, 10, 8) { TileType::Floor } else { TileType::Wall });
        }

        let mut info = SpawnInfo::new((w / 2, 1));
        let enemy_count: usize = range_usize(rng, 1, 4);
        let mut i: usize = 0;
        while i < enemy_count
            invariant
                w == 12 && h == 10,
                is_generic_map(map),
                map.exit_pos == Some((6i32, 9i32)),
                1 <= enemy_count <= 3,
                i <= enemy_count,
                info.enemy_positions@.len() == i,
                all_within(info.enemy_positions@, 2, 2, 10, 8),
                info.player_start == (6i32, 1i32),
                info.liberator_start.is_none(),
                info.guard_positions@.len() == 0,
                info.elite_positions@.len() == 0,
                info.boss_position.is_none(),
                info.civilian_positions@.len() == 0,
            decreases enemy_count - i,
        {
            let ex: i32 = range_i32(rng, 2, w - 2);
            let ey: i32 = range_i32(rng, 2, h - 2);
            info.enemy_positions.push((ex, ey));
            i = i + 1;
        }
        (map, info)
    }

    /// Two rooms, 3–5 enemies anywhere on the floor of the interior, one elite.
    fn gen_gang_hideout(&self, rng: &mut StdRng) -> (res: (TileMap, SpawnInfo))
        ensures
            hideout_ok(res.0, res.1),
    {
        let w: i32 = 14;
        let h: i32 = 12;
        let mut map = TileMap::new(w, h, TileType::Wall);
        let ghost m0 = map;
        map.fill_rect(1, 1, 6, 5, TileType::Floor);
        let ghost m1 = map;
        map.fill_rect(7, 1, w - 2, h - 2, TileType::Floor);
        let ghost m2 = map;
        map.set(7, 3, TileType::Door);
        let ghost m3 = map;
        let exit_x: i32 = 3;
        let exit_y: i32 = h - 1;
        map.set(exit_x, exit_y, TileType::Exit);
        let ghost m4 = map;
        map.exit_pos = Some((exit_x, exit_y));
        assert forall|a: int, b: int| 0 <= a < 14 && 0 <= b < 12 implies #[trigger] map.spec_tile_at(a, b)
            == hideout_layout(a, b) by {
            assert(m0.spec_tile_at(a, b) == TileType::Wall);
            assert(m1.spec_tile_at(a, b) == if in_rect(a, b, 1, 1, 6, 5) { TileType::Floor } else { TileType::Wall });
            assert(m2.spec_tile_at(a, b) == if in_rect(a, b, 1, 1, 6, 5) || in_rect(a, b, 7, 1, 12, 10) { TileType::Floor } else { TileType::Wall });
            assert(m3.spec_tile_at(a, b) == if a == 7 && b == 3 { TileType::Door } else { m2.spec_tile_at(a, b) });
            assert(m4.spec_tile_at(a, b) == if a == 3 && b == 11 { TileType::Exit } else { m3.spec_tile_at(a, b) });
            assert(map.spec_tile_at(a, b) == m4.spec_tile_at(a, b));
        }

        let mut info = SpawnInfo::new((3, 1));
        // Three to five enemies, each drawn evenly among the walkable tiles of
        // the interior (the thirty of the left room, then the sixty of the
        // right one), as drawing over the interior and drawing again on a wall
        // would place them.
        let enemy_count: usize = range_usize(rng, 3, 6);
        let mut i: usize = 0;
        while i < enemy_count
            invariant
                w == 14 && h == 12,
                is_hideout_map(map),
                map.exit_pos == Some((3i32, 11i32)),
                3 <= enemy_count <= 5,
                i <= enemy_count,
                info.enemy_positions@.len() == i,
                all_within(info.enemy_positions@, 1, 1, 13, 11),
                all_walkable(map, info.enemy_positions@),
                info.player_start == (3i32, 1i32),
                info.liberator_start.is_none(),
                info.guard_positions@.len() == 0,
                info.elite_positions@.len() == 0,
                info.boss_position.is_none(),
                info.civilian_positions@.len() == 0,
            decreases enemy_count - i,
        {
            let idx: usize = range_usize(rng, 0, 90);
            let (ex, ey): (i32, i32) = if idx < 30 {
                (1 + (idx % 6) as i32, 1 + (idx / 6) as i32)
            } else {
                (7 + ((idx - 30) % 6) as i32, 1 + ((idx - 30) / 6) as i32)
            };
            assert(map.spec_tile_at(ex as int, ey as int) == hideout_layout(ex as int, ey as int));
            info.enemy_positions.push((ex, ey));
            i = i + 1;
        }
        info.elite_positions.push((10, 3));
        assert(info.elite_positions@ == seq![(10i32, 3i32)]);
        (map, info)
    }

    /// Boss headquarters: one large hall, the boss, 2–4 adds.
    fn gen_boss_hq(&self, rng: &mut StdRng) -> (res: (TileMap, SpawnInfo))
        ensures
            boss_hq_ok(res.0, res.1),
    {
        let w: i32 = 18;
        let h: i32 = 14;
        let mut map = TileMap::new(w, h, TileType::Wall);
        let ghost m0 = map;
        map.fill_rect(1, 1, w - 2, h - 2, TileType::Floor);
        let ghost m1 = map;
        let exit_x: i32 = w / 2;
        let exit_y: i32 = h - 1;
        assert(exit_x == 9 && exit_y == 13);
        map.set(exit_x, exit_y, TileType::Exit);
        let ghost m2 = map;
        map.exit_pos = Some((exit_x, exit_y));
        assert forall|a: int, b: int| 0 <= a < 18 && 0 <= b < 14 implies #[trigger] map.spec_tile_at(a, b)
            == boss_hq_layout(a, b) by {
            assert(map.spec_tile_at(a, b) == m2.spec_tile_at(a, b));
            assert(m2.spec_tile_at(a, b) == if a == 9 && b == 13 { TileType::Exit } else { m1.spec_tile_at(a, b) });
            assert(m0.spec_tile_at(a, b) == TileType::Wall);
            assert(m1.spec_tile_at(a, b) == if in_rect(a, b, 1, 1, 16, 12) { TileType::Floor } else { TileType::Wall });
        }

        let mut info = SpawnInfo::new((w / 2, 1));
        info.boss_position = Some((w / 2, 4));
        let add_count: usize = range_usize(rng, 2, 5);
        let mut i: usize = 0;
        while i < add_count
            invariant
                w == 18 && h == 14,
                is_boss_hq_map(map),
                map.exit_pos == Some((9i32, 13i32)),
                2 <= add_count <= 4,
                i <= add_count,
                info.enemy_positions@.len() == i,
                all_within(info.enemy_positions@, 2, 5, 16, 12),
                info.player_start == (9i32, 1i32),
                info.boss_position == Some((9i32, 4i32)),
                info.liberator_start.is_none(),
                info.guard_positions@.len() == 0,
                info.elite_positions@.len() == 0,
                info.civilian_positions@.len() == 0,
            decreases add_count - i,
        {
            let ex: i32 = range_i32(rng, 2, w - 2);
            let ey: i32 = range_i32(rng, 5, h - 2);
            info.enemy_positions.push((ex, ey));
            i = i + 1;
        }
        (map, info)
    }
}

/// A generic building: its layout, exit, player start at the top, and one to
/// three enemies on the floor away from the walls.
pub open spec fn generic_ok(map: TileMap, info: SpawnInfo) -> bool {
    &&& is_generic_map(map)
    &&& map.exit_pos == Some((6i32, 9i32))
    &&& info.player_start == (6i32, 1i32)
    &&& 1 <= info.enemy_positions@.len() <= 3
    &&& all_within(info.enemy_positions@, 2, 2, 10, 8)
    &&& info.liberator_start.is_none()
    &&& info.guard_positions@.len() == 0
    &&& info.elite_positions@.len() == 0
    &&& info.boss_position.is_none()
    &&& info.civilian_positions@.len() == 0
}

/// A gang hideout: its layout, exit, player start, three to five enemies on
/// walkable tiles of its interior, and the elite in the right-hand room.
pub open spec fn hideout_ok(map: TileMap, info: SpawnInfo) -> bool {
    &&& is_hideout_map(map)
    &&& map.exit_pos == Some((3i32, 11i32))
    &&& info.player_start == (3i32, 1i32)
    &&& 3 <= info.enemy_positions@.len() <= 5
    &&& all_within(info.enemy_positions@, 1, 1, 13, 11)
    &&& all_walkable(map, info.enemy_positions@)
    &&& info.elite_positions@ == seq![(10i32, 3i32)]
    &&& info.liberator_start.is_none()
    &&& info.guard_positions@.len() == 0
    &&& info.boss_position.is_none()
    &&& info.civilian_positions@.len() == 0
}

/// A boss headquarters: its layout, exit, player start, the boss, and two to
/// four adds in the lower part of the hall.
pub open spec fn boss_hq_ok(map: TileMap, info: SpawnInfo) -> bool {
    &&& is_boss_hq_map(map)
    &&& map.exit_pos == Some((9i32, 13i32))
    &&& info.player_start == (9i32, 1i32)
    &&& info.boss_position == Some((9i32, 4i32))
    &&& 2 <= info.enemy_positions@.len() <= 4
    &&& all_within(info.enemy_positions@, 2, 5, 16, 12)
    &&& info.liberator_start.is_none()
    &&& info.guard_positions@.len() == 0
    &&& info.elite_positions@.len() == 0
    &&& info.civilian_positions@.len() == 0
}

/// Two interiors of the same kind have the same tiles: the layout depends
/// on the kind alone, not on the seed nor on the generator passed in.
pub proof fn law_layout_depends_on_kind_only(
    kind: BuildingKind,
    m1: TileMap,
    i1: SpawnInfo,
    m2: TileMap,
    i2: SpawnInfo,
)
    requires
        kind == BuildingKind::Generic ==> generic_ok(m1, i1) && generic_ok(m2, i2),
        kind == BuildingKind::GangHideout ==> hideout_ok(m1, i1) && hideout_ok(m2, i2),
        kind == BuildingKind::BossHq ==> boss_hq_ok(m1, i1) && boss_hq_ok(m2, i2),
    ensures
        m1.width == m2.width,
        m1.height == m2.height,
        m1.exit_pos == m2.exit_pos,
        forall|a: int, b: int| #[trigger] m1.spec_tile_at(a, b) == m2.spec_tile_at(a, b),
{
    assert forall|a: int, b: int| #[trigger] m1.spec_tile_at(a, b) == m2.spec_tile_at(a, b) by {
        if m1.spec_in_bounds(a, b) {
            assert(m1.spec_tile_at(a, b) == m2.spec_tile_at(a, b));
        }
    }
}

/// Every building interior can be left: it has an exit position, on the
/// bottom wall of its map, and the tile there is an exit; the player starts
/// on a tile that can be walked on.
pub proof fn law_building_exit_is_an_exit(kind: BuildingKind, map: TileMap, info: SpawnInfo)
    requires
        kind == BuildingKind::Generic ==> generic_ok(map, info),
        kind == BuildingKind::GangHideout ==> hideout_ok(map, info),
        kind == BuildingKind::BossHq ==> boss_hq_ok(map, info),
    ensures
        map.exit_pos is Some,
        ({
            let e = map.exit_pos.unwrap();
            &&& 0 <= e.0 < map.width
            &&& e.1 == map.height - 1
            &&& map.spec_tile_at(e.0 as int, e.1 as int) == TileType::Exit
        }),
        map.spec_is_walkable(info.player_start.0 as int, info.player_start.1 as int),
{
    let e = map.exit_pos.unwrap();
    assert(map.spec_tile_at(e.0 as int, e.1 as int) == map.spec_tile_at(e.0 as int, e.1 as int));
    assert(map.spec_tile_at(info.player_start.0 as int, info.player_start.1 as int) == map.spec_tile_at(
        info.player_start.0 as int,
        info.player_start.1 as int,
    ));
}

} // verus!
