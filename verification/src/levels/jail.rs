//! The jail: the player's cell, the Liberator's cell, the escape corridors and
//! the guard room by the exit.

use rand::rngs::StdRng;
use vstd::prelude::*;

use super::generator::{all_walkable, range_i32, range_usize, LevelGenerator, SpawnInfo};
use crate::world::map::{in_rect, TileMap};
use crate::world::tile::{spec_walkable, TileType};

verus! {

pub struct JailGenerator;

/// The fixed part of the jail layout (60 × 40): two cells, the corridors to the
/// exit, the guard room, a four-tile door out of the player's cell and the exit.
pub open spec fn jail_layout(a: int, b: int) -> TileType {
    if a == 58 && b == 36 {
        TileType::Exit
    } else if 6 <= a <= 9 && b == 10 {
        TileType::Door
    } else if in_rect(a, b, 2, 2, 10, 9) || in_rect(a, b, 2, 11, 10, 18) || in_rect(a, b, 6, 19, 9, 38)
        || in_rect(a, b, 6, 34, 57, 37) || in_rect(a, b, 44, 28, 58, 38) {
        TileType::Floor
    } else {
        TileType::Wall
    }
}

/// The band in which extra random corridors may be dug.
pub open spec fn jail_extra_band(a: int, b: int) -> bool {
    10 <= a < 50 && 10 <= b < 38
}

/// A jail map: 60 × 40, every tile as in the fixed layout except tiles of the
/// band, which may have been dug to floor.
pub open spec fn is_jail_map(map: TileMap) -> bool {
    &&& map.wf()
    &&& map.width == 60
    &&& map.height == 40
    &&& forall|a: int, b: int|
        0 <= a < 60 && 0 <= b < 40 ==> #[trigger] map.spec_tile_at(a, b) == jail_layout(a, b) || (
        jail_extra_band(a, b) && map.spec_tile_at(a, b) == TileType::Floor)
}

/// A corridor the jail can draw: its column in `[10, 50)`, its first row in
/// `[10, 20)` and its end row (excluded) in `[20, 38)`.
pub open spec fn jail_corridor_drawn(c: (i32, i32, i32)) -> bool {
    &&& 10 <= c.0 < 50
    &&& 10 <= c.1 < 20
    &&& 20 <= c.2 < 38
}

/// Up to two corridors the jail can draw.
pub open spec fn jail_corridors_drawn(cs: Seq<(i32, i32, i32)>) -> bool {
    &&& cs.len() < 3
    &&& forall|i: int| 0 <= i < cs.len() ==> jail_corridor_drawn(#[trigger] cs[i])
}

/// The jail tiles once the corridors `cs` are dug, one after another.
pub open spec fn jail_tiles(cs: Seq<(i32, i32, i32)>, a: int, b: int) -> TileType
    decreases cs.len(), 1int, 0int,
{
    if cs.len() == 0 {
        jail_layout(a, b)
    } else if a == cs.last().0 && jail_dug(cs, b) {
        TileType::Floor
    } else {
        jail_tiles(cs.drop_last(), a, b)
    }
}

/// Whether row `y` of the last corridor of `cs` is dug: it lies in the
/// corridor's rows and, when it is reached, the tile above it (dug just
/// before, or there already) or the one below it can be walked on.
pub open spec fn jail_dug(cs: Seq<(i32, i32, i32)>, y: int) -> bool
    decreases cs.len(), 0int, if cs.len() > 0 && y >= cs.last().1 { y - cs.last().1 } else { 0 },
{
    if cs.len() == 0 {
        false
    } else {
        let c = cs.last();
        let before = cs.drop_last();
        &&& c.1 <= y < c.2
        &&& {
            ||| (y - 1 >= c.1 && jail_dug(cs, y - 1))
            ||| spec_walkable(jail_tiles(before, c.0 as int, y - 1))
            ||| spec_walkable(jail_tiles(before, c.0 as int, y + 1))
        }
    }
}

/// The jail as drawn: the fixed layout with up to two drawn corridors dug.
#[verifier::opaque]
pub open spec fn jail_drawn(map: TileMap) -> bool {
    exists|cs: Seq<(i32, i32, i32)>|
        #[trigger] jail_corridors_drawn(cs) && forall|a: int, b: int|
            0 <= a < 60 && 0 <= b < 40 ==> #[trigger] map.spec_tile_at(a, b) == jail_tiles(cs, a, b)
}

/// What every generated jail satisfies.
pub open spec fn jail_ok(map: TileMap, info: SpawnInfo) -> bool {
    &&& is_jail_map(map)
    &&& jail_drawn(map)
    &&& map.exit_pos == Some((58i32, 36i32))
    &&& info.player_start == (4i32, 4i32)
    &&& info.liberator_start == Some((4i32, 14i32))
    &&& map.spec_is_walkable(4, 4)
    &&& map.spec_is_walkable(4, 14)
    &&& 5 <= info.guard_positions@.len() <= 9
    &&& all_walkable(map, info.guard_positions@)
    &&& info.enemy_positions@.len() == 0
    &&& info.elite_positions@.len() == 0
    &&& info.civilian_positions@.len() == 0
    &&& info.boss_position.is_none()
    &&& info.faction_bosses@.len() == 0
    &&& info.job_targets@.len() == 0
    &&& info.general_position.is_none()
    &&& info.tank_position.is_none()
}

impl LevelGenerator for JailGenerator {
    fn generate(&self, rng: &mut StdRng) -> (res: (TileMap, SpawnInfo))
        ensures
            jail_ok(res.0, res.1),
    {
        let w: i32 = 60;
        let h: i32 = 40;
        let mut map = TileMap::new(w, h, TileType::Wall);
        let ghost m0 = map;
        // Player cell and Liberator cell.
        map.fill_rect(2, 2, 10, 9, TileType::Floor);
        let ghost m1 = map;
        map.fill_rect(2, 11, 10, 18, TileType::Floor);
        let ghost m2 = map;
        // Corridor from the cells towards the exit (4 tiles wide).
        map.fill_rect(6, 20, 9, h - 2, TileType::Floor);
        let ghost m3 = map;
        // Horizontal corridor to the exit area (4 tiles wide).
        map.fill_rect(6, h - 6, w - 3, h - 3, TileType::Floor);
        let ghost m4 = map;
        // Guard room near the exit.
        map.fill_rect(w - 16, h - 12, w - 2, h - 2, TileType::Floor);
        let ghost m5 = map;
        // Door between the player cell and the corridor (4 tiles wide).
        map.fill_rect(6, 10, 9, 10, TileType::Door);
        let ghost m6 = map;
        // Opening from the Liberator's cell into the corridor.
        map.fill_rect(6, 19, 9, 19, TileType::Floor);
        let ghost m7 = map;
        let exit_x: i32 = w - 2;
        let exit_y: i32 = h - 4;
        map.set(exit_x, exit_y, TileType::Exit);
        let ghost m8 = map;
        map.exit_pos = Some((exit_x, exit_y));
        assert forall|a: int, b: int| 0 <= a < 60 && 0 <= b < 40 implies #[trigger] map.spec_tile_at(a, b)
            == jail_layout(a, b) by {
            assert(m0.spec_tile_at(a, b) == TileType::Wall);
            assert(m1.spec_tile_at(a, b) == if in_rect(a, b, 2, 2, 10, 9) { TileType::Floor } else { m0.spec_tile_at(a, b) });
            assert(m2.spec_tile_at(a, b) == if in_rect(a, b, 2, 11, 10, 18) { TileType::Floor } else { m1.spec_tile_at(a, b) });
            assert(m3.spec_tile_at(a, b) == if in_rect(a, b, 6, 20, 9, 38) { TileType::Floor } else { m2.spec_tile_at(a, b) });
            assert(m4.spec_tile_at(a, b) == if in_rect(a, b, 6, 34, 57, 37) { TileType::Floor } else { m3.spec_tile_at(a, b) });
            assert(m5.spec_tile_at(a, b) == if in_rect(a, b, 44, 28, 58, 38) { TileType::Floor } else { m4.spec_tile_at(a, b) });
            assert(m6.spec_tile_at(a, b) == if in_rect(a, b, 6, 10, 9, 10) { TileType::Door } else { m5.spec_tile_at(a, b) });
            assert(m7.spec_tile_at(a, b) == if in_rect(a, b, 6, 19, 9, 19) { TileType::Floor } else { m6.spec_tile_at(a, b) });
            assert(m8.spec_tile_at(a, b) == if a == 58 && b == 36 { TileType::Exit } else { m7.spec_tile_at(a, b) });
            assert(map.spec_tile_at(a, b) == m8.spec_tile_at(a, b));
        }

        // A few extra corridors dug next to walkable tiles.
        let extra: i32 = range_i32(rng, 0, 3);
        let mut k: i32 = 0;
        let ghost mut cs: Seq<(i32, i32, i32)> = Seq::empty();
        while k < extra
            invariant
                0 <= k <= extra < 3,
                is_jail_map(map),
                map.exit_pos == Some((58i32, 36i32)),
                cs.len() == k,
                forall|i: int| 0 <= i < cs.len() ==> jail_corridor_drawn(#[trigger] cs[i]),
                forall|a: int, b: int|
                    0 <= a < 60 && 0 <= b < 40 ==> #[trigger] map.spec_tile_at(a, b) == jail_tiles(cs, a, b),
            decreases extra - k,
        {
            let rx: i32 = range_i32(rng, 10, 50);
            let y_from: i32 = range_i32(rng, 10, 20);
            let y_to: i32 = range_i32(rng, 20, 38);
            let ghost before = cs;
            let ghost cs_new = cs.push((rx, y_from, y_to));
            proof {
                assert(cs_new.drop_last() =~= before);
                assert(cs_new.last() == (rx, y_from, y_to));
            }
            let mut y: i32 = y_from;
            while y < y_to
                invariant
                    10 <= rx < 50,
                    10 <= y_from <= y,
                    y <= y_to,
                    y_to < 38,
                    is_jail_map(map),
                    map.exit_pos == Some((58i32, 36i32)),
                    cs_new.drop_last() == before,
                    cs_new.last() == (rx, y_from, y_to),
                    cs_new.len() > 0,
                    forall|a: int, b: int|
                        0 <= a < 60 && 0 <= b < 40 ==> #[trigger] map.spec_tile_at(a, b) == if a == rx && y_from <= b
                            < y && jail_dug(cs_new, b) {
                            TileType::Floor
                        } else {
                            jail_tiles(before, a, b)
                        },
                decreases y_to - y,
            {
                let ghost m_before = map;
                let dig = map.is_walkable(rx, y - 1) || map.is_walkable(rx, y + 1);
                proof {
                    assert(m_before.spec_tile_at(rx as int, y - 1) == if y_from <= y - 1 && jail_dug(cs_new, y - 1) {
                        TileType::Floor
                    } else {
                        jail_tiles(before, rx as int, y - 1)
                    });
                    assert(m_before.spec_tile_at(rx as int, y + 1) == jail_tiles(before, rx as int, y + 1));
                    assert(dig == jail_dug(cs_new, y as int));
                }
                if dig {
                    map.set(rx, y, TileType::Floor);
                }
                proof {
                    assert forall|a: int, b: int| 0 <= a < 60 && 0 <= b < 40 implies #[trigger] map.spec_tile_at(a, b)
                        == if a == rx && y_from <= b < y + 1 && jail_dug(cs_new, b) {
                        TileType::Floor
                    } else {
                        jail_tiles(before, a, b)
                    } by {
                        assert(m_before.spec_tile_at(a, b) == if a == rx && y_from <= b < y && jail_dug(cs_new, b) {
                            TileType::Floor
                        } else {
                            jail_tiles(before, a, b)
                        });
                    }
                }
                y = y + 1;
            }
            proof {
                cs = cs_new;
                assert forall|i: int| 0 <= i < cs.len() implies jail_corridor_drawn(#[trigger] cs[i]) by {
                    if i < before.len() {
                        assert(cs[i] == before[i]);
                    }
                }
                assert forall|a: int, b: int| 0 <= a < 60 && 0 <= b < 40 implies #[trigger] map.spec_tile_at(a, b)
                    == jail_tiles(cs, a, b) by {
                    if a == rx && jail_dug(cs, b) {
                        assert(y_from <= b < y_to);
                    }
                }
            }
            k = k + 1;
        }
        assert(jail_drawn(map)) by {
            reveal(jail_drawn);
            assert(jail_corridors_drawn(cs));
        }

        let mut info = SpawnInfo::new((4, 4));
        info.liberator_start = Some((4, 14));

        // Guard room: 3–5 guards near the exit.
        let guard_count: usize = range_usize(rng, 3, 6);
        let mut i: usize = 0;
        while i < guard_count
            invariant
                w == 60 && h == 40,
                i <= guard_count <= 5,
                is_jail_map(map),
                info.guard_positions@.len() == i,
                all_walkable(map, info.guard_positions@),
                info.player_start == (4i32, 4i32),
                info.liberator_start == Some((4i32, 14i32)),
                info.enemy_positions@.len() == 0,
                info.elite_positions@.len() == 0,
                info.civilian_positions@.len() == 0,
                info.boss_position.is_none(),
                info.faction_bosses@.len() == 0,
                info.job_targets@.len() == 0,
                info.general_position.is_none(),
                info.tank_position.is_none(),
            decreases guard_count - i,
        {
            let gx: i32 = w - 10 + (i as i32) % 3;
            let gy: i32 = h - 8 + (i as i32) / 3;
            assert(map.spec_tile_at(gx as int, gy as int) == jail_layout(gx as int, gy as int)
                || map.spec_tile_at(gx as int, gy as int) == TileType::Floor);
            info.guard_positions.push((gx, gy));
            i = i + 1;
        }

        // Corridor patrol guards: 2–4 guards along the escape route.
        let patrol_count: usize = range_usize(rng, 2, 5);
        let mut j: usize = 0;
        while j < patrol_count
            invariant
                j <= patrol_count <= 4,
                3 <= guard_count <= 5,
                is_jail_map(map),
                info.guard_positions@.len() == guard_count + j,
                all_walkable(map, info.guard_positions@),
                info.player_start == (4i32, 4i32),
                info.liberator_start == Some((4i32, 14i32)),
                info.enemy_positions@.len() == 0,
                info.elite_positions@.len() == 0,
                info.civilian_positions@.len() == 0,
                info.boss_position.is_none(),
                info.faction_bosses@.len() == 0,
                info.job_targets@.len() == 0,
                info.general_position.is_none(),
                info.tank_position.is_none(),
            decreases patrol_count - j,
        {
            let step: i32 = (j as i32) * 4;
            let gy: i32 = 22 + if step < 14 { step } else { 14 };
            assert(map.spec_tile_at(7, gy as int) == jail_layout(7, gy as int)
                || map.spec_tile_at(7, gy as int) == TileType::Floor);
            info.guard_positions.push((7, gy));
            j = j + 1;
        }
        assert(map.spec_tile_at(4, 4) == jail_layout(4, 4) || map.spec_tile_at(4, 4) == TileType::Floor);
        assert(map.spec_tile_at(4, 14) == jail_layout(4, 14) || map.spec_tile_at(4, 14) == TileType::Floor);
        (map, info)
    }
}

} // verus!
