//! The compact jail of the single-district game: two cells stacked on the
//! left, a one-tile corridor down and along the bottom to the guard room and
//! the exit.

use rand::rngs::StdRng;
use vstd::prelude::*;

use super::generator::{all_walkable, range_i32, range_usize, LevelGenerator, SpawnInfo};
use crate::world::map::{in_rect, TileMap};
use crate::world::tile::{spec_walkable, TileType};

verus! {

pub struct JailGenerator;

/// The fixed part of the compact jail (30 × 20).
pub open spec fn small_jail_layout(a: int, b: int) -> TileType {
    if a == 28 && b == 18 {
        TileType::Exit
    } else if a == 3 && b == 5 {
        TileType::Door
    } else if in_rect(a, b, 1, 1, 5, 4) || in_rect(a, b, 1, 6, 5, 9) || in_rect(a, b, 3, 10, 3, 18)
        || in_rect(a, b, 3, 18, 27, 18) || in_rect(a, b, 22, 14, 28, 18) {
        TileType::Floor
    } else {
        TileType::Wall
    }
}

/// The band in which extra random corridors may be dug.
pub open spec fn small_jail_extra_band(a: int, b: int) -> bool {
    5 <= a < 25 && 5 <= b < 17
}

/// A compact jail map: 30 × 20, every tile as in the fixed layout except tiles
/// of the band, which may have been dug to floor.
pub open spec fn is_small_jail_map(map: TileMap) -> bool {
    &&& map.wf()
    &&& map.width == 30
    &&& map.height == 20
    &&& forall|a: int, b: int|
        0 <= a < 30 && 0 <= b < 20 ==> #[trigger] map.spec_tile_at(a, b) == small_jail_layout(a, b) || (
        small_jail_extra_band(a, b) && map.spec_tile_at(a, b) == TileType::Floor)
}

/// A corridor the compact jail can draw: its column in `[5, 25)`, its first
/// row in `[5, 10)` and its end row (excluded) in `[10, 18)`.
pub open spec fn small_jail_corridor_drawn(c: (i32, i32, i32)) -> bool {
    &&& 5 <= c.0 < 25
    &&& 5 <= c.1 < 10
    &&& 10 <= c.2 < 18
}

/// Up to two corridors the compact jail can draw.
pub open spec fn small_jail_corridors_drawn(cs: Seq<(i32, i32, i32)>) -> bool {
    &&& cs.len() < 3
    &&& forall|i: int| 0 <= i < cs.len() ==> small_jail_corridor_drawn(#[trigger] cs[i])
}

/// The compact jail's tiles once the corridors `cs` are dug, one after another.
pub open spec fn small_jail_tiles(cs: Seq<(i32, i32, i32)>, a: int, b: int) -> TileType
    decreases cs.len(), 1int, 0int,
{
    if cs.len() == 0 {
        small_jail_layout(a, b)
    } else if a == cs.last().0 && small_jail_dug(cs, b) {
        TileType::Floor
    } else {
        small_jail_tiles(cs.drop_last(), a, b)
    }
}

/// Whether row `y` of the last corridor of `cs` is dug: it lies in the
/// corridor's rows and, when it is reached, the tile above it (dug just
/// before, or there already) or the one below it can be walked on.
pub open spec fn small_jail_dug(cs: Seq<(i32, i32, i32)>, y: int) -> bool
    decreases cs.len(), 0int, if cs.len() > 0 && y >= cs.last().1 { y - cs.last().1 } else { 0 },
{
    if cs.len() == 0 {
        false
    } else {
        let c = cs.last();
        let before = cs.drop_last();
        &&& c.1 <= y < c.2
        &&& {
            ||| (y - 1 >= c.1 && small_jail_dug(cs, y - 1))
            ||| spec_walkable(small_jail_tiles(before, c.0 as int, y - 1))
            ||| spec_walkable(small_jail_tiles(before, c.0 as int, y + 1))
        }
    }
}

/// The compact jail as drawn: the fixed layout with up to two drawn
/// corridors dug.
#[verifier::opaque]
pub open spec fn small_jail_drawn(map: TileMap) -> bool {
    exists|cs: Seq<(i32, i32, i32)>|
        #[trigger] small_jail_corridors_drawn(cs) && forall|a: int, b: int|
            0 <= a < 30 && 0 <= b < 20 ==> #[trigger] map.spec_tile_at(a, b) == small_jail_tiles(cs, a, b)
}

/// What every generated compact jail satisfies: the player in the top cell,
/// the Liberator in the one below, one to three guards in the guard room.
pub open spec fn small_jail_ok(map: TileMap, info: SpawnInfo) -> bool {
    &&& is_small_jail_map(map)
    &&& small_jail_drawn(map)
    &&& map.exit_pos == Some((28i32, 18i32))
    &&& info.player_start == (2i32, 2i32)
    &&& info.liberator_start == Some((2i32, 7i32))
    &&& map.spec_is_walkable(2, 2)
    &&& map.spec_is_walkable(2, 7)
    &&& 1 <= info.guard_positions@.len() <= 3
    &&& forall|i: int|
        0 <= i < info.guard_positions@.len() ==> #[trigger] info.guard_positions@[i].0 == 25 + i % 2
            && info.guard_positions@[i].1 == 16 + i / 2
    &&& all_walkable(map, info.guard_positions@)
    &&& info.enemy_positions@.len() == 0
    &&& info.elite_positions@.len() == 0
    &&& info.civilian_positions@.len() == 0
    &&& info.boss_position.is_none()
    &&& info.faction_bosses@.len() == 0
    &&& info.job_targets@.len() == 0
    &&& info.general_position.is_none()
    &&& info.tank_position.is_none()
}

impl LevelGenerator for JailGenerator {
    fn generate(&self, rng: &mut StdRng) -> (res: (TileMap, SpawnInfo))
        ensures
            small_jail_ok(res.0, res.1),
    {
        let w: i32 = 30;
        let h: i32 = 20;
        let mut map = TileMap::new(w, h, TileType::Wall);
        let ghost m0 = map;
        // Player cell, and the Liberator's cell below it.
        map.fill_rect(1, 1, 5, 4, TileType::Floor);
        let ghost m1 = map;
        map.fill_rect(1, 6, 5, 9, TileType::Floor);
        let ghost m2 = map;
        // Corridor down from the cells, then along the bottom to the exit.
        map.fill_rect(3, 10, 3, h - 2, TileType::Floor);
        let ghost m3 = map;
        map.fill_rect(3, h - 2, w - 3, h - 2, TileType::Floor);
        let ghost m4 = map;
        // Guard room near the exit.
        map.fill_rect(w - 8, h - 6, w - 2, h - 2, TileType::Floor);
        let ghost m5 = map;
        // Door out of the player's cell, opening out of the Liberator's.
        map.set(3, 5, TileType::Door);
        let ghost m6 = map;
        map.set(3, 9, TileType::Floor);
        let ghost m7 = map;
        let exit_x: i32 = w - 2;
        let exit_y: i32 = h - 2;
        map.set(exit_x, exit_y, TileType::Exit);
        let ghost m8 = map;
        map.exit_pos = Some((exit_x, exit_y));
        assert forall|a: int, b: int| 0 <= a < 30 && 0 <= b < 20 implies #[trigger] map.spec_tile_at(a, b)
            == small_jail_layout(a, b) by {
            assert(m0.spec_tile_at(a, b) == TileType::Wall);
            assert(m1.spec_tile_at(a, b) == if in_rect(a, b, 1, 1, 5, 4) { TileType::Floor } else { m0.spec_tile_at(a, b) });
            assert(m2.spec_tile_at(a, b) == if in_rect(a, b, 1, 6, 5, 9) { TileType::Floor } else { m1.spec_tile_at(a, b) });
            assert(m3.spec_tile_at(a, b) == if in_rect(a, b, 3, 10, 3, 18) { TileType::Floor } else { m2.spec_tile_at(a, b) });
            assert(m4.spec_tile_at(a, b) == if in_rect(a, b, 3, 18, 27, 18) { TileType::Floor } else { m3.spec_tile_at(a, b) });
            assert(m5.spec_tile_at(a, b) == if in_rect(a, b, 22, 14, 28, 18) { TileType::Floor } else { m4.spec_tile_at(a, b) });
            assert(m6.spec_tile_at(a, b) == if a == 3 && b == 5 { TileType::Door } else { m5.spec_tile_at(a, b) });
            assert(m7.spec_tile_at(a, b) == if a == 3 && b == 9 { TileType::Floor } else { m6.spec_tile_at(a, b) });
            assert(m8.spec_tile_at(a, b) == if a == 28 && b == 18 { TileType::Exit } else { m7.spec_tile_at(a, b) });
            assert(map.spec_tile_at(a, b) == m8.spec_tile_at(a, b));
        }

        // Up to two extra corridors dug next to walkable tiles.
        let extra: i32 = range_i32(rng, 0, 3);
        let mut k: i32 = 0;
        let ghost mut cs: Seq<(i32, i32, i32)> = Seq::empty();
        while k < extra
            invariant
                0 <= k <= extra < 3,
                is_small_jail_map(map),
                map.exit_pos == Some((28i32, 18i32)),
                cs.len() == k,
                forall|i: int| 0 <= i < cs.len() ==> small_jail_corridor_drawn(#[trigger] cs[i]),
                forall|a: int, b: int|
                    0 <= a < 30 && 0 <= b < 20 ==> #[trigger] map.spec_tile_at(a, b) == small_jail_tiles(cs, a, b),
            decreases extra - k,
        {
            let rx: i32 = range_i32(rng, 5, 25);
            let y_from: i32 = range_i32(rng, 5, 10);
            let y_to: i32 = range_i32(rng, 10, 18);
            let ghost before = cs;
            let ghost cs_new = cs.push((rx, y_from, y_to));
            proof {
                assert(cs_new.drop_last() =~= before);
                assert(cs_new.last() == (rx, y_from, y_to));
            }
            let mut y: i32 = y_from;
            while y < y_to
                invariant
                    5 <= rx < 25,
                    5 <= y_from <= y,
                    y <= y_to,
                    y_to < 18,
                    is_small_jail_map(map),
                    map.exit_pos == Some((28i32, 18i32)),
                    cs_new.drop_last() == before,
                    cs_new.last() == (rx, y_from, y_to),
                    cs_new.len() > 0,
                    forall|a: int, b: int|
                        0 <= a < 30 && 0 <= b < 20 ==> #[trigger] map.spec_tile_at(a, b) == if a == rx && y_from <= b
                            < y && small_jail_dug(cs_new, b) {
                            TileType::Floor
                        } else {
                            small_jail_tiles(before, a, b)
                        },
                decreases y_to - y,
            {
                let ghost m_before = map;
                let dig = map.is_walkable(rx, y - 1) || map.is_walkable(rx, y + 1);
                proof {
                    assert(m_before.spec_tile_at(rx as int, y - 1) == if y_from <= y - 1 && small_jail_dug(
                        cs_new,
                        y - 1,
                    ) {
                        TileType::Floor
                    } else {
                        small_jail_tiles(before, rx as int, y - 1)
                    });
                    assert(m_before.spec_tile_at(rx as int, y + 1) == small_jail_tiles(before, rx as int, y + 1));
                    assert(dig == small_jail_dug(cs_new, y as int));
                }
                if dig {
                    map.set(rx, y, TileType::Floor);
                }
                proof {
                    assert forall|a: int, b: int| 0 <= a < 30 && 0 <= b < 20 implies #[trigger] map.spec_tile_at(a, b)
                        == if a == rx && y_from <= b < y + 1 && small_jail_dug(cs_new, b) {
                        TileType::Floor
                    } else {
                        small_jail_tiles(before, a, b)
                    } by {
                        assert(m_before.spec_tile_at(a, b) == if a == rx && y_from <= b < y && small_jail_dug(
                            cs_new,
                            b,
                        ) {
                            TileType::Floor
                        } else {
                            small_jail_tiles(before, a, b)
                        });
                    }
                }
                y = y + 1;
            }
            proof {
                cs = cs_new;
                assert forall|i: int| 0 <= i < cs.len() implies small_jail_corridor_drawn(#[trigger] cs[i]) by {
                    if i < before.len() {
                        assert(cs[i] == before[i]);
                    }
                }
                assert forall|a: int, b: int| 0 <= a < 30 && 0 <= b < 20 implies #[trigger] map.spec_tile_at(a, b)
                    == small_jail_tiles(cs, a, b) by {
                    if a == rx && small_jail_dug(cs, b) {
                        assert(y_from <= b < y_to);
                    }
                }
            }
            k = k + 1;
        }
        assert(small_jail_drawn(map)) by {
            reveal(small_jail_drawn);
            assert(small_jail_corridors_drawn(cs));
        }

        let mut info = SpawnInfo::new((2, 2));
        info.liberator_start = Some((2, 7));

        // One to three guards in the guard room.
        let guard_count: usize = range_usize(rng, 1, 4);
        let mut i: usize = 0;
        while i < guard_count
            invariant
                w == 30 && h == 20,
                i <= guard_count <= 3,
                is_small_jail_map(map),
                map.exit_pos == Some((28i32, 18i32)),
                info.guard_positions@.len() == i,
                forall|j: int|
                    0 <= j < i ==> #[trigger] info.guard_positions@[j].0 == 25 + j % 2
                        && info.guard_positions@[j].1 == 16 + j / 2,
                all_walkable(map, info.guard_positions@),
                info.player_start == (2i32, 2i32),
                info.liberator_start == Some((2i32, 7i32)),
                info.enemy_positions@.len() == 0,
                info.elite_positions@.len() == 0,
                info.civilian_positions@.len() == 0,
                info.boss_position.is_none(),
                info.faction_bosses@.len() == 0,
                info.job_targets@.len() == 0,
                info.general_position.is_none(),
                info.tank_position.is_none(),
            decreases guard_count - i,
        {
            let gx: i32 = w - 5 + (i as i32) % 2;
            let gy: i32 = h - 4 + (i as i32) / 2;
            assert(map.spec_tile_at(gx as int, gy as int) == small_jail_layout(gx as int, gy as int));
            info.guard_positions.push((gx, gy));
            i = i + 1;
        }
        assert(map.spec_tile_at(2, 2) == small_jail_layout(2, 2) || map.spec_tile_at(2, 2) == TileType::Floor);
        assert(map.spec_tile_at(2, 7) == small_jail_layout(2, 7) || map.spec_tile_at(2, 7) == TileType::Floor);
        assert(small_jail_ok(map, info));
        (map, info)
    }
}

} // verus!
