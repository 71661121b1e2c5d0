//! Syndicate zone: Don Varro's crime territory, dense streets with randomly
//! placed gang hideouts and Varro's headquarters at the north end.

use rand::rngs::StdRng;
use vstd::prelude::*;

use super::generator::{
    all_walkable, carve_walled_room, inner_draws, push_walkable_samples, range_i32, range_usize, sampled_from,
    walkable_filter, walled_tile, LevelGenerator, SpawnInfo,
};
use crate::faction::FactionId;
use crate::world::map::{in_rect, TileMap};
use crate::world::tile::TileType;

verus! {

pub struct SyndicateGenerator {
    pub seed: u64,
}

/// The syndicate's streets: three across and three down, four tiles wide.
pub open spec fn syndicate_street(a: int, b: int) -> bool {
    ||| in_rect(a, b, 0, 10, 119, 13)
    ||| in_rect(a, b, 0, 40, 119, 43)
    ||| in_rect(a, b, 0, 70, 119, 73)
    ||| in_rect(a, b, 10, 0, 13, 79)
    ||| in_rect(a, b, 60, 0, 63, 79)
    ||| in_rect(a, b, 110, 0, 113, 79)
}

/// The fixed part of the syndicate layout: streets, Varro's open headquarters
/// hall and the two entry tiles from the hub.
pub open spec fn syndicate_layout(a: int, b: int) -> TileType {
    if in_rect(a, b, 48, 2, 72, 10) || in_rect(a, b, 0, 42, 1, 42) || syndicate_street(a, b) {
        TileType::Floor
    } else {
        TileType::Wall
    }
}

/// The band in which the random walled buildings are placed.
pub open spec fn syndicate_building_band(a: int, b: int) -> bool {
    in_rect(a, b, 14, 14, 112, 61)
}

/// A syndicate map: 120 × 80, floor and walls only, and every tile outside the
/// building band as in the fixed layout.
pub open spec fn is_syndicate_map(map: TileMap) -> bool {
    &&& map.wf()
    &&& map.width == 120
    &&& map.height == 80
    &&& forall|a: int, b: int|
        0 <= a < 120 && 0 <= b < 80 ==> {
            &&& (#[trigger] map.spec_tile_at(a, b) == TileType::Floor || map.spec_tile_at(a, b) == TileType::Wall)
            &&& (!syndicate_building_band(a, b) ==> map.spec_tile_at(a, b) == syndicate_layout(a, b))
        }
}

/// The streets with the walled buildings `bs` (corner to corner) carved over
/// them, one after another.
pub open spec fn syndicate_with_buildings(bs: Seq<(int, int, int, int)>, a: int, b: int) -> TileType
    decreases bs.len(),
{
    if bs.len() == 0 {
        if syndicate_street(a, b) {
            TileType::Floor
        } else {
            TileType::Wall
        }
    } else {
        let r = bs.last();
        walled_tile(a, b, r.0, r.1, r.2, r.3, syndicate_with_buildings(bs.drop_last(), a, b))
    }
}

/// A building the syndicate can draw: its corner in `[14, 100) × [14, 50)`,
/// seven to thirteen tiles wider and six to eleven taller than that corner.
pub open spec fn syndicate_building_drawn(r: (int, int, int, int)) -> bool {
    &&& 14 <= r.0 < 100
    &&& 14 <= r.1 < 50
    &&& r.0 + 7 <= r.2 <= r.0 + 13
    &&& r.1 + 6 <= r.3 <= r.1 + 11
}

/// Five to nine buildings the syndicate can draw.
pub open spec fn syndicate_buildings_drawn(bs: Seq<(int, int, int, int)>) -> bool {
    &&& 5 <= bs.len() < 10
    &&& forall|i: int| 0 <= i < bs.len() ==> syndicate_building_drawn(#[trigger] bs[i])
}

/// The syndicate map is the streets with five to nine drawn buildings carved
/// over them, then Varro's hall and the entry tiles.
#[verifier::opaque]
pub open spec fn syndicate_drawn(map: TileMap) -> bool {
    exists|bs: Seq<(int, int, int, int)>|
        {
            &&& #[trigger] syndicate_buildings_drawn(bs)
            &&& forall|a: int, b: int|
                0 <= a < 120 && 0 <= b < 80 ==> #[trigger] map.spec_tile_at(a, b) == if in_rect(a, b, 48, 2, 72, 10)
                    || in_rect(a, b, 0, 42, 1, 42) {
                    TileType::Floor
                } else {
                    syndicate_with_buildings(bs, a, b)
                }
        }
}

/// The syndicate's street lamps, at the crossings of the streets.
pub open spec fn syndicate_streetlights() -> Seq<(i32, i32)> {
    seq![(10i32, 10i32), (10, 40), (10, 70), (60, 10), (60, 40), (60, 70), (110, 10), (110, 40), (110, 70)]
}

/// What every generated syndicate zone satisfies.
pub open spec fn syndicate_ok(map: TileMap, info: SpawnInfo) -> bool {
    &&& is_syndicate_map(map)
    &&& syndicate_drawn(map)
    &&& map.exit_pos.is_none()
    &&& info.player_start == (2i32, 42i32)
    &&& map.spec_is_walkable(2, 42)
    &&& info.faction_bosses@ == seq![(60i32, 5i32, FactionId::Syndicate)]
    &&& map.spec_is_walkable(60, 5)
    &&& info.job_targets@ == seq![(105i32, 42i32, FactionId::Syndicate)]
    &&& sampled_from(map, info.enemy_positions@, 60, 100)
    &&& info.enemy_positions@.len() < 100
    &&& all_walkable(map, info.enemy_positions@)
    &&& sampled_from(map, info.civilian_positions@, 20, 40)
    &&& info.civilian_positions@.len() < 40
    &&& all_walkable(map, info.civilian_positions@)
    &&& info.elite_positions@ == seq![(65i32, 45i32)]
    &&& info.streetlight_positions@ == syndicate_streetlights()
    &&& info.liberator_start.is_none()
    &&& info.guard_positions@.len() == 0
    &&& info.boss_position.is_none()
    &&& info.entrance_positions@.len() == 0
    &&& info.general_position.is_none()
    &&& info.tank_position.is_none()
}

/// Streets only, before any building: the invariant of the building loop.
spec fn streets_kept_outside_band(map: TileMap) -> bool {
    &&& map.wf()
    &&& map.width == 120
    &&& map.height == 80
    &&& map.exit_pos.is_none()
    &&& forall|a: int, b: int|
        0 <= a < 120 && 0 <= b < 80 ==> {
            &&& (#[trigger] map.spec_tile_at(a, b) == TileType::Floor || map.spec_tile_at(a, b) == TileType::Wall)
            &&& (!syndicate_building_band(a, b) ==> map.spec_tile_at(a, b) == if syndicate_street(a, b) {
                TileType::Floor
            } else {
                TileType::Wall
            })
        }
}

impl LevelGenerator for SyndicateGenerator {
    fn generate(&self, rng: &mut StdRng) -> (res: (TileMap, SpawnInfo))
        ensures
            syndicate_ok(res.0, res.1),
    {
        let w: i32 = 120;
        let h: i32 = 80;
        let mut map = TileMap::new(w, h, TileType::Wall);
        let ghost m0 = map;
        // Streets.
        map.fill_rect(0, 10, w - 1, 13, TileType::Floor);
        let ghost m1 = map;
        map.fill_rect(0, h / 2, w - 1, h / 2 + 3, TileType::Floor);
        let ghost m2 = map;
        map.fill_rect(0, h - 10, w - 1, h - 7, TileType::Floor);
        let ghost m3 = map;
        map.fill_rect(10, 0, 13, h - 1, TileType::Floor);
        let ghost m4 = map;
        map.fill_rect(w / 2, 0, w / 2 + 3, h - 1, TileType::Floor);
        let ghost m5 = map;
        map.fill_rect(w - 10, 0, w - 7, h - 1, TileType::Floor);
        assert forall|a: int, b: int| 0 <= a < 120 && 0 <= b < 80 implies #[trigger] map.spec_tile_at(a, b)
            == if syndicate_street(a, b) { TileType::Floor } else { TileType::Wall } by {
            assert(m0.spec_tile_at(a, b) == TileType::Wall);
            assert(m1.spec_tile_at(a, b) == if in_rect(a, b, 0, 10, 119, 13) { TileType::Floor } else { m0.spec_tile_at(a, b) });
            assert(m2.spec_tile_at(a, b) == if in_rect(a, b, 0, 40, 119, 43) { TileType::Floor } else { m1.spec_tile_at(a, b) });
            assert(m3.spec_tile_at(a, b) == if in_rect(a, b, 0, 70, 119, 73) { TileType::Floor } else { m2.spec_tile_at(a, b) });
            assert(m4.spec_tile_at(a, b) == if in_rect(a, b, 10, 0, 13, 79) { TileType::Floor } else { m3.spec_tile_at(a, b) });
            assert(m5.spec_tile_at(a, b) == if in_rect(a, b, 60, 0, 63, 79) { TileType::Floor } else { m4.spec_tile_at(a, b) });
            assert(map.spec_tile_at(a, b) == if in_rect(a, b, 110, 0, 113, 79) { TileType::Floor } else { m5.spec_tile_at(a, b) });
        }

        // Random walled buildings.
        let count: i32 = range_i32(rng, 5, 10);
        let mut k: i32 = 0;
        let ghost mut bs: Seq<(int, int, int, int)> = Seq::empty();
        while k < count
            invariant
                0 <= k <= count,
                5 <= count < 10,
                w == 120 && h == 80,
                streets_kept_outside_band(map),
                bs.len() == k,
                forall|i: int| 0 <= i < bs.len() ==> syndicate_building_drawn(#[trigger] bs[i]),
                forall|a: int, b: int|
                    0 <= a < 120 && 0 <= b < 80 ==> #[trigger] map.spec_tile_at(a, b) == syndicate_with_buildings(
                        bs,
                        a,
                        b,
                    ),
            decreases count - k,
        {
            let bx: i32 = range_i32(rng, 14, w - 20);
            let by: i32 = range_i32(rng, 14, h - 30);
            let bw: i32 = range_i32(rng, 7, 14);
            let bh: i32 = range_i32(rng, 6, 12);
            let x2: i32 = if bx + bw < w - 2 { bx + bw } else { w - 2 };
            let y2: i32 = if by + bh < h - 2 { by + bh } else { h - 2 };
            let ghost before = map;
            let ghost bs_before = bs;
            carve_walled_room(&mut map, bx, by, x2, y2);
            proof {
                bs = bs.push((bx as int, by as int, x2 as int, y2 as int));
                assert(bs.drop_last() =~= bs_before);
                assert forall|i: int| 0 <= i < bs.len() implies syndicate_building_drawn(#[trigger] bs[i]) by {
                    if i < bs_before.len() {
                        assert(bs[i] == bs_before[i]);
                    }
                }
                assert forall|a: int, b: int| 0 <= a < 120 && 0 <= b < 80 implies #[trigger] map.spec_tile_at(a, b)
                    == syndicate_with_buildings(bs, a, b) by {
                    assert(before.spec_tile_at(a, b) == syndicate_with_buildings(bs_before, a, b));
                }
            }
            assert forall|a: int, b: int| 0 <= a < 120 && 0 <= b < 80 implies {
                &&& (#[trigger] map.spec_tile_at(a, b) == TileType::Floor || map.spec_tile_at(a, b) == TileType::Wall)
                &&& (!syndicate_building_band(a, b) ==> map.spec_tile_at(a, b) == if syndicate_street(a, b) {
                    TileType::Floor
                } else {
                    TileType::Wall
                })
            } by {
                assert(before.spec_tile_at(a, b) == TileType::Floor || before.spec_tile_at(a, b) == TileType::Wall);
            }
            k = k + 1;
        }
        let ghost m6 = map;

        // Don Varro's headquarters hall at the north end.
        let hq_x: i32 = w / 2 - 12;
        let hq_y: i32 = 2;
        let hq_x2: i32 = w / 2 + 12;
        let hq_y2: i32 = 10;
        map.fill_rect(hq_x, hq_y, hq_x2, hq_y2, TileType::Floor);
        let ghost m7 = map;
        // Entry from the hub corridor.
        map.fill_rect(0, h / 2 + 2, 1, h / 2 + 2, TileType::Floor);
        assert forall|a: int, b: int| 0 <= a < 120 && 0 <= b < 80 implies {
            &&& (#[trigger] map.spec_tile_at(a, b) == TileType::Floor || map.spec_tile_at(a, b) == TileType::Wall)
            &&& (!syndicate_building_band(a, b) ==> map.spec_tile_at(a, b) == syndicate_layout(a, b))
        } by {
            assert(m6.spec_tile_at(a, b) == TileType::Floor || m6.spec_tile_at(a, b) == TileType::Wall);
            assert(m7.spec_tile_at(a, b) == if in_rect(a, b, 48, 2, 72, 10) { TileType::Floor } else { m6.spec_tile_at(a, b) });
            assert(map.spec_tile_at(a, b) == if in_rect(a, b, 0, 42, 1, 42) { TileType::Floor } else { m7.spec_tile_at(a, b) });
        }
        assert(syndicate_drawn(map)) by {
            reveal(syndicate_drawn);
            assert(syndicate_buildings_drawn(bs));
            assert forall|a: int, b: int| 0 <= a < 120 && 0 <= b < 80 implies #[trigger] map.spec_tile_at(a, b)
                == if in_rect(a, b, 48, 2, 72, 10) || in_rect(a, b, 0, 42, 1, 42) {
                TileType::Floor
            } else {
                syndicate_with_buildings(bs, a, b)
            } by {
                assert(m6.spec_tile_at(a, b) == syndicate_with_buildings(bs, a, b));
                assert(m7.spec_tile_at(a, b) == if in_rect(a, b, 48, 2, 72, 10) { TileType::Floor } else { m6.spec_tile_at(a, b) });
            }
        }
        assert(map.spec_tile_at(2, 42) == syndicate_layout(2, 42));
        assert(map.spec_tile_at(60, 5) == syndicate_layout(60, 5));

        let mut info = SpawnInfo::new((2, h / 2 + 2));
        // Don Varro in his headquarters.
        let boss_x: i32 = hq_x + (hq_x2 - hq_x) / 2;
        let boss_y: i32 = hq_y + 3;
        info.faction_bosses.push((boss_x, boss_y, FactionId::Syndicate));
        // Job target: a rival enforcer on the east side.
        info.job_targets.push((w - 15, h / 2 + 2, FactionId::Syndicate));
        // Gang members and civilians on walkable tiles.
        let cands: usize = range_usize(rng, 60, 100);
        push_walkable_samples(rng, &map, cands, &mut info.enemy_positions);
        proof {
            let d = choose|d: Seq<(i32, i32)>|
                d.len() == cands && inner_draws(map, d) && info.enemy_positions@ == Seq::<(i32, i32)>::empty()
                    + #[trigger] walkable_filter(map, d);
            assert(info.enemy_positions@ =~= walkable_filter(map, d));
            assert(sampled_from(map, info.enemy_positions@, 60, 100)) by {
                reveal(sampled_from);
            }
        }
        let civ_cands: usize = range_usize(rng, 20, 40);
        push_walkable_samples(rng, &map, civ_cands, &mut info.civilian_positions);
        proof {
            let d = choose|d: Seq<(i32, i32)>|
                d.len() == civ_cands && inner_draws(map, d) && info.civilian_positions@ == Seq::<(i32, i32)>::empty()
                    + #[trigger] walkable_filter(map, d);
            assert(info.civilian_positions@ =~= walkable_filter(map, d));
            assert(sampled_from(map, info.civilian_positions@, 20, 40)) by {
                reveal(sampled_from);
            }
        }
        // Elite lieutenant.
        info.elite_positions.push((w / 2 + 5, h / 2 + 5));
        // Street lamps at the crossings.
        let mut lights: Vec<(i32, i32)> = Vec::new();
        let xs: [i32; 3] = [10, w / 2, w - 10];
        let ys: [i32; 3] = [10, h / 2, h - 10];
        let mut i: usize = 0;
        while i < 3
            invariant
                i <= 3,
                xs@ == seq![10i32, 60, 110],
                ys@ == seq![10i32, 40, 70],
                lights@ == syndicate_streetlights().subrange(0, 3 * i as int),
            decreases 3 - i,
        {
            let mut j: usize = 0;
            while j < 3
                invariant
                    i < 3,
                    j <= 3,
                    xs@ == seq![10i32, 60, 110],
                    ys@ == seq![10i32, 40, 70],
                    lights@ == syndicate_streetlights().subrange(0, 3 * i + j),
                decreases 3 - j,
            {
                lights.push((xs[i], ys[j]));
                j = j + 1;
            }
            i = i + 1;
        }
        assert(lights@ == syndicate_streetlights());
        info.streetlight_positions = lights;
        assert(info.faction_bosses@ == seq![(60i32, 5i32, FactionId::Syndicate)]);
        assert(info.job_targets@ == seq![(105i32, 42i32, FactionId::Syndicate)]);
        assert(info.elite_positions@ == seq![(65i32, 45i32)]);
        (map, info)
    }
}

} // verus!
