//! Precinct zone: Chief Harlan's police district, an orderly grid of patrol
//! avenues and barracks with the precinct headquarters at the north end.

use rand::rngs::StdRng;
use vstd::prelude::*;

use super::generator::{
    all_walkable, carve_walled_room, inner_draws, push_walkable_samples, range_usize, sampled_from,
    walkable_filter, walled_tile, LevelGenerator, SpawnInfo,
};
use crate::faction::FactionId;
use crate::world::map::{in_rect, TileMap};
use crate::world::tile::TileType;

verus! {

pub struct PrecinctGenerator {
    pub seed: u64,
}

/// The precinct's patrol avenues: three across and three down, five tiles wide.
pub open spec fn precinct_street(a: int, b: int) -> bool {
    ||| in_rect(a, b, 0, 12, 119, 16)
    ||| in_rect(a, b, 0, 40, 119, 44)
    ||| in_rect(a, b, 0, 68, 119, 72)
    ||| in_rect(a, b, 8, 0, 12, 79)
    ||| in_rect(a, b, 60, 0, 64, 79)
    ||| in_rect(a, b, 110, 0, 114, 79)
}

/// The precinct layout: avenues, five walled barracks, the open headquarters
/// hall and the two entry tiles from the hub.
pub open spec fn precinct_layout(a: int, b: int) -> TileType {
    let streets = if precinct_street(a, b) { TileType::Floor } else { TileType::Wall };
    let b1 = walled_tile(a, b, 14, 18, 28, 28, streets);
    let b2 = walled_tile(a, b, 32, 18, 46, 28, b1);
    let b3 = walled_tile(a, b, 14, 46, 28, 58, b2);
    let b4 = walled_tile(a, b, 32, 46, 46, 58, b3);
    let b5 = walled_tile(a, b, 52, 18, 66, 28, b4);
    if in_rect(a, b, 46, 2, 74, 12) || in_rect(a, b, 0, 42, 1, 42) {
        TileType::Floor
    } else {
        b5
    }
}

pub open spec fn is_precinct_map(map: TileMap) -> bool {
    &&& map.wf()
    &&& map.width == 120
    &&& map.height == 80
    &&& forall|a: int, b: int| 0 <= a < 120 && 0 <= b < 80 ==> #[trigger] map.spec_tile_at(a, b) == precinct_layout(a, b)
}

/// The precinct's street lamps, at the crossings of the avenues.
pub open spec fn precinct_streetlights() -> Seq<(i32, i32)> {
    seq![(8i32, 12i32), (8, 40), (8, 68), (60, 12), (60, 40), (60, 68), (110, 12), (110, 40), (110, 68)]
}

/// What every generated precinct satisfies.
pub open spec fn precinct_ok(map: TileMap, info: SpawnInfo) -> bool {
    &&& is_precinct_map(map)
    &&& map.exit_pos.is_none()
    &&& info.player_start == (2i32, 42i32)
    &&& map.spec_is_walkable(2, 42)
    &&& info.faction_bosses@ == seq![(60i32, 6i32, FactionId::Precinct)]
    &&& map.spec_is_walkable(60, 6)
    &&& info.job_targets@ == seq![(108i32, 43i32, FactionId::Precinct)]
    &&& sampled_from(map, info.enemy_positions@, 55, 90)
    &&& info.enemy_positions@.len() < 90
    &&& all_walkable(map, info.enemy_positions@)
    &&& sampled_from(map, info.civilian_positions@, 15, 30)
    &&& info.civilian_positions@.len() < 30
    &&& all_walkable(map, info.civilian_positions@)
    &&& info.elite_positions@ == seq![(66i32, 43i32)]
    &&& info.streetlight_positions@ == precinct_streetlights()
    &&& info.liberator_start.is_none()
    &&& info.guard_positions@.len() == 0
    &&& info.boss_position.is_none()
    &&& info.entrance_positions@.len() == 0
    &&& info.general_position.is_none()
    &&& info.tank_position.is_none()
}

impl LevelGenerator for PrecinctGenerator {
    fn generate(&self, rng: &mut StdRng) -> (res: (TileMap, SpawnInfo))
        ensures
            precinct_ok(res.0, res.1),
    {
        let w: i32 = 120;
        let h: i32 = 80;
        let mut map = TileMap::new(w, h, TileType::Wall);
        let ghost m0 = map;
        // Wide patrol avenues.
        map.fill_rect(0, 12, w - 1, 16, TileType::Floor);
        let ghost m1 = map;
        map.fill_rect(0, h / 2, w - 1, h / 2 + 4, TileType::Floor);
        let ghost m2 = map;
        map.fill_rect(0, h - 12, w - 1, h - 8, TileType::Floor);
        let ghost m3 = map;
        map.fill_rect(8, 0, 12, h - 1, TileType::Floor);
        let ghost m4 = map;
        map.fill_rect(w / 2, 0, w / 2 + 4, h - 1, TileType::Floor);
        let ghost m5 = map;
        map.fill_rect(w - 10, 0, w - 6, h - 1, TileType::Floor);
        let ghost m6 = map;
        // Barracks blocks.
        carve_walled_room(&mut map, 14, 18, 28, 28);
        let ghost m7 = map;
        carve_walled_room(&mut map, 32, 18, 46, 28);
        let ghost m8 = map;
        carve_walled_room(&mut map, 14, h / 2 + 6, 28, h / 2 + 18);
        let ghost m9 = map;
        carve_walled_room(&mut map, 32, h / 2 + 6, 46, h / 2 + 18);
        let ghost m10 = map;
        carve_walled_room(&mut map, 52, 18, 66, 28);
        let ghost m11 = map;
        // Harlan's headquarters hall at the north.
        let hq_x: i32 = w / 2 - 14;
        let hq_y: i32 = 2;
        let hq_x2: i32 = w / 2 + 14;
        let hq_y2: i32 = 12;
        map.fill_rect(hq_x, hq_y, hq_x2, hq_y2, TileType::Floor);
        let ghost m12 = map;
        // Entry from the hub.
        map.fill_rect(0, h / 2 + 2, 1, h / 2 + 2, TileType::Floor);
        assert forall|a: int, b: int| 0 <= a < 120 && 0 <= b < 80 implies #[trigger] map.spec_tile_at(a, b)
            == precinct_layout(a, b) by {
            let streets = if precinct_street(a, b) { TileType::Floor } else { TileType::Wall };
            assert(m0.spec_tile_at(a, b) == TileType::Wall);
            assert(m1.spec_tile_at(a, b) == if in_rect(a, b, 0, 12, 119, 16) { TileType::Floor } else { m0.spec_tile_at(a, b) });
            assert(m2.spec_tile_at(a, b) == if in_rect(a, b, 0, 40, 119, 44) { TileType::Floor } else { m1.spec_tile_at(a, b) });
            assert(m3.spec_tile_at(a, b) == if in_rect(a, b, 0, 68, 119, 72) { TileType::Floor } else { m2.spec_tile_at(a, b) });
            assert(m4.spec_tile_at(a, b) == if in_rect(a, b, 8, 0, 12, 79) { TileType::Floor } else { m3.spec_tile_at(a, b) });
            assert(m5.spec_tile_at(a, b) == if in_rect(a, b, 60, 0, 64, 79) { TileType::Floor } else { m4.spec_tile_at(a, b) });
            assert(m6.spec_tile_at(a, b) == if in_rect(a, b, 110, 0, 114, 79) { TileType::Floor } else { m5.spec_tile_at(a, b) });
            assert(m6.spec_tile_at(a, b) == streets);
            assert(m7.spec_tile_at(a, b) == walled_tile(a, b, 14, 18, 28, 28, m6.spec_tile_at(a, b)));
            assert(m8.spec_tile_at(a, b) == walled_tile(a, b, 32, 18, 46, 28, m7.spec_tile_at(a, b)));
            assert(m9.spec_tile_at(a, b) == walled_tile(a, b, 14, 46, 28, 58, m8.spec_tile_at(a, b)));
            assert(m10.spec_tile_at(a, b) == walled_tile(a, b, 32, 46, 46, 58, m9.spec_tile_at(a, b)));
            assert(m11.spec_tile_at(a, b) == walled_tile(a, b, 52, 18, 66, 28, m10.spec_tile_at(a, b)));
            assert(m12.spec_tile_at(a, b) == if in_rect(a, b, 46, 2, 74, 12) { TileType::Floor } else { m11.spec_tile_at(a, b) });
            assert(map.spec_tile_at(a, b) == if in_rect(a, b, 0, 42, 1, 42) { TileType::Floor } else { m12.spec_tile_at(a, b) });
        }
        assert(map.spec_tile_at(2, 42) == precinct_layout(2, 42));
        assert(map.spec_tile_at(60, 6) == precinct_layout(60, 6));

        let mut info = SpawnInfo::new((2, h / 2 + 2));
        // Chief Harlan in the headquarters.
        let boss_x: i32 = hq_x + (hq_x2 - hq_x) / 2;
        let boss_y: i32 = hq_y + 4;
        info.faction_bosses.push((boss_x, boss_y, FactionId::Precinct));
        // Job target: a criminal informant in the east patrol district.
        info.job_targets.push((w - 12, h / 2 + 3, FactionId::Precinct));
        // Police officers and civilians on walkable tiles.
        let cands: usize = range_usize(rng, 55, 90);
        push_walkable_samples(rng, &map, cands, &mut info.enemy_positions);
        proof {
            let d = choose|d: Seq<(i32, i32)>|
                d.len() == cands && inner_draws(map, d) && info.enemy_positions@ == Seq::<(i32, i32)>::empty()
                    + #[trigger] walkable_filter(map, d);
            assert(info.enemy_positions@ =~= walkable_filter(map, d));
            assert(sampled_from(map, info.enemy_positions@, 55, 90)) by {
                reveal(sampled_from);
            }
        }
        let civ_cands: usize = range_usize(rng, 15, 30);
        push_walkable_samples(rng, &map, civ_cands, &mut info.civilian_positions);
        proof {
            let d = choose|d: Seq<(i32, i32)>|
                d.len() == civ_cands && inner_draws(map, d) && info.civilian_positions@ == Seq::<(i32, i32)>::empty()
                    + #[trigger] walkable_filter(map, d);
            assert(info.civilian_positions@ =~= walkable_filter(map, d));
            assert(sampled_from(map, info.civilian_positions@, 15, 30)) by {
                reveal(sampled_from);
            }
        }
        // Elite police captain.
        info.elite_positions.push((w / 2 + 6, h / 2 + 3));
        // Street lamps at the crossings.
        let mut lights: Vec<(i32, i32)> = Vec::new();
        let xs: [i32; 3] = [8, w / 2, w - 10];
        let ys: [i32; 3] = [12, h / 2, h - 12];
        let mut i: usize = 0;
        while i < 3
            invariant
                i <= 3,
                xs@ == seq![8i32, 60, 110],
                ys@ == seq![12i32, 40, 68],
                lights@ == precinct_streetlights().subrange(0, 3 * i as int),
            decreases 3 - i,
        {
            let mut j: usize = 0;
            while j < 3
                invariant
                    i < 3,
                    j <= 3,
                    xs@ == seq![8i32, 60, 110],
                    ys@ == seq![12i32, 40, 68],
                    lights@ == precinct_streetlights().subrange(0, 3 * i + j),
                decreases 3 - j,
            {
                lights.push((xs[i], ys[j]));
                j = j + 1;
            }
            i = i + 1;
        }
        assert(lights@ == precinct_streetlights());
        info.streetlight_positions = lights;
        assert(info.faction_bosses@ == seq![(60i32, 6i32, FactionId::Precinct)]);
        assert(info.job_targets@ == seq![(108i32, 43i32, FactionId::Precinct)]);
        assert(info.elite_positions@ == seq![(66i32, 43i32)]);
        assert(info.enemy_positions@.len() < 90);
        assert(info.civilian_positions@.len() < 30);
        (map, info)
    }
}

} // verus!
