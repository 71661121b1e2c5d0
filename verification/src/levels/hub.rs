//! Hub zone: the central plaza between the jail and the three faction zones,
//! a grid of open streets with walled buildings and no boss.

use rand::rngs::StdRng;
use vstd::prelude::*;

use super::generator::{
    all_walkable, carve_walled_room, push_walkable_samples, range_usize, sampled_from, walkable_filter, walled_tile,
    inner_draws, LevelGenerator, SpawnInfo,
};
use crate::world::map::{in_rect, TileMap};
use crate::world::tile::TileType;

verus! {

pub struct HubGenerator;

pub const HUB_W: i32 = 60;
pub const HUB_H: i32 = 80;

/// The hub's streets: three avenues across and three down, four tiles wide.
pub open spec fn hub_street(a: int, b: int) -> bool {
    ||| in_rect(a, b, 0, 8, 59, 11)
    ||| in_rect(a, b, 0, 40, 59, 43)
    ||| in_rect(a, b, 0, 72, 59, 75)
    ||| in_rect(a, b, 4, 0, 7, 79)
    ||| in_rect(a, b, 30, 0, 33, 79)
    ||| in_rect(a, b, 54, 0, 57, 79)
}

/// The hub layout: the streets, then six walled buildings carved over them.
pub open spec fn hub_layout(a: int, b: int) -> TileType {
    let streets = if hub_street(a, b) { TileType::Floor } else { TileType::Wall };
    let b1 = walled_tile(a, b, 10, 14, 20, 22, streets);
    let b2 = walled_tile(a, b, 24, 14, 34, 22, b1);
    let b3 = walled_tile(a, b, 10, 26, 20, 34, b2);
    let b4 = walled_tile(a, b, 24, 26, 34, 34, b3);
    let b5 = walled_tile(a, b, 10, 48, 22, 56, b4);
    walled_tile(a, b, 26, 48, 38, 56, b5)
}

pub open spec fn is_hub_map(map: TileMap) -> bool {
    &&& map.wf()
    &&& map.width == 60
    &&& map.height == 80
    &&& forall|a: int, b: int| 0 <= a < 60 && 0 <= b < 80 ==> #[trigger] map.spec_tile_at(a, b) == hub_layout(a, b)
}

/// The hub's street lamps, one at each crossing of the avenues.
pub open spec fn hub_streetlights() -> Seq<(i32, i32)> {
    seq![(4i32, 8i32), (4, 40), (4, 72), (30, 8), (30, 40), (30, 72), (54, 8), (54, 40), (54, 72)]
}

/// What every generated hub satisfies.
pub open spec fn hub_ok(map: TileMap, info: SpawnInfo) -> bool {
    &&& is_hub_map(map)
    &&& map.exit_pos.is_none()
    &&& info.player_start == (4i32, 77i32)
    &&& map.spec_is_walkable(4, 77)
    &&& sampled_from(map, info.enemy_positions@, 50, 80)
    &&& info.enemy_positions@.len() < 80
    &&& all_walkable(map, info.enemy_positions@)
    &&& sampled_from(map, info.civilian_positions@, 20, 40)
    &&& info.civilian_positions@.len() < 40
    &&& all_walkable(map, info.civilian_positions@)
    &&& info.streetlight_positions@ == hub_streetlights()
    &&& info.liberator_start.is_none()
    &&& info.guard_positions@.len() == 0
    &&& info.elite_positions@.len() == 0
    &&& info.boss_position.is_none()
    &&& info.entrance_positions@.len() == 0
    &&& info.faction_bosses@.len() == 0
    &&& info.job_targets@.len() == 0
    &&& info.general_position.is_none()
    &&& info.tank_position.is_none()
}

impl LevelGenerator for HubGenerator {
    fn generate(&self, rng: &mut StdRng) -> (res: (TileMap, SpawnInfo))
        ensures
            hub_ok(res.0, res.1),
    {
        let w: i32 = HUB_W;
        let h: i32 = HUB_H;
        let mut map = TileMap::new(w, h, TileType::Wall);
        let ghost m0 = map;
        // Main streets across.
        map.fill_rect(0, 8, w - 1, 11, TileType::Floor);
        let ghost m1 = map;
        map.fill_rect(0, h / 2, w - 1, h / 2 + 3, TileType::Floor);
        let ghost m2 = map;
        map.fill_rect(0, h - 8, w - 1, h - 5, TileType::Floor);
        let ghost m3 = map;
        // Main streets down.
        map.fill_rect(4, 0, 7, h - 1, TileType::Floor);
        let ghost m4 = map;
        map.fill_rect(w / 2, 0, w / 2 + 3, h - 1, TileType::Floor);
        let ghost m5 = map;
        map.fill_rect(w - 6, 0, w - 3, h - 1, TileType::Floor);
        let ghost m6 = map;
        // Perimeter buildings.
        carve_walled_room(&mut map, 10, 14, 20, 22);
        let ghost m7 = map;
        carve_walled_room(&mut map, 24, 14, 34, 22);
        let ghost m8 = map;
        carve_walled_room(&mut map, 10, 26, 20, 34);
        let ghost m9 = map;
        carve_walled_room(&mut map, 24, 26, 34, 34);
        let ghost m10 = map;
        carve_walled_room(&mut map, 10, h / 2 + 8, 22, h / 2 + 16);
        let ghost m11 = map;
        carve_walled_room(&mut map, 26, h / 2 + 8, 38, h / 2 + 16);
        assert forall|a: int, b: int| 0 <= a < 60 && 0 <= b < 80 implies #[trigger] map.spec_tile_at(a, b)
            == hub_layout(a, b) by {
            let streets = if hub_street(a, b) { TileType::Floor } else { TileType::Wall };
            assert(m0.spec_tile_at(a, b) == TileType::Wall);
            assert(m1.spec_tile_at(a, b) == if in_rect(a, b, 0, 8, 59, 11) { TileType::Floor } else { m0.spec_tile_at(a, b) });
            assert(m2.spec_tile_at(a, b) == if in_rect(a, b, 0, 40, 59, 43) { TileType::Floor } else { m1.spec_tile_at(a, b) });
            assert(m3.spec_tile_at(a, b) == if in_rect(a, b, 0, 72, 59, 75) { TileType::Floor } else { m2.spec_tile_at(a, b) });
            assert(m4.spec_tile_at(a, b) == if in_rect(a, b, 4, 0, 7, 79) { TileType::Floor } else { m3.spec_tile_at(a, b) });
            assert(m5.spec_tile_at(a, b) == if in_rect(a, b, 30, 0, 33, 79) { TileType::Floor } else { m4.spec_tile_at(a, b) });
            assert(m6.spec_tile_at(a, b) == if in_rect(a, b, 54, 0, 57, 79) { TileType::Floor } else { m5.spec_tile_at(a, b) });
            assert(m6.spec_tile_at(a, b) == streets);
            assert(m7.spec_tile_at(a, b) == walled_tile(a, b, 10, 14, 20, 22, m6.spec_tile_at(a, b)));
            assert(m8.spec_tile_at(a, b) == walled_tile(a, b, 24, 14, 34, 22, m7.spec_tile_at(a, b)));
            assert(m9.spec_tile_at(a, b) == walled_tile(a, b, 10, 26, 20, 34, m8.spec_tile_at(a, b)));
            assert(m10.spec_tile_at(a, b) == walled_tile(a, b, 24, 26, 34, 34, m9.spec_tile_at(a, b)));
            assert(m11.spec_tile_at(a, b) == walled_tile(a, b, 10, 48, 22, 56, m10.spec_tile_at(a, b)));
            assert(map.spec_tile_at(a, b) == walled_tile(a, b, 26, 48, 38, 56, m11.spec_tile_at(a, b)));
        }
        assert(map.spec_tile_at(4, 77) == hub_layout(4, 77));

        // Enemies and civilians on walkable tiles.
        let mut info = SpawnInfo::new((4, h - 3));
        let candidates: usize = range_usize(rng, 50, 80);
        push_walkable_samples(rng, &map, candidates, &mut info.enemy_positions);
        proof {
            let d = choose|d: Seq<(i32, i32)>|
                d.len() == candidates && inner_draws(map, d) && info.enemy_positions@ == Seq::<(i32, i32)>::empty()
                    + #[trigger] walkable_filter(map, d);
            assert(info.enemy_positions@ =~= walkable_filter(map, d));
            assert(sampled_from(map, info.enemy_positions@, 50, 80)) by {
                reveal(sampled_from);
            }
        }
        let civ_cands: usize = range_usize(rng, 20, 40);
        push_walkable_samples(rng, &map, civ_cands, &mut info.civilian_positions);
        proof {
            let d = choose|d: Seq<(i32, i32)>|
                d.len() == civ_cands && inner_draws(map, d) && info.civilian_positions@ == Seq::<(i32, i32)>::empty()
                    + #[trigger] walkable_filter(map, d);
            assert(info.civilian_positions@ =~= walkable_filter(map, d));
            assert(sampled_from(map, info.civilian_positions@, 20, 40)) by {
                reveal(sampled_from);
            }
        }
        // Street lamps at the crossings.
        let xs: [i32; 3] = [4, w / 2, w - 6];
        let ys: [i32; 3] = [8, h / 2, h - 8];
        let mut lights: Vec<(i32, i32)> = Vec::new();
        let mut i: usize = 0;
        while i < 3
            invariant
                i <= 3,
                xs@ == seq![4i32, 30, 54],
                ys@ == seq![8i32, 40, 72],
                lights@ == hub_streetlights().subrange(0, 3 * i as int),
            decreases 3 - i,
        {
            let mut j: usize = 0;
            while j < 3
                invariant
                    i < 3,
                    j <= 3,
                    xs@ == seq![4i32, 30, 54],
                    ys@ == seq![8i32, 40, 72],
                    lights@ == hub_streetlights().subrange(0, 3 * i + j),
                decreases 3 - j,
            {
                lights.push((xs[i], ys[j]));
                j = j + 1;
            }
            i = i + 1;
        }
        assert(lights@ == hub_streetlights());
        info.streetlight_positions = lights;
        (map, info)
    }
}

} // verus!
