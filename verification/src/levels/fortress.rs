//! Fortress zone: General Marak's stronghold, wide military avenues between
//! symmetrical barracks, a south checkpoint and the command centre at the north.

use rand::rngs::StdRng;
use vstd::prelude::*;

use super::generator::{
    all_walkable, carve_walled_room, inner_draws, push_walkable_samples, range_usize, sampled_from,
    walkable_filter, walled_tile, LevelGenerator, SpawnInfo,
};
use crate::world::map::{in_rect, TileMap};
use crate::world::tile::TileType;

verus! {

pub struct FortressGenerator {
    pub seed: u64,
}

/// The fortress avenues: three across and three down, six tiles wide.
pub open spec fn fortress_avenue(a: int, b: int) -> bool {
    ||| in_rect(a, b, 0, 14, 119, 19)
    ||| in_rect(a, b, 0, 40, 119, 45)
    ||| in_rect(a, b, 0, 66, 119, 71)
    ||| in_rect(a, b, 6, 0, 11, 79)
    ||| in_rect(a, b, 60, 0, 65, 79)
    ||| in_rect(a, b, 112, 0, 117, 79)
}

/// The fortress layout: avenues, six walled barracks, then the open command
/// centre, the south checkpoint gate and the three entry tiles, all floor.
pub open spec fn fortress_layout(a: int, b: int) -> TileType {
    let streets = if fortress_avenue(a, b) { TileType::Floor } else { TileType::Wall };
    let b1 = walled_tile(a, b, 14, 22, 26, 34, streets);
    let b2 = walled_tile(a, b, 30, 22, 42, 34, b1);
    let b3 = walled_tile(a, b, 14, 48, 26, 60, b2);
    let b4 = walled_tile(a, b, 30, 48, 42, 60, b3);
    let b5 = walled_tile(a, b, 60, 22, 72, 34, b4);
    let b6 = walled_tile(a, b, 76, 22, 88, 34, b5);
    if in_rect(a, b, 44, 2, 76, 14) || in_rect(a, b, 60, 74, 62, 74) || in_rect(a, b, 0, 42, 2, 42) {
        TileType::Floor
    } else {
        b6
    }
}

pub open spec fn is_fortress_map(map: TileMap) -> bool {
    &&& map.wf()
    &&& map.width == 120
    &&& map.height == 80
    &&& forall|a: int, b: int| 0 <= a < 120 && 0 <= b < 80 ==> #[trigger] map.spec_tile_at(a, b) == fortress_layout(a, b)
}

/// The military lights, at the crossings of the avenues.
pub open spec fn fortress_streetlights() -> Seq<(i32, i32)> {
    seq![(6i32, 14i32), (6, 40), (6, 66), (60, 14), (60, 40), (60, 66), (112, 14), (112, 40), (112, 66)]
}

/// What every generated fortress satisfies. The elite soldiers stand every
/// sixteen tiles along the middle avenue, four to seven of them.
pub open spec fn fortress_ok(map: TileMap, info: SpawnInfo) -> bool {
    &&& is_fortress_map(map)
    &&& map.exit_pos.is_none()
    &&& info.player_start == (2i32, 42i32)
    &&& map.spec_is_walkable(2, 42)
    &&& info.general_position == Some((60i32, 6i32))
    &&& map.spec_is_walkable(60, 6)
    &&& info.tank_position == Some((60i32, 12i32))
    &&& map.spec_is_walkable(60, 12)
    &&& 4 <= info.elite_positions@.len() < 8
    &&& forall|i: int| 0 <= i < info.elite_positions@.len() ==> #[trigger] info.elite_positions@[i] == ((14 + 16 * i) as i32, 42i32)
    &&& sampled_from(map, info.enemy_positions@, 80, 130)
    &&& info.enemy_positions@.len() < 130
    &&& all_walkable(map, info.enemy_positions@)
    &&& info.civilian_positions@.len() == 0
    &&& info.streetlight_positions@ == fortress_streetlights()
    &&& info.faction_bosses@.len() == 0
    &&& info.job_targets@.len() == 0
    &&& info.liberator_start.is_none()
    &&& info.guard_positions@.len() == 0
    &&& info.boss_position.is_none()
    &&& info.entrance_positions@.len() == 0
}

impl LevelGenerator for FortressGenerator {
    fn generate(&self, rng: &mut StdRng) -> (res: (TileMap, SpawnInfo))
        ensures
            fortress_ok(res.0, res.1),
    {
        let w: i32 = 120;
        let h: i32 = 80;
        let mut map = TileMap::new(w, h, TileType::Wall);
        let ghost m0 = map;
        // Wide military avenues.
        map.fill_rect(0, 14, w - 1, 19, TileType::Floor);
        let ghost m1 = map;
        map.fill_rect(0, h / 2, w - 1, h / 2 + 5, TileType::Floor);
        let ghost m2 = map;
        map.fill_rect(0, h - 14, w - 1, h - 9, TileType::Floor);
        let ghost m3 = map;
        map.fill_rect(6, 0, 11, h - 1, TileType::Floor);
        let ghost m4 = map;
        map.fill_rect(w / 2, 0, w / 2 + 5, h - 1, TileType::Floor);
        let ghost m5 = map;
        map.fill_rect(w - 8, 0, w - 3, h - 1, TileType::Floor);
        let ghost m6 = map;
        // Barracks, laid out symmetrically.
        carve_walled_room(&mut map, 14, 22, 26, 34);
        let ghost m7 = map;
        carve_walled_room(&mut map, 30, 22, 42, 34);
        let ghost m8 = map;
        carve_walled_room(&mut map, 14, h / 2 + 8, 26, h / 2 + 20);
        let ghost m9 = map;
        carve_walled_room(&mut map, 30, h / 2 + 8, 42, h / 2 + 20);
        let ghost m10 = map;
        carve_walled_room(&mut map, 60, 22, 72, 34);
        let ghost m11 = map;
        carve_walled_room(&mut map, 76, 22, 88, 34);
        let ghost m12 = map;
        // General Marak's command centre at the north.
        let cmd_x: i32 = w / 2 - 16;
        let cmd_y: i32 = 2;
        let cmd_x2: i32 = w / 2 + 16;
        let cmd_y2: i32 = 14;
        map.fill_rect(cmd_x, cmd_y, cmd_x2, cmd_y2, TileType::Floor);
        let ghost m13 = map;
        // South checkpoint gate.
        map.fill_rect(w / 2, h - 6, w / 2 + 2, h - 6, TileType::Floor);
        let ghost m14 = map;
        // Entry from the hub spine corridor.
        map.fill_rect(0, h / 2 + 2, 2, h / 2 + 2, TileType::Floor);
        assert forall|a: int, b: int| 0 <= a < 120 && 0 <= b < 80 implies #[trigger] map.spec_tile_at(a, b)
            == fortress_layout(a, b) by {
            let streets = if fortress_avenue(a, b) { TileType::Floor } else { TileType::Wall };
            assert(m0.spec_tile_at(a, b) == TileType::Wall);
            assert(m1.spec_tile_at(a, b) == if in_rect(a, b, 0, 14, 119, 19) { TileType::Floor } else { m0.spec_tile_at(a, b) });
            assert(m2.spec_tile_at(a, b) == if in_rect(a, b, 0, 40, 119, 45) { TileType::Floor } else { m1.spec_tile_at(a, b) });
            assert(m3.spec_tile_at(a, b) == if in_rect(a, b, 0, 66, 119, 71) { TileType::Floor } else { m2.spec_tile_at(a, b) });
            assert(m4.spec_tile_at(a, b) == if in_rect(a, b, 6, 0, 11, 79) { TileType::Floor } else { m3.spec_tile_at(a, b) });
            assert(m5.spec_tile_at(a, b) == if in_rect(a, b, 60, 0, 65, 79) { TileType::Floor } else { m4.spec_tile_at(a, b) });
            assert(m6.spec_tile_at(a, b) == if in_rect(a, b, 112, 0, 117, 79) { TileType::Floor } else { m5.spec_tile_at(a, b) });
            assert(m6.spec_tile_at(a, b) == streets);
            assert(m7.spec_tile_at(a, b) == walled_tile(a, b, 14, 22, 26, 34, m6.spec_tile_at(a, b)));
            assert(m8.spec_tile_at(a, b) == walled_tile(a, b, 30, 22, 42, 34, m7.spec_tile_at(a, b)));
            assert(m9.spec_tile_at(a, b) == walled_tile(a, b, 14, 48, 26, 60, m8.spec_tile_at(a, b)));
            assert(m10.spec_tile_at(a, b) == walled_tile(a, b, 30, 48, 42, 60, m9.spec_tile_at(a, b)));
            assert(m11.spec_tile_at(a, b) == walled_tile(a, b, 60, 22, 72, 34, m10.spec_tile_at(a, b)));
            assert(m12.spec_tile_at(a, b) == walled_tile(a, b, 76, 22, 88, 34, m11.spec_tile_at(a, b)));
            assert(m13.spec_tile_at(a, b) == if in_rect(a, b, 44, 2, 76, 14) { TileType::Floor } else { m12.spec_tile_at(a, b) });
            assert(m14.spec_tile_at(a, b) == if in_rect(a, b, 60, 74, 62, 74) { TileType::Floor } else { m13.spec_tile_at(a, b) });
            assert(map.spec_tile_at(a, b) == if in_rect(a, b, 0, 42, 2, 42) { TileType::Floor } else { m14.spec_tile_at(a, b) });
        }
        assert(map.spec_tile_at(2, 42) == fortress_layout(2, 42));
        assert(map.spec_tile_at(60, 6) == fortress_layout(60, 6));
        assert(map.spec_tile_at(60, 12) == fortress_layout(60, 12));

        let mut info = SpawnInfo::new((2, h / 2 + 2));
        // General Marak in the command centre, the tank between him and the entrance.
        let general_x: i32 = cmd_x + (cmd_x2 - cmd_x) / 2;
        let general_y: i32 = cmd_y + 4;
        info.general_position = Some((general_x, general_y));
        info.tank_position = Some((general_x, general_y + 6));
        // Elite soldiers along the middle avenue.
        let elite_count: usize = range_usize(rng, 4, 8);
        let mut i: usize = 0;
        while i < elite_count
            invariant
                i <= elite_count < 8,
                w == 120 && h == 80,
                info.elite_positions@.len() == i,
                forall|k: int| 0 <= k < i ==> #[trigger] info.elite_positions@[k] == ((14 + 16 * k) as i32, 42i32),
                info.player_start == (2i32, 42i32),
                info.general_position == Some((60i32, 6i32)),
                info.tank_position == Some((60i32, 12i32)),
                info.liberator_start.is_none(),
                info.guard_positions@.len() == 0,
                info.enemy_positions@.len() == 0,
                info.boss_position.is_none(),
                info.civilian_positions@.len() == 0,
                info.streetlight_positions@.len() == 0,
                info.entrance_positions@.len() == 0,
                info.faction_bosses@.len() == 0,
                info.job_targets@.len() == 0,
            decreases elite_count - i,
        {
            let ex: i32 = 14 + (i as i32) * 16;
            let ey: i32 = h / 2 + 2;
            if ex < w - 2 {
                info.elite_positions.push((ex, ey));
            }
            i = i + 1;
        }
        // Soldiers on walkable tiles, densely.
        let cands: usize = range_usize(rng, 80, 130);
        push_walkable_samples(rng, &map, cands, &mut info.enemy_positions);
        proof {
            let d = choose|d: Seq<(i32, i32)>|
                d.len() == cands && inner_draws(map, d) && info.enemy_positions@ == Seq::<(i32, i32)>::empty()
                    + #[trigger] walkable_filter(map, d);
            assert(info.enemy_positions@ =~= walkable_filter(map, d));
            assert(sampled_from(map, info.enemy_positions@, 80, 130)) by {
                reveal(sampled_from);
            }
        }
        // Military lights.
        let mut lights: Vec<(i32, i32)> = Vec::new();
        let xs: [i32; 3] = [6, w / 2, w - 8];
        let ys: [i32; 3] = [14, h / 2, h - 14];
        let mut p: usize = 0;
        while p < 3
            invariant
                p <= 3,
                xs@ == seq![6i32, 60, 112],
                ys@ == seq![14i32, 40, 66],
                lights@ == fortress_streetlights().subrange(0, 3 * p as int),
            decreases 3 - p,
        {
            let mut q: usize = 0;
            while q < 3
                invariant
                    p < 3,
                    q <= 3,
                    xs@ == seq![6i32, 60, 112],
                    ys@ == seq![14i32, 40, 66],
                    lights@ == fortress_streetlights().subrange(0, 3 * p + q),
                decreases 3 - q,
            {
                lights.push((xs[p], ys[q]));
                q = q + 1;
            }
            p = p + 1;
        }
        assert(lights@ == fortress_streetlights());
        info.streetlight_positions = lights;
        (map, info)
    }
}

} // verus!
