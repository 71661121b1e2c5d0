//! Covenant zone: the Prophet's cult territory, narrow paths, walled temples,
//! a round ritual plaza in the south and the sanctuary at the north end.

use rand::rngs::StdRng;
use vstd::prelude::*;

use super::generator::{
    all_walkable, carve_walled_room, inner_draws, push_walkable_samples, range_usize, sampled_from,
    walkable_filter, walled_tile, LevelGenerator, SpawnInfo,
};
use crate::faction::FactionId;
use crate::world::map::{in_rect, TileMap};
use crate::world::tile::TileType;

verus! {

pub struct CovenantGenerator {
    pub seed: u64,
}

/// Tiles within this radius of the ritual centre form the Covenant ritual zone.
pub const RITUAL_ZONE_RADIUS: i32 = 8;

/// The centre of the ritual plaza.
pub const RITUAL_CENTER: (i32, i32) = (60, 60);

/// Whether `(a, b)` lies in the disk of radius `r` around `(cx, cy)`.
pub open spec fn in_disk(a: int, b: int, cx: int, cy: int, r: int) -> bool {
    (a - cx) * (a - cx) + (b - cy) * (b - cy) <= r * r
}

/// Whether `(a, b)` lies in the ritual plaza.
pub open spec fn in_ritual_plaza(a: int, b: int) -> bool {
    in_disk(a, b, 60, 60, 8)
}

/// The Covenant's paths: two across and three down, three tiles wide.
pub open spec fn covenant_path(a: int, b: int) -> bool {
    ||| in_rect(a, b, 0, 10, 119, 12)
    ||| in_rect(a, b, 0, 40, 119, 42)
    ||| in_rect(a, b, 12, 0, 14, 79)
    ||| in_rect(a, b, 60, 0, 62, 79)
    ||| in_rect(a, b, 108, 0, 110, 79)
}

/// The Covenant layout: paths, three walled temples, then the ritual plaza,
/// the open sanctuary and the two entry tiles from the hub, all floor.
pub open spec fn covenant_layout(a: int, b: int) -> TileType {
    let paths = if covenant_path(a, b) { TileType::Floor } else { TileType::Wall };
    let t1 = walled_tile(a, b, 16, 14, 26, 22, paths);
    let t2 = walled_tile(a, b, 30, 14, 40, 22, t1);
    let t3 = walled_tile(a, b, 16, 44, 28, 54, t2);
    if in_ritual_plaza(a, b) || in_rect(a, b, 50, 2, 70, 10) || in_rect(a, b, 0, 41, 1, 41) {
        TileType::Floor
    } else {
        t3
    }
}

pub open spec fn is_covenant_map(map: TileMap) -> bool {
    &&& map.wf()
    &&& map.width == 120
    &&& map.height == 80
    &&& forall|a: int, b: int| 0 <= a < 120 && 0 <= b < 80 ==> #[trigger] map.spec_tile_at(a, b) == covenant_layout(a, b)
}

/// The Covenant's few lamps, where the paths cross.
pub open spec fn covenant_streetlights() -> Seq<(i32, i32)> {
    seq![(12i32, 10i32), (12, 40), (60, 10), (60, 40), (108, 10), (108, 40)]
}

/// What every generated Covenant zone satisfies.
pub open spec fn covenant_ok(map: TileMap, info: SpawnInfo) -> bool {
    &&& is_covenant_map(map)
    &&& map.exit_pos.is_none()
    &&& info.player_start == (2i32, 41i32)
    &&& map.spec_is_walkable(2, 41)
    &&& info.faction_bosses@ == seq![(60i32, 5i32, FactionId::Covenant)]
    &&& map.spec_is_walkable(60, 5)
    &&& info.job_targets@ == seq![(60i32, 62i32, FactionId::Covenant)]
    &&& map.spec_is_walkable(60, 62)
    &&& sampled_from(map, info.enemy_positions@, 50, 80)
    &&& info.enemy_positions@.len() < 80
    &&& all_walkable(map, info.enemy_positions@)
    &&& sampled_from(map, info.civilian_positions@, 35, 55)
    &&& info.civilian_positions@.len() < 55
    &&& all_walkable(map, info.civilian_positions@)
    &&& info.elite_positions@ == seq![(64i32, 42i32)]
    &&& info.streetlight_positions@ == covenant_streetlights()
    &&& info.liberator_start.is_none()
    &&& info.guard_positions@.len() == 0
    &&& info.boss_position.is_none()
    &&& info.entrance_positions@.len() == 0
    &&& info.general_position.is_none()
    &&& info.tank_position.is_none()
}

/// A square no larger than the square of `r` has a root no larger than `r`.
proof fn lemma_square_bound(x: int, y: int, r: int)
    by (nonlinear_arith)
    requires
        r >= 0,
        x * x + y * y <= r * r,
    ensures
        -r <= x <= r,
{
    assert(y * y >= 0);
    if x > r {
        assert(x * x > r * r);
    }
    if x < -r {
        assert(x * x > r * r);
    }
}

/// Writes `tile` on every in-bounds cell of the disk of radius `r` around `(cx, cy)`.
fn fill_disk(map: &mut TileMap, cx: i32, cy: i32, r: i32, tile: TileType)
    requires
        old(map).wf(),
        0 <= r <= 100,
        -10_000 <= cx <= 10_000,
        -10_000 <= cy <= 10_000,
    ensures
        final(map).wf(),
        final(map).width == old(map).width,
        final(map).height == old(map).height,
        final(map).exit_pos == old(map).exit_pos,
        forall|a: int, b: int|
            #[trigger] final(map).spec_tile_at(a, b) == if old(map).spec_in_bounds(a, b) && in_disk(
                a,
                b,
                cx as int,
                cy as int,
                r as int,
            ) {
                tile
            } else {
                old(map).spec_tile_at(a, b)
            },
{
    let ghost orig = *map;
    let mut dx: i32 = -r;
    assert forall|a: int, b: int| #[trigger] map.spec_tile_at(a, b) == if orig.spec_in_bounds(a, b) && in_disk(
        a,
        b,
        cx as int,
        cy as int,
        r as int,
    ) && a - cx < dx {
        tile
    } else {
        orig.spec_tile_at(a, b)
    } by {
        if in_disk(a, b, cx as int, cy as int, r as int) {
            lemma_square_bound(a - cx, b - cy, r as int);
        }
    }
    while dx <= r
        invariant
            0 <= r <= 100,
            -10_000 <= cx <= 10_000,
            -10_000 <= cy <= 10_000,
            -r <= dx <= r + 1,
            map.wf(),
            map.width == orig.width,
            map.height == orig.height,
            map.exit_pos == orig.exit_pos,
            forall|a: int, b: int|
                #[trigger] map.spec_tile_at(a, b) == if orig.spec_in_bounds(a, b) && in_disk(
                    a,
                    b,
                    cx as int,
                    cy as int,
                    r as int,
                ) && a - cx < dx {
                    tile
                } else {
                    orig.spec_tile_at(a, b)
                },
        decreases r + 1 - dx,
    {
        let mut dy: i32 = -r;
        assert forall|a: int, b: int| #[trigger] map.spec_tile_at(a, b) == if orig.spec_in_bounds(a, b) && in_disk(
            a,
            b,
            cx as int,
            cy as int,
            r as int,
        ) && (a - cx < dx || (a - cx == dx && b - cy < dy)) {
            tile
        } else {
            orig.spec_tile_at(a, b)
        } by {
            if in_disk(a, b, cx as int, cy as int, r as int) {
                lemma_square_bound(b - cy, a - cx, r as int);
            }
        }
        while dy <= r
            invariant
                0 <= r <= 100,
                -10_000 <= cx <= 10_000,
                -10_000 <= cy <= 10_000,
                -r <= dx <= r,
                -r <= dy <= r + 1,
                map.wf(),
                map.width == orig.width,
                map.height == orig.height,
                map.exit_pos == orig.exit_pos,
                forall|a: int, b: int|
                    #[trigger] map.spec_tile_at(a, b) == if orig.spec_in_bounds(a, b) && in_disk(
                        a,
                        b,
                        cx as int,
                        cy as int,
                        r as int,
                    ) && (a - cx < dx || (a - cx == dx && b - cy < dy)) {
                        tile
                    } else {
                        orig.spec_tile_at(a, b)
                    },
            decreases r + 1 - dy,
        {
            assert(0 <= dx * dx <= 10_000 && 0 <= dy * dy <= 10_000 && 0 <= r * r <= 10_000) by (nonlinear_arith)
                requires
                    -100 <= dx <= 100,
                    -100 <= dy <= 100,
                    0 <= r <= 100,
            ;
            let ghost before = *map;
            if dx * dx + dy * dy <= r * r {
                map.set(cx + dx, cy + dy, tile);
            }
            assert forall|a: int, b: int| #[trigger] map.spec_tile_at(a, b) == if orig.spec_in_bounds(a, b) && in_disk(
                a,
                b,
                cx as int,
                cy as int,
                r as int,
            ) && (a - cx < dx || (a - cx == dx && b - cy < dy + 1)) {
                tile
            } else {
                orig.spec_tile_at(a, b)
            } by {
                if a - cx == dx && b - cy == dy {
                    assert(in_disk(a, b, cx as int, cy as int, r as int) == (dx * dx + dy * dy <= r * r));
                }
            }
            dy = dy + 1;
        }
        assert forall|a: int, b: int| #[trigger] map.spec_tile_at(a, b) == if orig.spec_in_bounds(a, b) && in_disk(
            a,
            b,
            cx as int,
            cy as int,
            r as int,
        ) && a - cx < dx + 1 {
            tile
        } else {
            orig.spec_tile_at(a, b)
        } by {
            if in_disk(a, b, cx as int, cy as int, r as int) {
                lemma_square_bound(b - cy, a - cx, r as int);
            }
        }
        dx = dx + 1;
    }
    assert forall|a: int, b: int| #[trigger] map.spec_tile_at(a, b) == if orig.spec_in_bounds(a, b) && in_disk(
        a,
        b,
        cx as int,
        cy as int,
        r as int,
    ) {
        tile
    } else {
        orig.spec_tile_at(a, b)
    } by {
        if in_disk(a, b, cx as int, cy as int, r as int) {
            lemma_square_bound(a - cx, b - cy, r as int);
        }
    }
}

impl LevelGenerator for CovenantGenerator {
    fn generate(&self, rng: &mut StdRng) -> (res: (TileMap, SpawnInfo))
        ensures
            covenant_ok(res.0, res.1),
    {
        let w: i32 = 120;
        let h: i32 = 80;
        let mut map = TileMap::new(w, h, TileType::Wall);
        let ghost m0 = map;
        // Narrow paths.
        map.fill_rect(0, 10, w - 1, 12, TileType::Floor);
        let ghost m1 = map;
        map.fill_rect(0, h / 2, w - 1, h / 2 + 2, TileType::Floor);
        let ghost m2 = map;
        map.fill_rect(12, 0, 14, h - 1, TileType::Floor);
        let ghost m3 = map;
        map.fill_rect(w / 2, 0, w / 2 + 2, h - 1, TileType::Floor);
        let ghost m4 = map;
        map.fill_rect(w - 12, 0, w - 10, h - 1, TileType::Floor);
        let ghost m5 = map;
        // Temples.
        carve_walled_room(&mut map, 16, 14, 26, 22);
        let ghost m6 = map;
        carve_walled_room(&mut map, 30, 14, 40, 22);
        let ghost m7 = map;
        carve_walled_room(&mut map, 16, h / 2 + 4, 28, h / 2 + 14);
        let ghost m8 = map;
        // The round ritual plaza.
        let (cx, cy) = RITUAL_CENTER;
        fill_disk(&mut map, cx, cy, RITUAL_ZONE_RADIUS, TileType::Floor);
        let ghost m9 = map;
        // The Prophet's sanctuary at the north.
        let sanc_x: i32 = w / 2 - 10;
        let sanc_y: i32 = 2;
        let sanc_x2: i32 = w / 2 + 10;
        let sanc_y2: i32 = 10;
        map.fill_rect(sanc_x, sanc_y, sanc_x2, sanc_y2, TileType::Floor);
        let ghost m10 = map;
        // Entry from the hub.
        map.fill_rect(0, h / 2 + 1, 1, h / 2 + 1, TileType::Floor);
        assert forall|a: int, b: int| 0 <= a < 120 && 0 <= b < 80 implies #[trigger] map.spec_tile_at(a, b)
            == covenant_layout(a, b) by {
            let paths = if covenant_path(a, b) { TileType::Floor } else { TileType::Wall };
            assert(m0.spec_tile_at(a, b) == TileType::Wall);
            assert(m1.spec_tile_at(a, b) == if in_rect(a, b, 0, 10, 119, 12) { TileType::Floor } else { m0.spec_tile_at(a, b) });
            assert(m2.spec_tile_at(a, b) == if in_rect(a, b, 0, 40, 119, 42) { TileType::Floor } else { m1.spec_tile_at(a, b) });
            assert(m3.spec_tile_at(a, b) == if in_rect(a, b, 12, 0, 14, 79) { TileType::Floor } else { m2.spec_tile_at(a, b) });
            assert(m4.spec_tile_at(a, b) == if in_rect(a, b, 60, 0, 62, 79) { TileType::Floor } else { m3.spec_tile_at(a, b) });
            assert(m5.spec_tile_at(a, b) == if in_rect(a, b, 108, 0, 110, 79) { TileType::Floor } else { m4.spec_tile_at(a, b) });
            assert(m5.spec_tile_at(a, b) == paths);
            assert(m6.spec_tile_at(a, b) == walled_tile(a, b, 16, 14, 26, 22, m5.spec_tile_at(a, b)));
            assert(m7.spec_tile_at(a, b) == walled_tile(a, b, 30, 14, 40, 22, m6.spec_tile_at(a, b)));
            assert(m8.spec_tile_at(a, b) == walled_tile(a, b, 16, 44, 28, 54, m7.spec_tile_at(a, b)));
            assert(m9.spec_tile_at(a, b) == if in_ritual_plaza(a, b) { TileType::Floor } else { m8.spec_tile_at(a, b) });
            assert(m10.spec_tile_at(a, b) == if in_rect(a, b, 50, 2, 70, 10) { TileType::Floor } else { m9.spec_tile_at(a, b) });
            assert(map.spec_tile_at(a, b) == if in_rect(a, b, 0, 41, 1, 41) { TileType::Floor } else { m10.spec_tile_at(a, b) });
        }
        assert(map.spec_tile_at(2, 41) == covenant_layout(2, 41));
        assert(map.spec_tile_at(60, 5) == covenant_layout(60, 5));
        assert(map.spec_tile_at(60, 62) == covenant_layout(60, 62));

        let mut info = SpawnInfo::new((2, h / 2 + 1));
        // The Prophet in the sanctuary.
        let boss_x: i32 = sanc_x + (sanc_x2 - sanc_x) / 2;
        let boss_y: i32 = sanc_y + 3;
        info.faction_bosses.push((boss_x, boss_y, FactionId::Covenant));
        // Job target: a ritual victim in the plaza.
        info.job_targets.push((cx, cy + 2, FactionId::Covenant));
        // Cultists and the many civilians on walkable tiles.
        let cands: usize = range_usize(rng, 50, 80);
        push_walkable_samples(rng, &map, cands, &mut info.enemy_positions);
        proof {
            let d = choose|d: Seq<(i32, i32)>|
                d.len() == cands && inner_draws(map, d) && info.enemy_positions@ == Seq::<(i32, i32)>::empty()
                    + #[trigger] walkable_filter(map, d);
            assert(info.enemy_positions@ =~= walkable_filter(map, d));
            assert(sampled_from(map, info.enemy_positions@, 50, 80)) by {
                reveal(sampled_from);
            }
        }
        let civ_cands: usize = range_usize(rng, 35, 55);
        push_walkable_samples(rng, &map, civ_cands, &mut info.civilian_positions);
        proof {
            let d = choose|d: Seq<(i32, i32)>|
                d.len() == civ_cands && inner_draws(map, d) && info.civilian_positions@ == Seq::<(i32, i32)>::empty()
                    + #[trigger] walkable_filter(map, d);
            assert(info.civilian_positions@ =~= walkable_filter(map, d));
            assert(sampled_from(map, info.civilian_positions@, 35, 55)) by {
                reveal(sampled_from);
            }
        }
        info.elite_positions.push((w / 2 + 4, h / 2 + 2));
        // Dim lights: fewer lamps than elsewhere.
        let mut lights: Vec<(i32, i32)> = Vec::new();
        let xs: [i32; 3] = [12, w / 2, w - 12];
        let ys: [i32; 2] = [10, h / 2];
        let mut i: usize = 0;
        while i < 3
            invariant
                i <= 3,
                xs@ == seq![12i32, 60, 108],
                ys@ == seq![10i32, 40],
                lights@ == covenant_streetlights().subrange(0, 2 * i as int),
            decreases 3 - i,
        {
            let mut j: usize = 0;
            while j < 2
                invariant
                    i < 3,
                    j <= 2,
                    xs@ == seq![12i32, 60, 108],
                    ys@ == seq![10i32, 40],
                    lights@ == covenant_streetlights().subrange(0, 2 * i + j),
                decreases 2 - j,
            {
                lights.push((xs[i], ys[j]));
                j = j + 1;
            }
            i = i + 1;
        }
        assert(lights@ == covenant_streetlights());
        info.streetlight_positions = lights;
        assert(info.faction_bosses@ == seq![(60i32, 5i32, FactionId::Covenant)]);
        assert(info.job_targets@ == seq![(60i32, 62i32, FactionId::Covenant)]);
        assert(info.elite_positions@ == seq![(64i32, 42i32)]);
        (map, info)
    }
}

} // verus!
