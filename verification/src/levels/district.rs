//! The district: a street grid with randomly placed enterable buildings, the
//! mob boss's building and the sewer exit in the south-east corner.

use rand::rngs::StdRng;
use vstd::prelude::*;

use super::generator::{
    all_walkable, building_hash, inner_draws, push_walkable_samples, range_i32, range_usize, sampled_from,
    spec_building_hash, walkable_filter, BuildingKind, LevelGenerator, SpawnInfo,
};
use crate::world::map::{in_rect, TileMap};
use crate::world::tile::TileType;

verus! {

pub struct DistrictGenerator {
    /// Level seed used to derive stable building ids.
    pub seed: u64,
}

impl DistrictGenerator {
    /// The generator with the default seed, 12345.
    pub fn default() -> (g: Self)
        ensures
            g.seed == 12345,
    {
        DistrictGenerator { seed: 12345 }
    }
}

/// Half of `v`, rounded toward zero as integer division does.
pub open spec fn half(v: int) -> int {
    if v >= 0 {
        v / 2
    } else {
        -((-v) / 2)
    }
}

/// Whether the street of width two that starts at `s` crosses the span `[lo, hi]`.
pub open spec fn crosses_street(lo: int, hi: int, s: int) -> bool {
    hi >= s && lo <= s + 1
}

/// Whether the rectangle `[x1, x2] × [y1, y2]` touches one of the district's
/// streets: the columns starting at 5, `w / 2` and `w - 5`, and the rows
/// starting at 5, `h / 2` and `h - 5`, each two tiles wide.
pub open spec fn spec_overlaps_street(x1: int, y1: int, x2: int, y2: int, w: int, h: int) -> bool {
    ||| crosses_street(x1, x2, 5)
    ||| crosses_street(x1, x2, half(w))
    ||| crosses_street(x1, x2, w - 5)
    ||| crosses_street(y1, y2, 5)
    ||| crosses_street(y1, y2, half(h))
    ||| crosses_street(y1, y2, h - 5)
}

/// Whether the rectangle `[x1, x2] × [y1, y2]` touches a street of a `w` × `h` district.
pub fn overlaps_street(x1: i32, y1: i32, x2: i32, y2: i32, w: i32, h: i32) -> (b: bool)
    requires
        w >= i32::MIN + 5,
        h >= i32::MIN + 5,
    ensures
        b == spec_overlaps_street(x1 as int, y1 as int, x2 as int, y2 as int, w as int, h as int),
{
    // Streets are two tiles wide: [s, s + 1].
    let (cx1, cx2, cx3): (i32, i32, i32) = (5, w / 2, w - 5);
    if (x2 >= cx1 && x1 <= cx1 + 1) || (x2 >= cx2 && x1 <= cx2 + 1) || (x2 >= cx3 && x1 <= cx3 + 1) {
        return true;
    }
    let (cy1, cy2, cy3): (i32, i32, i32) = (5, h / 2, h - 5);
    if (y2 >= cy1 && y1 <= cy1 + 1) || (y2 >= cy2 && y1 <= cy2 + 1) || (y2 >= cy3 && y1 <= cy3 + 1) {
        return true;
    }
    false
}

/// The first row of a street south of `door_y`: the least of 5, `h / 2` and
/// `h - 5` that is greater than `door_y`, or `h - 1` if there is none.
pub open spec fn spec_nearest_street_south(door_y: int, h: int) -> int {
    let c1 = 5int;
    let c2 = half(h);
    let c3 = h - 5;
    let m12 = if c1 > door_y && (c2 <= door_y || c1 <= c2) { Some(c1) } else if c2 > door_y { Some(c2) } else { None::<int> };
    match m12 {
        Some(m) => if c3 > door_y && c3 < m { c3 } else { m },
        None => if c3 > door_y { c3 } else { h - 1 },
    }
}

/// The first row of the nearest street south of `door_y` (greater y), or
/// `h - 1` when no street lies south of it.
pub fn nearest_street_south(door_y: i32, h: i32) -> (y: i32)
    requires
        h >= i32::MIN + 5,
    ensures
        y == spec_nearest_street_south(door_y as int, h as int),
{
    let cands: [i32; 3] = [5, h / 2, h - 5];
    let mut best: Option<i32> = None;
    let mut i: usize = 0;
    while i < 3
        invariant
            i <= 3,
            cands@ == seq![5i32, half(h as int) as i32, (h - 5) as i32],
            best == (if i == 0 {
                None::<i32>
            } else {
                let m1 = if cands@[0] > door_y { Some(cands@[0]) } else { None::<i32> };
                if i == 1 {
                    m1
                } else {
                    let m2 = match m1 {
                        Some(m) => if cands@[1] > door_y && cands@[1] < m { Some(cands@[1]) } else { Some(m) },
                        None => if cands@[1] > door_y { Some(cands@[1]) } else { None::<i32> },
                    };
                    if i == 2 {
                        m2
                    } else {
                        match m2 {
                            Some(m) => if cands@[2] > door_y && cands@[2] < m { Some(cands@[2]) } else { Some(m) },
                            None => if cands@[2] > door_y { Some(cands@[2]) } else { None::<i32> },
                        }
                    }
                }
            }),
        decreases 3 - i,
    {
        let c: i32 = cands[i];
        if c > door_y {
            best = match best {
                Some(m) => if c < m { Some(c) } else { Some(m) },
                None => Some(c),
            };
        }
        i = i + 1;
    }
    match best {
        Some(m) => m,
        None => h - 1,
    }
}

/// The district's streets, each two tiles wide: rows from 5, 20 and 35, and
/// columns from 5, 30 and 55.
pub open spec fn district_street(a: int, b: int) -> bool {
    ||| (0 <= a < 60 && (b == 5 || b == 6 || b == 20 || b == 21 || b == 35 || b == 36))
    ||| (0 <= b < 40 && (a == 5 || a == 6 || a == 30 || a == 31 || a == 55 || a == 56))
}

/// The district's street lamps: one at each crossing, then one every ten tiles
/// along each street row.
pub open spec fn district_streetlights() -> Seq<(i32, i32)> {
    seq![
        (5i32, 5i32), (5, 20), (5, 35), (30, 5), (30, 20), (30, 35), (55, 5), (55, 20), (55, 35),
        (10, 5), (20, 5), (30, 5), (40, 5), (50, 5),
        (10, 20), (20, 20), (30, 20), (40, 20), (50, 20),
        (10, 35), (20, 35), (30, 35), (40, 35), (50, 35),
    ]
}

/// A building the district can draw, corner to corner: its corner in
/// `[7, 48) × [7, 28)`, four to eight tiles wider and four to seven taller.
pub open spec fn district_building_drawn(r: (i32, i32, i32, i32)) -> bool {
    &&& 7 <= r.0 < 48
    &&& 7 <= r.1 < 28
    &&& r.0 + 4 <= r.2 <= r.0 + 8
    &&& r.1 + 4 <= r.3 <= r.1 + 7
}

/// Six to eleven buildings the district can draw.
pub open spec fn district_buildings_drawn(rs: Seq<(i32, i32, i32, i32)>) -> bool {
    &&& 6 <= rs.len() < 12
    &&& forall|i: int| 0 <= i < rs.len() ==> district_building_drawn(#[trigger] rs[i])
}

/// A drawn building is built only where it touches no street.
pub open spec fn district_built(r: (i32, i32, i32, i32)) -> bool {
    !spec_overlaps_street(r.0 as int, r.1 as int, r.2 as int, r.3 as int, 60, 40)
}

/// The door of building `r`: the middle of its bottom wall.
pub open spec fn district_door(r: (i32, i32, i32, i32)) -> (int, int) {
    (r.0 + (r.2 - r.0) / 2, r.3 as int)
}

/// Tile `(a, b)` once building `r` is built over `prev`: its inside floored,
/// its door, and a floor path from the door south to the next street.
pub open spec fn district_building_tile(r: (i32, i32, i32, i32), a: int, b: int, prev: TileType) -> TileType {
    let door = district_door(r);
    let sy = spec_nearest_street_south(door.1, 40);
    if in_rect(a, b, door.0, door.1 + 1, door.0, sy - 1) {
        TileType::Floor
    } else if a == door.0 && b == door.1 {
        TileType::Door
    } else if in_rect(a, b, r.0 + 1, r.1 + 1, r.2 - 1, r.3 - 1) {
        TileType::Floor
    } else {
        prev
    }
}

/// The streets with the buildings of `rs` that are built, one after another.
pub open spec fn district_tiles(rs: Seq<(i32, i32, i32, i32)>, a: int, b: int) -> TileType
    decreases rs.len(),
{
    if rs.len() == 0 {
        if district_street(a, b) {
            TileType::Floor
        } else {
            TileType::Wall
        }
    } else {
        let r = rs.last();
        let prev = district_tiles(rs.drop_last(), a, b);
        if district_built(r) {
            district_building_tile(r, a, b, prev)
        } else {
            prev
        }
    }
}

/// The entrances of the buildings of `rs` that are built: door, id from the
/// corner and the seed, and kind (every third drawn, from the second, is a
/// gang hideout).
pub open spec fn district_entrances(rs: Seq<(i32, i32, i32, i32)>, seed: u64) -> Seq<(i32, i32, u64, BuildingKind)>
    decreases rs.len(),
{
    if rs.len() == 0 {
        Seq::empty()
    } else {
        let r = rs.last();
        let before = district_entrances(rs.drop_last(), seed);
        if district_built(r) {
            let door = district_door(r);
            before.push((
                door.0 as i32,
                door.1 as i32,
                spec_building_hash(r.0, r.1, seed),
                if (rs.len() - 1) % 3 == 1 {
                    BuildingKind::GangHideout
                } else {
                    BuildingKind::Generic
                },
            ))
        } else {
            before
        }
    }
}

/// The finished district over buildings `rs`: the entry tile, the boss's
/// building with its door and path, the exit and the way to it, over the
/// streets and buildings.
pub open spec fn district_final_tile(rs: Seq<(i32, i32, i32, i32)>, a: int, b: int) -> TileType {
    if in_rect(a, b, 54, 35, 58, 35) {
        TileType::Floor
    } else if a == 58 && b == 38 {
        TileType::Exit
    } else if in_rect(a, b, 49, 16, 49, 19) {
        TileType::Floor
    } else if a == 49 && b == 15 {
        TileType::Door
    } else if in_rect(a, b, 46, 9, 52, 14) || (a == 5 && b == 39) {
        TileType::Floor
    } else {
        district_tiles(rs, a, b)
    }
}

/// The district as drawn: some six to eleven buildings were drawn, the map is
/// the finished district over them, and the entrances are those of the built
/// ones followed by the boss's.
#[verifier::opaque]
pub open spec fn district_drawn(map: TileMap, entrances: Seq<(i32, i32, u64, BuildingKind)>, seed: u64) -> bool {
    exists|rs: Seq<(i32, i32, i32, i32)>|
        {
            &&& #[trigger] district_buildings_drawn(rs)
            &&& forall|a: int, b: int|
                0 <= a < 60 && 0 <= b < 40 ==> #[trigger] map.spec_tile_at(a, b) == district_final_tile(rs, a, b)
            &&& entrances == district_entrances(rs, seed).push(
                (49i32, 15i32, spec_building_hash(45, 8, seed), BuildingKind::BossHq),
            )
        }
}

/// The invariant of the building loop: the streets stay floor, and each
/// entrance so far is an ordinary building's door inside the map.
spec fn district_streets_kept(map: TileMap, entrances: Seq<(i32, i32, u64, BuildingKind)>) -> bool {
    &&& map.wf()
    &&& map.width == 60
    &&& map.height == 40
    &&& map.exit_pos.is_none()
    &&& forall|a: int, b: int| district_street(a, b) ==> #[trigger] map.spec_tile_at(a, b) == TileType::Floor
    &&& forall|i: int|
        0 <= i < entrances.len() ==> {
            &&& 1 <= #[trigger] entrances[i].0 < 59
            &&& 1 <= entrances[i].1 < 39
            &&& entrances[i].3 != BuildingKind::BossHq
        }
}

/// What every generated district satisfies: the streets are floor; the boss
/// building (interior, door and the path from it to the street) stands where
/// the layout puts it; the exit is in the south-east corner; the boss entrance
/// comes last among the entrances and carries the id derived from its corner.
pub open spec fn district_ok(map: TileMap, info: SpawnInfo, seed: u64) -> bool {
    &&& district_drawn(map, info.entrance_positions@, seed)
    &&& map.wf()
    &&& map.width == 60
    &&& map.height == 40
    &&& forall|a: int, b: int| district_street(a, b) ==> #[trigger] map.spec_tile_at(a, b) == TileType::Floor
    &&& forall|a: int, b: int| in_rect(a, b, 46, 9, 52, 14) ==> #[trigger] map.spec_tile_at(a, b) == TileType::Floor
    &&& map.spec_tile_at(49, 15) == TileType::Door
    &&& forall|b: int| 16 <= b <= 19 ==> #[trigger] map.spec_tile_at(49, b) == TileType::Floor
    &&& map.spec_tile_at(58, 38) == TileType::Exit
    &&& map.exit_pos == Some((58i32, 38i32))
    &&& map.spec_tile_at(5, 39) == TileType::Floor
    &&& info.player_start == (5i32, 37i32)
    &&& map.spec_is_walkable(5, 37)
    &&& info.boss_position == Some((49i32, 10i32))
    &&& 1 <= info.entrance_positions@.len() <= 12
    &&& info.entrance_positions@.last() == (49i32, 15i32, spec_building_hash(45, 8, seed), BuildingKind::BossHq)
    &&& forall|i: int|
        0 <= i < info.entrance_positions@.len() - 1 ==> {
            &&& 1 <= #[trigger] info.entrance_positions@[i].0 < 59
            &&& 1 <= info.entrance_positions@[i].1 < 39
            &&& info.entrance_positions@[i].3 != BuildingKind::BossHq
        }
    &&& sampled_from(map, info.enemy_positions@, 5, 12)
    &&& info.enemy_positions@.len() < 12
    &&& all_walkable(map, info.enemy_positions@)
    &&& sampled_from(map, info.civilian_positions@, 5, 12)
    &&& info.civilian_positions@.len() < 12
    &&& all_walkable(map, info.civilian_positions@)
    &&& info.elite_positions@ == seq![(32i32, 22i32)]
    &&& info.streetlight_positions@ == district_streetlights()
    &&& info.liberator_start.is_none()
    &&& info.guard_positions@.len() == 0
    &&& info.faction_bosses@.len() == 0
    &&& info.job_targets@.len() == 0
    &&& info.general_position.is_none()
    &&& info.tank_position.is_none()
}

/// Floors the inside of the rectangle `[x1, x2] × [y1, y2]`, leaving its border.
fn carve_interior(map: &mut TileMap, x1: i32, y1: i32, x2: i32, y2: i32)
    requires
        old(map).wf(),
        x1 < i32::MAX,
        y1 < i32::MAX,
        x2 > i32::MIN,
        y2 > i32::MIN,
    ensures
        final(map).wf(),
        final(map).width == old(map).width,
        final(map).height == old(map).height,
        final(map).exit_pos == old(map).exit_pos,
        forall|a: int, b: int|
            #[trigger] final(map).spec_tile_at(a, b) == if in_rect(a, b, x1 + 1, y1 + 1, x2 - 1, y2 - 1)
                && old(map).spec_in_bounds(a, b) {
                TileType::Floor
            } else {
                old(map).spec_tile_at(a, b)
            },
{
    map.fill_rect(x1 + 1, y1 + 1, x2 - 1, y2 - 1, TileType::Floor);
}

impl LevelGenerator for DistrictGenerator {
    fn generate(&self, rng: &mut StdRng) -> (res: (TileMap, SpawnInfo))
        ensures
            district_ok(res.0, res.1, self.seed),
    {
        let w: i32 = 60;
        let h: i32 = 40;
        let mut map = TileMap::new(w, h, TileType::Wall);
        let ghost m0 = map;
        // Main streets, two tiles wide.
        map.fill_rect(0, 5, w - 1, 6, TileType::Floor);
        let ghost m1 = map;
        map.fill_rect(0, h / 2, w - 1, h / 2 + 1, TileType::Floor);
        let ghost m2 = map;
        map.fill_rect(0, h - 5, w - 1, h - 4, TileType::Floor);
        let ghost m3 = map;
        map.fill_rect(5, 0, 6, h - 1, TileType::Floor);
        let ghost m4 = map;
        map.fill_rect(w / 2, 0, w / 2 + 1, h - 1, TileType::Floor);
        let ghost m5 = map;
        map.fill_rect(w - 5, 0, w - 4, h - 1, TileType::Floor);
        assert forall|a: int, b: int| 0 <= a < 60 && 0 <= b < 40 implies #[trigger] map.spec_tile_at(a, b)
            == district_tiles(Seq::empty(), a, b) by {
            assert(m0.spec_tile_at(a, b) == TileType::Wall);
            assert(m1.spec_tile_at(a, b) == if in_rect(a, b, 0, 5, 59, 6) { TileType::Floor } else { m0.spec_tile_at(a, b) });
            assert(m2.spec_tile_at(a, b) == if in_rect(a, b, 0, 20, 59, 21) { TileType::Floor } else { m1.spec_tile_at(a, b) });
            assert(m3.spec_tile_at(a, b) == if in_rect(a, b, 0, 35, 59, 36) { TileType::Floor } else { m2.spec_tile_at(a, b) });
            assert(m4.spec_tile_at(a, b) == if in_rect(a, b, 5, 0, 6, 39) { TileType::Floor } else { m3.spec_tile_at(a, b) });
            assert(m5.spec_tile_at(a, b) == if in_rect(a, b, 30, 0, 31, 39) { TileType::Floor } else { m4.spec_tile_at(a, b) });
            assert(map.spec_tile_at(a, b) == if in_rect(a, b, 55, 0, 56, 39) { TileType::Floor } else { m5.spec_tile_at(a, b) });
        }
        assert forall|a: int, b: int| district_street(a, b) implies #[trigger] map.spec_tile_at(a, b)
            == TileType::Floor by {
            assert(m1.spec_tile_at(a, b) == if in_rect(a, b, 0, 5, 59, 6) { TileType::Floor } else { m0.spec_tile_at(a, b) });
            assert(m2.spec_tile_at(a, b) == if in_rect(a, b, 0, 20, 59, 21) { TileType::Floor } else { m1.spec_tile_at(a, b) });
            assert(m3.spec_tile_at(a, b) == if in_rect(a, b, 0, 35, 59, 36) { TileType::Floor } else { m2.spec_tile_at(a, b) });
            assert(m4.spec_tile_at(a, b) == if in_rect(a, b, 5, 0, 6, 39) { TileType::Floor } else { m3.spec_tile_at(a, b) });
            assert(m5.spec_tile_at(a, b) == if in_rect(a, b, 30, 0, 31, 39) { TileType::Floor } else { m4.spec_tile_at(a, b) });
            assert(map.spec_tile_at(a, b) == if in_rect(a, b, 55, 0, 56, 39) { TileType::Floor } else { m5.spec_tile_at(a, b) });
        }

        // Random buildings off the streets, each with a door on its bottom
        // wall and a path south from the door to the next street.
        let building_count: i32 = range_i32(rng, 6, 12);
        let mut entrances: Vec<(i32, i32, u64, BuildingKind)> = Vec::new();
        let mut i: i32 = 0;
        let ghost mut rs: Seq<(i32, i32, i32, i32)> = Seq::empty();
        while i < building_count
            invariant
                0 <= i <= building_count < 12,
                6 <= building_count,
                w == 60 && h == 40,
                entrances@.len() <= i,
                district_streets_kept(map, entrances@),
                rs.len() == i,
                forall|k: int| 0 <= k < rs.len() ==> district_building_drawn(#[trigger] rs[k]),
                forall|a: int, b: int|
                    0 <= a < 60 && 0 <= b < 40 ==> #[trigger] map.spec_tile_at(a, b) == district_tiles(rs, a, b),
                entrances@ == district_entrances(rs, self.seed),
            decreases building_count - i,
        {
            let bx: i32 = range_i32(rng, 7, w - 12);
            let by: i32 = range_i32(rng, 7, h - 12);
            let bw: i32 = range_i32(rng, 4, 9);
            let bh: i32 = range_i32(rng, 4, 8);
            let x2: i32 = if bx + bw < w - 2 { bx + bw } else { w - 2 };
            let y2: i32 = if by + bh < h - 2 { by + bh } else { h - 2 };
            let ghost rs_before = rs;
            let ghost map_before = map;
            let ghost ent_before = entrances@;
            proof {
                rs = rs.push((bx, by, x2, y2));
                assert(rs.drop_last() =~= rs_before);
                assert forall|k: int| 0 <= k < rs.len() implies district_building_drawn(#[trigger] rs[k]) by {
                    if k < rs_before.len() {
                        assert(rs[k] == rs_before[k]);
                    }
                }
            }
            if !overlaps_street(bx, by, x2, y2, w, h) {
                let ghost before = map;
                carve_interior(&mut map, bx, by, x2, y2);
                let ghost carved = map;
                let door_x: i32 = bx + (x2 - bx) / 2;
                let door_y: i32 = y2;
                map.set(door_x, door_y, TileType::Door);
                let ghost doored = map;
                let sy: i32 = nearest_street_south(door_y, h);
                map.fill_rect(door_x, door_y + 1, door_x, sy - 1, TileType::Floor);
                assert forall|a: int, b: int| district_street(a, b) implies #[trigger] map.spec_tile_at(a, b)
                    == TileType::Floor by {
                    assert(before.spec_tile_at(a, b) == TileType::Floor);
                    assert(carved.spec_tile_at(a, b) == TileType::Floor);
                    assert(doored.spec_tile_at(a, b) == TileType::Floor);
                }
                let bid: u64 = building_hash(bx, by, self.seed);
                let kind = if i % 3 == 1 { BuildingKind::GangHideout } else { BuildingKind::Generic };
                entrances.push((door_x, door_y, bid, kind));
                proof {
                    assert(district_built((bx, by, x2, y2)));
                    assert(district_door((bx, by, x2, y2)) == (door_x as int, door_y as int));
                    assert forall|a: int, b: int| 0 <= a < 60 && 0 <= b < 40 implies #[trigger] map.spec_tile_at(a, b)
                        == district_tiles(rs, a, b) by {
                        assert(before.spec_tile_at(a, b) == district_tiles(rs_before, a, b));
                        assert(carved.spec_tile_at(a, b) == if in_rect(a, b, bx + 1, by + 1, x2 - 1, y2 - 1) {
                            TileType::Floor
                        } else {
                            before.spec_tile_at(a, b)
                        });
                        assert(doored.spec_tile_at(a, b) == if a == door_x && b == door_y {
                            TileType::Door
                        } else {
                            carved.spec_tile_at(a, b)
                        });
                    }
                    assert(entrances@ =~= district_entrances(rs, self.seed));
                }
            } else {
                proof {
                    assert(!district_built((bx, by, x2, y2)));
                    assert forall|a: int, b: int| 0 <= a < 60 && 0 <= b < 40 implies #[trigger] map.spec_tile_at(a, b)
                        == district_tiles(rs, a, b) by {
                        assert(map_before.spec_tile_at(a, b) == district_tiles(rs_before, a, b));
                    }
                    assert(entrances@ =~= district_entrances(rs, self.seed));
                }
            }
            i = i + 1;
        }
        let ghost b0 = map;

        // Entry point at the bottom of the left street.
        let entry_x: i32 = 5;
        let entry_y: i32 = h - 1;
        map.set(entry_x, entry_y, TileType::Floor);
        let ghost b1 = map;

        // The mob boss's building: a fixed large room with its door and path.
        let boss_bx: i32 = w - 15;
        let boss_by: i32 = 8;
        let boss_bx2: i32 = w - 7;
        let boss_by2: i32 = 15;
        carve_interior(&mut map, boss_bx, boss_by, boss_bx2, boss_by2);
        let ghost b2 = map;
        let boss_door_x: i32 = boss_bx + (boss_bx2 - boss_bx) / 2;
        let boss_door_y: i32 = boss_by2;
        map.set(boss_door_x, boss_door_y, TileType::Door);
        let ghost b3 = map;
        let sy: i32 = nearest_street_south(boss_door_y, h);
        map.fill_rect(boss_door_x, boss_door_y + 1, boss_door_x, sy - 1, TileType::Floor);
        let ghost b4 = map;
        let boss_bid: u64 = building_hash(boss_bx, boss_by, self.seed);
        entrances.push((boss_door_x, boss_door_y, boss_bid, BuildingKind::BossHq));

        // The sewer exit in the bottom-right corner, joined to the street.
        let exit_x: i32 = w - 2;
        let exit_y: i32 = h - 2;
        map.set(exit_x, exit_y, TileType::Exit);
        let ghost b5 = map;
        map.exit_pos = Some((exit_x, exit_y));
        let ghost b6 = map;
        map.fill_rect(w - 6, h - 5, exit_x, h - 5, TileType::Floor);
        assert forall|a: int, b: int| district_street(a, b) implies #[trigger] map.spec_tile_at(a, b)
            == TileType::Floor by {
            assert(b0.spec_tile_at(a, b) == TileType::Floor);
            assert(b1.spec_tile_at(a, b) == TileType::Floor);
            assert(b2.spec_tile_at(a, b) == TileType::Floor);
            assert(b3.spec_tile_at(a, b) == TileType::Floor);
            assert(b4.spec_tile_at(a, b) == TileType::Floor);
            assert(b5.spec_tile_at(a, b) == TileType::Floor);
            assert(b6.spec_tile_at(a, b) == b5.spec_tile_at(a, b));
        }
        assert forall|a: int, b: int| in_rect(a, b, 46, 9, 52, 14) implies #[trigger] map.spec_tile_at(a, b)
            == TileType::Floor by {
            assert(b2.spec_tile_at(a, b) == TileType::Floor);
            assert(b6.spec_tile_at(a, b) == b5.spec_tile_at(a, b));
        }
        assert forall|b: int| 16 <= b <= 19 implies #[trigger] map.spec_tile_at(49, b) == TileType::Floor by {
            assert(b4.spec_tile_at(49, b) == TileType::Floor);
            assert(b6.spec_tile_at(49, b) == b5.spec_tile_at(49, b));
        }
        assert(b6.spec_tile_at(49, 15) == b5.spec_tile_at(49, 15));
        assert(b6.spec_tile_at(58, 38) == b5.spec_tile_at(58, 38));
        assert(b6.spec_tile_at(5, 39) == b5.spec_tile_at(5, 39));
        assert(district_street(5, 37));
        assert(map.spec_tile_at(5, 37) == TileType::Floor);
        assert forall|a: int, b: int| 0 <= a < 60 && 0 <= b < 40 implies #[trigger] map.spec_tile_at(a, b)
            == district_final_tile(rs, a, b) by {
            assert(b0.spec_tile_at(a, b) == district_tiles(rs, a, b));
            assert(b1.spec_tile_at(a, b) == if a == 5 && b == 39 { TileType::Floor } else { b0.spec_tile_at(a, b) });
            assert(b2.spec_tile_at(a, b) == if in_rect(a, b, 46, 9, 52, 14) { TileType::Floor } else { b1.spec_tile_at(a, b) });
            assert(b3.spec_tile_at(a, b) == if a == 49 && b == 15 { TileType::Door } else { b2.spec_tile_at(a, b) });
            assert(b4.spec_tile_at(a, b) == if in_rect(a, b, 49, 16, 49, 19) { TileType::Floor } else { b3.spec_tile_at(a, b) });
            assert(b5.spec_tile_at(a, b) == if a == 58 && b == 38 { TileType::Exit } else { b4.spec_tile_at(a, b) });
            assert(b6.spec_tile_at(a, b) == b5.spec_tile_at(a, b));
        }
        assert(entrances@ =~= district_entrances(rs, self.seed).push(
            (49i32, 15i32, spec_building_hash(45, 8, self.seed), BuildingKind::BossHq),
        ));
        assert(district_drawn(map, entrances@, self.seed)) by {
            reveal(district_drawn);
            assert(district_buildings_drawn(rs));
        }

        let mut info = SpawnInfo::new((entry_x, h - 3));
        info.boss_position = Some((boss_bx + (boss_bx2 - boss_bx) / 2, boss_by + 2));
        info.entrance_positions = entrances;

        // Enemies and civilians on walkable tiles.
        let enemy_count: usize = range_usize(rng, 5, 12);
        push_walkable_samples(rng, &map, enemy_count, &mut info.enemy_positions);
        proof {
            let d = choose|d: Seq<(i32, i32)>|
                d.len() == enemy_count && inner_draws(map, d) && info.enemy_positions@ == Seq::<(i32, i32)>::empty()
                    + #[trigger] walkable_filter(map, d);
            assert(info.enemy_positions@ =~= walkable_filter(map, d));
            assert(sampled_from(map, info.enemy_positions@, 5, 12)) by {
                reveal(sampled_from);
            }
        }
        let civilian_count: usize = range_usize(rng, 5, 12);
        push_walkable_samples(rng, &map, civilian_count, &mut info.civilian_positions);
        proof {
            let d = choose|d: Seq<(i32, i32)>|
                d.len() == civilian_count && inner_draws(map, d) && info.civilian_positions@ == Seq::<(i32, i32)>::empty()
                    + #[trigger] walkable_filter(map, d);
            assert(info.civilian_positions@ =~= walkable_filter(map, d));
            assert(sampled_from(map, info.civilian_positions@, 5, 12)) by {
                reveal(sampled_from);
            }
        }

        // The lieutenant.
        info.elite_positions.push((w / 2 + 2, h / 2 + 2));

        // Street lamps at the crossings, then along each street row.
        let street_xs: [i32; 3] = [5, w / 2, w - 5];
        let street_ys: [i32; 3] = [5, h / 2, h - 5];
        let mut lights: Vec<(i32, i32)> = Vec::new();
        let mut p: usize = 0;
        while p < 3
            invariant
                p <= 3,
                street_xs@ == seq![5i32, 30, 55],
                street_ys@ == seq![5i32, 20, 35],
                lights@ == district_streetlights().subrange(0, 3 * p as int),
            decreases 3 - p,
        {
            let mut q: usize = 0;
            while q < 3
                invariant
                    p < 3,
                    q <= 3,
                    street_xs@ == seq![5i32, 30, 55],
                    street_ys@ == seq![5i32, 20, 35],
                    lights@ == district_streetlights().subrange(0, 3 * p + q),
                decreases 3 - q,
            {
                lights.push((street_xs[p], street_ys[q]));
                q = q + 1;
            }
            p = p + 1;
        }
        let mut r: usize = 0;
        while r < 3
            invariant
                r <= 3,
                w == 60,
                street_ys@ == seq![5i32, 20, 35],
                lights@ == district_streetlights().subrange(0, 9 + 5 * r),
            decreases 3 - r,
        {
            let mut step: i32 = 10;
            while step < w
                invariant
                    r < 3,
                    w == 60,
                    10 <= step <= 60,
                    step % 10 == 0,
                    street_ys@ == seq![5i32, 20, 35],
                    lights@ == district_streetlights().subrange(0, 9 + 5 * r + (step / 10 - 1)),
                decreases w - step,
            {
                lights.push((step, street_ys[r]));
                step = step + 10;
            }
            r = r + 1;
        }
        assert(lights@ == district_streetlights());
        info.streetlight_positions = lights;
        assert(info.elite_positions@ == seq![(32i32, 22i32)]);
        (map, info)
    }
}

} // verus!
