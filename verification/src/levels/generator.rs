use rand::rngs::StdRng;
use rand::Rng;
use rand::SeedableRng;
use vstd::prelude::*;

use crate::faction::FactionId;
use crate::world::map::{in_rect, TileMap};
use crate::world::tile::TileType;

verus! {

/// The seeded random number generator that drives level generation.
#[verifier::external_type_specification]
#[verifier::external_body]
pub struct ExStdRng(StdRng);

/// A level layout: a tile map and where everything starts on it, drawn with
/// the given generator. Each implementation states what its layout holds.
pub trait LevelGenerator {
    fn generate(&self, rng: &mut StdRng) -> (TileMap, SpawnInfo);
}

/// `Rng::gen_range` on `lo..hi` for `i32`: a value with `lo <= v < hi`
/// (rand panics on an empty range, hence `lo < hi`). Which value comes out
/// depends on the generator's hidden state and is not stated. rand samples
/// `lo..=hi` as `lo..hi + 1`, so inclusive draws go through here too.
#[verifier::external_body]
pub(crate) fn range_i32(rng: &mut StdRng, lo: i32, hi: i32) -> (v: i32)
    requires
        lo < hi,
    ensures
        lo <= v < hi,
{
    rng.gen_range(lo..hi)
}

/// `Rng::gen_ratio(1, 2)`: a fair coin flip (rand samples it exactly as
/// `gen_bool` with probability one half). Which side comes up depends on the
/// generator's hidden state and is not stated.
#[verifier::external_body]
pub(crate) fn coin_flip(rng: &mut StdRng) -> bool {
    rng.gen_ratio(1, 2)
}

/// `Rng::gen_range` on `lo..hi` for `u32`: a value with `lo <= v < hi`
/// (rand panics on an empty range, hence `lo < hi`). Which value comes out
/// depends on the generator's hidden state and is not stated.
#[verifier::external_body]
pub(crate) fn range_u32(rng: &mut StdRng, lo: u32, hi: u32) -> (v: u32)
    requires
        lo < hi,
    ensures
        lo <= v < hi,
{
    rng.gen_range(lo..hi)
}

/// `Rng::gen_range` on `lo..hi` for `usize`: a value with `lo <= v < hi`
/// (rand panics on an empty range, hence `lo < hi`). Which value comes out
/// depends on the generator's hidden state and is not stated. rand samples
/// `lo..=hi` as `lo..hi + 1`, so inclusive draws go through here too.
#[verifier::external_body]
pub(crate) fn range_usize(rng: &mut StdRng, lo: usize, hi: usize) -> (v: usize)
    requires
        lo < hi,
    ensures
        lo <= v < hi,
{
    rng.gen_range(lo..hi)
}

/// A fresh generator seeded with `seed` through `SeedableRng::seed_from_u64`.
#[verifier::external_body]
pub(crate) fn seeded_rng(seed: u64) -> StdRng {
    StdRng::seed_from_u64(seed)
}

/// Every position of `s` is a walkable tile of `map`.
pub open spec fn all_walkable(map: TileMap, s: Seq<(i32, i32)>) -> bool {
    forall|i: int| 0 <= i < s.len() ==> #[trigger] map.spec_is_walkable(s[i].0 as int, s[i].1 as int)
}

/// Every position of `s` lies in the rectangle `[x1, x2) × [y1, y2)`.
pub open spec fn all_within(s: Seq<(i32, i32)>, x1: int, y1: int, x2: int, y2: int) -> bool {
    forall|i: int| 0 <= i < s.len() ==> x1 <= #[trigger] s[i].0 < x2 && y1 <= s[i].1 < y2
}

/// The tile a walled room with corners `(x1, y1)` and `(x2, y2)` puts at
/// `(a, b)`: wall on its border, floor inside, `prev` elsewhere.
pub open spec fn walled_tile(a: int, b: int, x1: int, y1: int, x2: int, y2: int, prev: TileType) -> TileType {
    if in_rect(a, b, x1, y1, x2, y2) {
        if in_rect(a, b, x1 + 1, y1 + 1, x2 - 1, y2 - 1) {
            TileType::Floor
        } else {
            TileType::Wall
        }
    } else {
        prev
    }
}

/// The tile carving a walled room over corners `(x1, y1)` and `(x2, y2)`
/// leaves at `(a, b)`: the rectangle is floored, then walls are laid along
/// its top and bottom rows and its left and right columns (when the corners
/// are the wrong way round, only the walls whose span is not empty appear).
pub open spec fn carved_room_tile(a: int, b: int, x1: int, y1: int, x2: int, y2: int, prev: TileType) -> TileType {
    if in_rect(a, b, x1, y1, x2, y1) || in_rect(a, b, x1, y2, x2, y2) || in_rect(a, b, x1, y1, x1, y2) || in_rect(
        a,
        b,
        x2,
        y1,
        x2,
        y2,
    ) {
        TileType::Wall
    } else if in_rect(a, b, x1, y1, x2, y2) {
        TileType::Floor
    } else {
        prev
    }
}

/// Carves a walled room: floor inside the rectangle, walls on its border.
pub fn carve_walled_room(map: &mut TileMap, x1: i32, y1: i32, x2: i32, y2: i32)
    requires
        old(map).wf(),
    ensures
        final(map).wf(),
        final(map).width == old(map).width,
        final(map).height == old(map).height,
        final(map).exit_pos == old(map).exit_pos,
        forall|a: int, b: int|
            #[trigger] final(map).spec_tile_at(a, b) == if old(map).spec_in_bounds(a, b) {
                carved_room_tile(a, b, x1 as int, y1 as int, x2 as int, y2 as int, old(map).spec_tile_at(a, b))
            } else {
                old(map).spec_tile_at(a, b)
            },
        x1 <= x2 && y1 <= y2 ==> forall|a: int, b: int|
            #[trigger] final(map).spec_tile_at(a, b) == if old(map).spec_in_bounds(a, b) {
                walled_tile(a, b, x1 as int, y1 as int, x2 as int, y2 as int, old(map).spec_tile_at(a, b))
            } else {
                old(map).spec_tile_at(a, b)
            },
{
    let ghost m0 = *map;
    map.fill_rect(x1, y1, x2, y2, TileType::Floor);
    let ghost m1 = *map;
    map.fill_rect(x1, y1, x2, y1, TileType::Wall);
    let ghost m2 = *map;
    map.fill_rect(x1, y2, x2, y2, TileType::Wall);
    let ghost m3 = *map;
    map.fill_rect(x1, y1, x1, y2, TileType::Wall);
    let ghost m4 = *map;
    map.fill_rect(x2, y1, x2, y2, TileType::Wall);
    assert forall|a: int, b: int| #[trigger] map.spec_tile_at(a, b) == if m0.spec_in_bounds(a, b) {
        carved_room_tile(a, b, x1 as int, y1 as int, x2 as int, y2 as int, m0.spec_tile_at(a, b))
    } else {
        m0.spec_tile_at(a, b)
    } by {
        assert(m1.spec_tile_at(a, b) == if in_rect(a, b, x1 as int, y1 as int, x2 as int, y2 as int)
            && m0.spec_in_bounds(a, b) { TileType::Floor } else { m0.spec_tile_at(a, b) });
        assert(m2.spec_tile_at(a, b) == if in_rect(a, b, x1 as int, y1 as int, x2 as int, y1 as int)
            && m0.spec_in_bounds(a, b) { TileType::Wall } else { m1.spec_tile_at(a, b) });
        assert(m3.spec_tile_at(a, b) == if in_rect(a, b, x1 as int, y2 as int, x2 as int, y2 as int)
            && m0.spec_in_bounds(a, b) { TileType::Wall } else { m2.spec_tile_at(a, b) });
        assert(m4.spec_tile_at(a, b) == if in_rect(a, b, x1 as int, y1 as int, x1 as int, y2 as int)
            && m0.spec_in_bounds(a, b) { TileType::Wall } else { m3.spec_tile_at(a, b) });
        assert(map.spec_tile_at(a, b) == if in_rect(a, b, x2 as int, y1 as int, x2 as int, y2 as int)
            && m0.spec_in_bounds(a, b) { TileType::Wall } else { m4.spec_tile_at(a, b) });
    }
    assert forall|a: int, b: int| x1 <= x2 && y1 <= y2 implies carved_room_tile(
        a,
        b,
        x1 as int,
        y1 as int,
        x2 as int,
        y2 as int,
        #[trigger] m0.spec_tile_at(a, b),
    ) == walled_tile(a, b, x1 as int, y1 as int, x2 as int, y2 as int, m0.spec_tile_at(a, b)) by {}
}

/// The walkable positions among `draws`, in order.
pub open spec fn walkable_filter(map: TileMap, draws: Seq<(i32, i32)>) -> Seq<(i32, i32)>
    decreases draws.len(),
{
    if draws.len() == 0 {
        Seq::empty()
    } else {
        let before = walkable_filter(map, draws.drop_last());
        let d = draws.last();
        if map.spec_is_walkable(d.0 as int, d.1 as int) {
            before.push(d)
        } else {
            before
        }
    }
}

/// Every position of `draws` lies strictly inside the border of `map`.
pub open spec fn inner_draws(map: TileMap, draws: Seq<(i32, i32)>) -> bool {
    forall|i: int|
        0 <= i < draws.len() ==> 1 <= #[trigger] draws[i].0 < map.width - 1 && 1 <= draws[i].1 < map.height - 1
}

/// `s` is what drawing between `lo` and `hi` (excluded) positions inside the
/// border of `map` and keeping the walkable ones, in order, can give.
#[verifier::opaque]
pub open spec fn sampled_from(map: TileMap, s: Seq<(i32, i32)>, lo: int, hi: int) -> bool {
    exists|draws: Seq<(i32, i32)>|
        lo <= draws.len() < hi && inner_draws(map, draws) && s == #[trigger] walkable_filter(map, draws)
}

/// Draws `count` candidate positions inside the map's border, x first, and
/// appends the walkable ones to `out`, in the order drawn.
pub fn push_walkable_samples(rng: &mut StdRng, map: &TileMap, count: usize, out: &mut Vec<(i32, i32)>)
    requires
        map.wf(),
        map.width >= 3,
        map.height >= 3,
        all_walkable(*map, old(out)@),
    ensures
        exists|draws: Seq<(i32, i32)>|
            draws.len() == count && inner_draws(*map, draws) && final(out)@ == old(out)@ + #[trigger] walkable_filter(
                *map,
                draws,
            ),
        all_walkable(*map, final(out)@),
        old(out)@.len() <= final(out)@.len() <= old(out)@.len() + count,
        final(out)@.subrange(0, old(out)@.len() as int) == old(out)@,
{
    let ghost start = out@;
    let ghost mut draws: Seq<(i32, i32)> = Seq::empty();
    let mut i: usize = 0;
    while i < count
        invariant
            map.wf(),
            map.width >= 3,
            map.height >= 3,
            i <= count,
            draws.len() == i,
            inner_draws(*map, draws),
            out@ == start + walkable_filter(*map, draws),
            all_walkable(*map, out@),
            start.len() <= out@.len() <= start.len() + i,
            out@.subrange(0, start.len() as int) == start,
        decreases count - i,
    {
        let x: i32 = range_i32(rng, 1, map.width - 1);
        let y: i32 = range_i32(rng, 1, map.height - 1);
        let ghost before = draws;
        proof {
            draws = draws.push((x, y));
            assert(draws.drop_last() =~= before);
            assert forall|k: int| 0 <= k < draws.len() implies 1 <= #[trigger] draws[k].0 < map.width - 1 && 1
                <= draws[k].1 < map.height - 1 by {
                if k < before.len() {
                    assert(draws[k] == before[k]);
                }
            }
        }
        if map.is_walkable(x, y) {
            out.push((x, y));
            proof {
                assert(out@ =~= start + walkable_filter(*map, draws));
            }
        }
        i = i + 1;
    }
}

/// What kind of building interior to generate.
#[derive(Clone, Copy, Debug, PartialEq, Eq, Structural)]
pub enum BuildingKind {
    Generic,
    GangHideout,
    BossHq,
}

/// The compact code of a building kind.
pub open spec fn spec_kind_code(k: BuildingKind) -> u8 {
    match k {
        BuildingKind::Generic => 0,
        BuildingKind::GangHideout => 1,
        BuildingKind::BossHq => 2,
    }
}

/// The building kind a code stands for; unknown codes are generic buildings.
pub open spec fn spec_kind_from_code(code: u8) -> BuildingKind {
    if code == 1 {
        BuildingKind::GangHideout
    } else if code == 2 {
        BuildingKind::BossHq
    } else {
        BuildingKind::Generic
    }
}

impl BuildingKind {
    /// Compact representation stored in a pending level change.
    pub fn to_code(self) -> (c: u8)
        ensures
            c == spec_kind_code(self),
    {
        match self {
            BuildingKind::Generic => 0,
            BuildingKind::GangHideout => 1,
            BuildingKind::BossHq => 2,
        }
    }

    /// The kind a code stands for; codes other than 1 and 2 give `Generic`.
    pub fn from_code(code: u8) -> (k: Self)
        ensures
            k == spec_kind_from_code(code),
    {
        match code {
            1 => BuildingKind::GangHideout,
            2 => BuildingKind::BossHq,
            _ => BuildingKind::Generic,
        }
    }
}

/// Decoding the code of a kind gives the kind back.
pub proof fn law_kind_code_round_trip(k: BuildingKind)
    ensures
        spec_kind_from_code(spec_kind_code(k)) == k,
{
}

/// Encoding the kind of a valid code (0, 1 or 2) gives the code back.
pub proof fn law_code_kind_round_trip(code: u8)
    requires
        code <= 2,
    ensures
        spec_kind_code(spec_kind_from_code(code)) == code,
{
}

/// Where things start in a generated level.
pub struct SpawnInfo {
    pub player_start: (i32, i32),
    pub liberator_start: Option<(i32, i32)>,
    pub guard_positions: Vec<(i32, i32)>,
    pub enemy_positions: Vec<(i32, i32)>,
    pub elite_positions: Vec<(i32, i32)>,
    /// Single boss position of a district or building level.
    pub boss_position: Option<(i32, i32)>,
    pub civilian_positions: Vec<(i32, i32)>,
    /// Street lamp positions.
    pub streetlight_positions: Vec<(i32, i32)>,
    /// (door_x, door_y, building_id, kind) for each enterable building.
    pub entrance_positions: Vec<(i32, i32, u64, BuildingKind)>,
    /// Faction boss spawn positions: (x, y, faction).
    pub faction_bosses: Vec<(i32, i32, FactionId)>,
    /// Job-target spawn positions: (x, y, faction).
    pub job_targets: Vec<(i32, i32, FactionId)>,
    /// General Marak's spawn position in the Fortress zone.
    pub general_position: Option<(i32, i32)>,
    /// The tank sub-boss guarding the General.
    pub tank_position: Option<(i32, i32)>,
}

impl SpawnInfo {
    /// Spawn information with only the player start set.
    pub fn new(player_start: (i32, i32)) -> (s: Self)
        ensures
            s.player_start == player_start,
            s.liberator_start.is_none(),
            s.guard_positions@.len() == 0,
            s.enemy_positions@.len() == 0,
            s.elite_positions@.len() == 0,
            s.boss_position.is_none(),
            s.civilian_positions@.len() == 0,
            s.streetlight_positions@.len() == 0,
            s.entrance_positions@.len() == 0,
            s.faction_bosses@.len() == 0,
            s.job_targets@.len() == 0,
            s.general_position.is_none(),
            s.tank_position.is_none(),
    {
        SpawnInfo {
            player_start,
            liberator_start: None,
            guard_positions: Vec::new(),
            enemy_positions: Vec::new(),
            elite_positions: Vec::new(),
            boss_position: None,
            civilian_positions: Vec::new(),
            streetlight_positions: Vec::new(),
            entrance_positions: Vec::new(),
            faction_bosses: Vec::new(),
            job_targets: Vec::new(),
            general_position: None,
            tank_position: None,
        }
    }
}

/// The building id of the district block at `(bx, by)` under `seed`: the seed
/// mixed with both coordinates (sign-extended to 64 bits) by wrapping
/// multiplication, then finalised with two xor-shift-multiply rounds.
pub open spec fn spec_building_hash(bx: i32, by: i32, seed: u64) -> u64 {
    let h1 = seed ^ vstd::wrapping::u64_specs::wrapping_mul(bx as u64, 2_654_435_761u64);
    let h2 = h1 ^ vstd::wrapping::u64_specs::wrapping_mul(by as u64, 2_246_822_519u64);
    let h3 = h2 ^ (h2 >> 33u64);
    let h4 = vstd::wrapping::u64_specs::wrapping_mul(h3, 0xff51afd7ed558ccdu64);
    h4 ^ (h4 >> 33u64)
}

/// Wrapping multiplication by `c` is undone by wrapping multiplication by
/// `inv` when `c * inv` is one more than a multiple of 2^64, so it never maps
/// two values to one.
proof fn lemma_wrapping_mul_injective(x: u64, y: u64, c: u64, inv: nat, k: nat)
    requires
        c * inv == 1 + k * 0x1_0000_0000_0000_0000,
        vstd::wrapping::u64_specs::wrapping_mul(x, c) == vstd::wrapping::u64_specs::wrapping_mul(y, c),
    ensures
        x == y,
{
    let m: int = 0x1_0000_0000_0000_0000;
    assert forall|z: u64| #[trigger] (((z as int * c as int) % m) * inv as int) % m == z as int by {
        vstd::arithmetic::div_mod::lemma_mul_mod_noop_left(z as int * c as int, inv as int, m);
        assert(z as int * c as int * inv as int == z as int + (z as int * k as int) * m) by (nonlinear_arith)
            requires
                c * inv == 1 + k * m,
        ;
        vstd::arithmetic::div_mod::lemma_mod_multiples_vanish(z as int * k as int, z as int, m);
        vstd::arithmetic::div_mod::lemma_small_mod(z as nat, m as nat);
        assert((z as int * k as int) * m + z as int == z as int + (z as int * k as int) * m);
    }
    assert((((x as int * c as int) % m) * inv as int) % m == x as int);
    assert((((y as int * c as int) % m) * inv as int) % m == y as int);
    assert((x as nat * c as nat) % (m as nat) == (x as int * c as int) % m);
    assert((y as nat * c as nat) % (m as nat) == (y as int * c as int) % m);
}

/// The finalising rounds of the building hash never map two values to one.
proof fn lemma_hash_finaliser_injective(a: u64, b: u64)
    requires
        ({
            let a4 = vstd::wrapping::u64_specs::wrapping_mul(a ^ (a >> 33u64), 0xff51afd7ed558ccdu64);
            let b4 = vstd::wrapping::u64_specs::wrapping_mul(b ^ (b >> 33u64), 0xff51afd7ed558ccdu64);
            a4 ^ (a4 >> 33u64) == b4 ^ (b4 >> 33u64)
        }),
    ensures
        a == b,
{
    let a3 = a ^ (a >> 33u64);
    let b3 = b ^ (b >> 33u64);
    let a4 = vstd::wrapping::u64_specs::wrapping_mul(a3, 0xff51afd7ed558ccdu64);
    let b4 = vstd::wrapping::u64_specs::wrapping_mul(b3, 0xff51afd7ed558ccdu64);
    assert(a4 ^ (a4 >> 33u64) == b4 ^ (b4 >> 33u64) ==> a4 == b4) by (bit_vector);
    lemma_wrapping_mul_injective(a3, b3, 0xff51afd7ed558ccdu64, 5725274745694666757, 5710046619856821070);
    assert(a ^ (a >> 33u64) == b ^ (b >> 33u64) ==> a == b) by (bit_vector);
}

/// Changing exactly one of the block's column, its row or the seed changes
/// the building id: two blocks in one row or one column, or one block under
/// two seeds, never share an id.
pub proof fn law_building_hash_one_argument_changes(bx1: i32, by1: i32, seed1: u64, bx2: i32, by2: i32, seed2: u64)
    requires
        (seed1 != seed2 && bx1 == bx2 && by1 == by2) || (bx1 != bx2 && by1 == by2 && seed1 == seed2) || (by1 != by2
            && bx1 == bx2 && seed1 == seed2),
    ensures
        spec_building_hash(bx1, by1, seed1) != spec_building_hash(bx2, by2, seed2),
{
    let xa1 = vstd::wrapping::u64_specs::wrapping_mul(bx1 as u64, 2_654_435_761u64);
    let xa2 = vstd::wrapping::u64_specs::wrapping_mul(bx2 as u64, 2_654_435_761u64);
    let ya1 = vstd::wrapping::u64_specs::wrapping_mul(by1 as u64, 2_246_822_519u64);
    let ya2 = vstd::wrapping::u64_specs::wrapping_mul(by2 as u64, 2_246_822_519u64);
    let h1 = seed1 ^ xa1 ^ ya1;
    let h2 = seed2 ^ xa2 ^ ya2;
    if bx1 != bx2 {
        let u1 = bx1 as u64;
        let u2 = bx2 as u64;
        assert(bx1 != bx2 ==> u1 != u2) by (bit_vector)
            requires
                u1 == bx1 as u64,
                u2 == bx2 as u64,
        ;
        if xa1 == xa2 {
            lemma_wrapping_mul_injective(u1, u2, 2_654_435_761u64, 14962265741255716689, 2153028908);
        }
    }
    if by1 != by2 {
        let u1 = by1 as u64;
        let u2 = by2 as u64;
        assert(by1 != by2 ==> u1 != u2) by (bit_vector)
            requires
                u1 == by1 as u64,
                u2 == by2 as u64,
        ;
        if ya1 == ya2 {
            lemma_wrapping_mul_injective(u1, u2, 2_246_822_519u64, 6479506541917056839, 789207090);
        }
    }
    assert((seed1 != seed2 || xa1 != xa2 || ya1 != ya2) && ((seed1 == seed2 && xa1 == xa2) || (seed1 == seed2
        && ya1 == ya2) || (xa1 == xa2 && ya1 == ya2)) ==> seed1 ^ xa1 ^ ya1 != seed2 ^ xa2 ^ ya2) by (bit_vector);
    if spec_building_hash(bx1, by1, seed1) == spec_building_hash(bx2, by2, seed2) {
        lemma_hash_finaliser_injective(h1, h2);
    }
}

/// Deterministic building id derived from a district block position and the
/// level seed: the same position and seed always give the same id.
pub fn building_hash(bx: i32, by: i32, seed: u64) -> (h: u64)
    ensures
        h == spec_building_hash(bx, by, seed),
{
    let mut h = seed;
    h ^= (bx as u64).wrapping_mul(2_654_435_761);
    h ^= (by as u64).wrapping_mul(2_246_822_519);
    h ^= h >> 33;
    h = h.wrapping_mul(0xff51afd7ed558ccd);
    h ^= h >> 33;
    h
}

} // verus!
