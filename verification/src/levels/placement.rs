//! Turning a generated level into concrete spawns: snapping each spawn point to
//! the nearest walkable tile, the population count of a fresh level, and the
//! distance rule that puts far-away creatures to sleep.

use vstd::prelude::*;

use rand::rngs::StdRng;

use super::district::{district_ok, DistrictGenerator};
use super::generator::{all_walkable, all_within, range_i32, range_usize, seeded_rng, LevelGenerator, SpawnInfo};
use super::hub::{HUB_H, HUB_W};
use super::world::HUB_OFFSET_X;
use crate::faction::FactionId;
use crate::movement::GridPos;
use crate::quest::QuestState;
use crate::world::map::TileMap;

verus! {

/// How far, in rings around a spawn point, a walkable tile is searched for.
pub const NEAR_RADIUS: i32 = 5;

/// Absolute value.
pub open spec fn abs(v: int) -> int {
    if v < 0 {
        -v
    } else {
        v
    }
}

/// Chebyshev (king-move) distance between two grid positions.
pub open spec fn chebyshev(ax: int, ay: int, bx: int, by: int) -> int {
    if abs(ax - bx) >= abs(ay - by) {
        abs(ax - bx)
    } else {
        abs(ay - by)
    }
}

/// Whether the offset `(dx1, dy1)` is searched before `(dx2, dy2)`: nearer
/// rings first, and within a ring by column, then by row.
pub open spec fn searched_before(dx1: int, dy1: int, dx2: int, dy2: int) -> bool {
    let r1 = chebyshev(dx1, dy1, 0, 0);
    let r2 = chebyshev(dx2, dy2, 0, 0);
    r1 < r2 || (r1 == r2 && (dx1 < dx2 || (dx1 == dx2 && dy1 < dy2)))
}

/// `p` is the walkable tile within five rings of `(x, y)` that the search
/// reaches first.
pub open spec fn is_nearest_walkable(map: TileMap, x: int, y: int, p: (i32, i32)) -> bool {
    &&& map.spec_is_walkable(p.0 as int, p.1 as int)
    &&& chebyshev(p.0 as int, p.1 as int, x, y) <= 5
    &&& forall|qx: int, qy: int|
        chebyshev(qx, qy, x, y) <= 5 && #[trigger] map.spec_is_walkable(qx, qy) ==> !searched_before(
            qx - x,
            qy - y,
            p.0 - x,
            p.1 - y,
        )
}

/// The walkable tile nearest to `(x, y)` within five rings, if any.
pub open spec fn spec_find_walkable_near(map: TileMap, x: int, y: int) -> Option<(i32, i32)> {
    if exists|p: (i32, i32)| is_nearest_walkable(map, x, y, p) {
        Some(choose|p: (i32, i32)| is_nearest_walkable(map, x, y, p))
    } else {
        None
    }
}

/// Two positions that both come first in the search are the same position.
proof fn lemma_nearest_unique(map: TileMap, x: int, y: int, p: (i32, i32), q: (i32, i32))
    requires
        is_nearest_walkable(map, x, y, p),
        is_nearest_walkable(map, x, y, q),
    ensures
        p == q,
{
    assert(!searched_before(q.0 - x, q.1 - y, p.0 - x, p.1 - y));
    assert(!searched_before(p.0 - x, p.1 - y, q.0 - x, q.1 - y));
}

/// Searches outward from `(x, y)`, ring by ring up to radius 5, for the first
/// walkable tile: the spawn point itself if it is walkable.
pub fn find_walkable_near(map: &TileMap, x: i32, y: i32) -> (res: Option<(i32, i32)>)
    requires
        map.wf(),
        i32::MIN + 5 <= x <= i32::MAX - 5,
        i32::MIN + 5 <= y <= i32::MAX - 5,
    ensures
        res == spec_find_walkable_near(*map, x as int, y as int),
        res is None <==> forall|qx: int, qy: int|
            chebyshev(qx, qy, x as int, y as int) <= 5 ==> !#[trigger] map.spec_is_walkable(qx, qy),
{
    if map.is_walkable(x, y) {
        let p = (x, y);
        assert forall|qx: int, qy: int|
            chebyshev(qx, qy, x as int, y as int) <= 5 && #[trigger] map.spec_is_walkable(qx, qy) implies !searched_before(
            qx - x,
            qy - y,
            p.0 - x,
            p.1 - y,
        ) by {}
        proof {
            assert(is_nearest_walkable(*map, x as int, y as int, p));
            let c = choose|q: (i32, i32)| is_nearest_walkable(*map, x as int, y as int, q);
            lemma_nearest_unique(*map, x as int, y as int, p, c);
        }
        return Some(p);
    }
    let mut r: i32 = 1;
    while r <= 5
        invariant
            1 <= r <= 6,
            map.wf(),
            i32::MIN + 5 <= x <= i32::MAX - 5,
            i32::MIN + 5 <= y <= i32::MAX - 5,
            forall|qx: int, qy: int|
                chebyshev(qx, qy, x as int, y as int) < r ==> !#[trigger] map.spec_is_walkable(qx, qy),
        decreases 6 - r,
    {
        let mut dx: i32 = -r;
        while dx <= r
            invariant
                1 <= r <= 5,
                -r <= dx <= r + 1,
                map.wf(),
                i32::MIN + 5 <= x <= i32::MAX - 5,
                i32::MIN + 5 <= y <= i32::MAX - 5,
                forall|qx: int, qy: int|
                    (chebyshev(qx, qy, x as int, y as int) < r || (chebyshev(qx, qy, x as int, y as int) == r && qx
                        - x < dx)) ==> !#[trigger] map.spec_is_walkable(qx, qy),
            decreases r + 1 - dx,
        {
            let mut dy: i32 = -r;
            while dy <= r
                invariant
                    1 <= r <= 5,
                    -r <= dx <= r,
                    -r <= dy <= r + 1,
                    map.wf(),
                    i32::MIN + 5 <= x <= i32::MAX - 5,
                    i32::MIN + 5 <= y <= i32::MAX - 5,
                    forall|qx: int, qy: int|
                        (chebyshev(qx, qy, x as int, y as int) < r || (chebyshev(qx, qy, x as int, y as int) == r && (
                        qx - x < dx || (qx - x == dx && qy - y < dy)))) ==> !#[trigger] map.spec_is_walkable(qx, qy),
                decreases r + 1 - dy,
            {
                let adx: i32 = if dx < 0 { -dx } else { dx };
                let ady: i32 = if dy < 0 { -dy } else { dy };
                if adx == r || ady == r {
                    let nx: i32 = x + dx;
                    let ny: i32 = y + dy;
                    if map.is_walkable(nx, ny) {
                        let p = (nx, ny);
                        assert(chebyshev(nx as int, ny as int, x as int, y as int) == r);
                        assert forall|qx: int, qy: int|
                            chebyshev(qx, qy, x as int, y as int) <= 5 && #[trigger] map.spec_is_walkable(
                                qx,
                                qy,
                            ) implies !searched_before(qx - x, qy - y, p.0 - x, p.1 - y) by {}
                        proof {
                            assert(is_nearest_walkable(*map, x as int, y as int, p));
                            let c = choose|q: (i32, i32)| is_nearest_walkable(*map, x as int, y as int, q);
                            lemma_nearest_unique(*map, x as int, y as int, p, c);
                        }
                        return Some(p);
                    }
                }
                dy = dy + 1;
            }
            dx = dx + 1;
        }
        r = r + 1;
    }
    proof {
        if exists|p: (i32, i32)| is_nearest_walkable(*map, x as int, y as int, p) {
            let p = choose|p: (i32, i32)| is_nearest_walkable(*map, x as int, y as int, p);
            assert(map.spec_is_walkable(p.0 as int, p.1 as int));
        }
    }
    None
}

/// The spawn point of every entry of `s` that has a walkable tile nearby,
/// snapped to that tile, in order; entries with none are dropped.
pub open spec fn snapped(map: TileMap, s: Seq<(i32, i32)>) -> Seq<(i32, i32)>
    decreases s.len(),
{
    if s.len() == 0 {
        Seq::empty()
    } else {
        let rest = snapped(map, s.drop_last());
        match spec_find_walkable_near(map, s.last().0 as int, s.last().1 as int) {
            Some(p) => rest.push(p),
            None => rest,
        }
    }
}

/// `snapped` for tagged spawn points; the tag stays with its point.
pub open spec fn snapped_tagged(map: TileMap, s: Seq<(i32, i32, FactionId)>) -> Seq<(i32, i32, FactionId)>
    decreases s.len(),
{
    if s.len() == 0 {
        Seq::empty()
    } else {
        let rest = snapped_tagged(map, s.drop_last());
        match spec_find_walkable_near(map, s.last().0 as int, s.last().1 as int) {
            Some(p) => rest.push((p.0, p.1, s.last().2)),
            None => rest,
        }
    }
}

/// Every spawn point is far enough from the edge of `i32` for the search.
pub open spec fn points_searchable(s: Seq<(i32, i32)>) -> bool {
    forall|i: int|
        0 <= i < s.len() ==> i32::MIN + 5 <= #[trigger] s[i].0 <= i32::MAX - 5 && i32::MIN + 5 <= s[i].1 <= i32::MAX
            - 5
}

/// Every tagged spawn point is far enough from the edge of `i32` for the search.
pub open spec fn tagged_searchable(s: Seq<(i32, i32, FactionId)>) -> bool {
    forall|i: int|
        0 <= i < s.len() ==> i32::MIN + 5 <= #[trigger] s[i].0 <= i32::MAX - 5 && i32::MIN + 5 <= s[i].1 <= i32::MAX
            - 5
}

/// The position, if any, is far enough from the edge of `i32` for the search.
pub open spec fn opt_searchable(p: Option<(i32, i32)>) -> bool {
    match p {
        Some(q) => i32::MIN + 5 <= q.0 <= i32::MAX - 5 && i32::MIN + 5 <= q.1 <= i32::MAX - 5,
        None => true,
    }
}

/// Snaps every spawn point of `src` to its nearest walkable tile.
pub fn snap_all(map: &TileMap, src: &Vec<(i32, i32)>) -> (out: Vec<(i32, i32)>)
    requires
        map.wf(),
        points_searchable(src@),
    ensures
        out@ == snapped(*map, src@),
{
    let mut out: Vec<(i32, i32)> = Vec::new();
    let mut i: usize = 0;
    while i < src.len()
        invariant
            map.wf(),
            i <= src@.len(),
            points_searchable(src@),
            out@ == snapped(*map, src@.subrange(0, i as int)),
        decreases src@.len() - i,
    {
        let (x, y) = src[i];
        let near = find_walkable_near(map, x, y);
        proof {
            let s = src@.subrange(0, i + 1);
            assert(s.drop_last() == src@.subrange(0, i as int));
            assert(s.last() == src@[i as int]);
        }
        if let Some(p) = near {
            out.push(p);
        }
        i = i + 1;
    }
    assert(src@.subrange(0, src@.len() as int) == src@);
    out
}

/// Snaps every tagged spawn point of `src` to its nearest walkable tile.
pub fn snap_all_tagged(map: &TileMap, src: &Vec<(i32, i32, FactionId)>) -> (out: Vec<(i32, i32, FactionId)>)
    requires
        map.wf(),
        tagged_searchable(src@),
    ensures
        out@ == snapped_tagged(*map, src@),
{
    let mut out: Vec<(i32, i32, FactionId)> = Vec::new();
    let mut i: usize = 0;
    while i < src.len()
        invariant
            map.wf(),
            i <= src@.len(),
            tagged_searchable(src@),
            out@ == snapped_tagged(*map, src@.subrange(0, i as int)),
        decreases src@.len() - i,
    {
        let (x, y, fid) = src[i];
        let near = find_walkable_near(map, x, y);
        proof {
            let s = src@.subrange(0, i + 1);
            assert(s.drop_last() == src@.subrange(0, i as int));
            assert(s.last() == src@[i as int]);
        }
        if let Some(p) = near {
            out.push((p.0, p.1, fid));
        }
        i = i + 1;
    }
    assert(src@.subrange(0, src@.len() as int) == src@);
    out
}

/// Where every creature of a fresh level is actually placed.
pub struct SpawnPlan {
    pub guards: Vec<(i32, i32)>,
    pub enemies: Vec<(i32, i32)>,
    pub elites: Vec<(i32, i32)>,
    pub faction_bosses: Vec<(i32, i32, FactionId)>,
    /// General Marak, if a walkable tile was found near his spawn point.
    pub general: Option<(i32, i32)>,
    /// The tank, placed only together with the General.
    pub tank: Option<(i32, i32)>,
    pub job_targets: Vec<(i32, i32, FactionId)>,
    pub civilians: Vec<(i32, i32)>,
    /// Starting population: enemies, elites and civilians as generated (jail
    /// guards are not counted).
    pub population: i32,
}

/// The General is placed if a tile near his point is walkable; the tank only
/// with him, near its own point.
pub open spec fn spec_fortress_placement(map: TileMap, general: Option<(i32, i32)>, tank: Option<(i32, i32)>) -> (
    Option<(i32, i32)>,
    Option<(i32, i32)>,
) {
    match general {
        Some(g) => match spec_find_walkable_near(map, g.0 as int, g.1 as int) {
            Some(gp) => (
                Some(gp),
                match tank {
                    Some(t) => spec_find_walkable_near(map, t.0 as int, t.1 as int),
                    None => None,
                },
            ),
            None => (None, None),
        },
        None => (None, None),
    }
}

/// The starting population of a level: its enemies, elites and civilians.
pub open spec fn spec_initial_population(info: SpawnInfo) -> i32 {
    (info.enemy_positions@.len() + info.elite_positions@.len() + info.civilian_positions@.len()) as i32
}

/// Snaps every spawn point of a generated level to a walkable tile and counts
/// the starting population.
pub fn plan_spawns(map: &TileMap, info: &SpawnInfo) -> (plan: SpawnPlan)
    requires
        map.wf(),
        points_searchable(info.guard_positions@),
        points_searchable(info.enemy_positions@),
        points_searchable(info.elite_positions@),
        points_searchable(info.civilian_positions@),
        tagged_searchable(info.faction_bosses@),
        tagged_searchable(info.job_targets@),
        opt_searchable(info.general_position),
        opt_searchable(info.tank_position),
        info.enemy_positions@.len() + info.elite_positions@.len() + info.civilian_positions@.len() <= usize::MAX,
    ensures
        plan.guards@ == snapped(*map, info.guard_positions@),
        plan.enemies@ == snapped(*map, info.enemy_positions@),
        plan.elites@ == snapped(*map, info.elite_positions@),
        plan.faction_bosses@ == snapped_tagged(*map, info.faction_bosses@),
        (plan.general, plan.tank) == spec_fortress_placement(*map, info.general_position, info.tank_position),
        plan.job_targets@ == snapped_tagged(*map, info.job_targets@),
        plan.civilians@ == snapped(*map, info.civilian_positions@),
        plan.population == spec_initial_population(*info),
{
    let guards = snap_all(map, &info.guard_positions);
    let enemies = snap_all(map, &info.enemy_positions);
    let elites = snap_all(map, &info.elite_positions);
    let faction_bosses = snap_all_tagged(map, &info.faction_bosses);
    let mut general: Option<(i32, i32)> = None;
    let mut tank: Option<(i32, i32)> = None;
    if let Some((gx, gy)) = info.general_position {
        if let Some(gp) = find_walkable_near(map, gx, gy) {
            general = Some(gp);
            tank = match info.tank_position {
                Some((tx, ty)) => find_walkable_near(map, tx, ty),
                None => None,
            };
        }
    }
    let job_targets = snap_all_tagged(map, &info.job_targets);
    let civilians = snap_all(map, &info.civilian_positions);
    let total: usize = info.enemy_positions.len() + info.elite_positions.len() + info.civilian_positions.len();
    let population: i32 = total as i32;
    SpawnPlan { guards, enemies, elites, faction_bosses, general, tank, job_targets, civilians, population }
}

/// Creatures farther than this (Chebyshev) from the player are put to sleep.
pub const SUSPEND_DIST: i32 = 22;

/// Sleeping creatures within this distance of the player wake up again; the
/// gap to `SUSPEND_DIST` keeps creatures at the border from flickering.
pub const WAKE_DIST: i32 = 18;

/// What the suspension rule does to one creature.
#[derive(Clone, Copy, Debug, PartialEq, Eq, Structural)]
pub enum SuspendAction {
    Suspend,
    Wake,
    Keep,
}

/// The suspension rule: an awake creature farther than `SUSPEND_DIST` is put
/// to sleep, a sleeping one within `WAKE_DIST` wakes, anything else stays.
pub open spec fn spec_suspend_action(dist: int, suspended: bool) -> SuspendAction {
    if dist > 22 && !suspended {
        SuspendAction::Suspend
    } else if dist <= 18 && suspended {
        SuspendAction::Wake
    } else {
        SuspendAction::Keep
    }
}

/// Chebyshev distance between a creature and the player.
pub fn chebyshev_distance(ax: i32, ay: i32, bx: i32, by: i32) -> (d: i64)
    ensures
        d == chebyshev(ax as int, ay as int, bx as int, by as int),
{
    let dx: i64 = if ax as i64 >= bx as i64 { ax as i64 - bx as i64 } else { bx as i64 - ax as i64 };
    let dy: i64 = if ay as i64 >= by as i64 { ay as i64 - by as i64 } else { by as i64 - ay as i64 };
    if dx >= dy {
        dx
    } else {
        dy
    }
}

/// Decides whether a creature at `(x, y)` sleeps or wakes, given the player at
/// `(px, py)` and whether it is asleep now.
pub fn suspend_action(x: i32, y: i32, px: i32, py: i32, suspended: bool) -> (a: SuspendAction)
    ensures
        a == spec_suspend_action(chebyshev(x as int, y as int, px as int, py as int), suspended),
{
    let dist = chebyshev_distance(x, y, px, py);
    if dist > SUSPEND_DIST as i64 && !suspended {
        SuspendAction::Suspend
    } else if dist <= WAKE_DIST as i64 && suspended {
        SuspendAction::Wake
    } else {
        SuspendAction::Keep
    }
}

/// The creature's sleep state after the rule's action.
pub open spec fn after_action(suspended: bool, a: SuspendAction) -> bool {
    match a {
        SuspendAction::Suspend => true,
        SuspendAction::Wake => false,
        SuspendAction::Keep => suspended,
    }
}

/// Hysteresis: once the rule has acted, applying it again at the same
/// distance changes nothing.
pub proof fn law_suspend_settles(dist: int, suspended: bool)
    ensures
        spec_suspend_action(dist, after_action(suspended, spec_suspend_action(dist, suspended)))
            == SuspendAction::Keep,
{
}

/// A creature between the two thresholds keeps its state, asleep or awake.
pub proof fn law_suspend_band_keeps(dist: int, suspended: bool)
    requires
        18 < dist <= 22,
    ensures
        spec_suspend_action(dist, suspended) == SuspendAction::Keep,
{
}

/// The seed every level of a game is generated from.
#[derive(Clone, Copy, Debug, PartialEq, Eq, Structural)]
pub struct LevelSeed(pub u64);

impl Default for LevelSeed {
    fn default() -> (s: Self)
        ensures
            s.0 == 12345,
    {
        LevelSeed(12345)
    }
}

/// Which level is loaded when the levels are played one at a time.
#[derive(Clone, Copy, Debug, PartialEq, Eq, Structural)]
pub enum LevelState {
    Jail,
    District,
}

impl Default for LevelState {
    fn default() -> (s: Self)
        ensures
            s == LevelState::Jail,
    {
        LevelState::Jail
    }
}

/// The seed the district is generated from: the level seed plus one, wrapping
/// past the largest `u64` to zero.
pub fn district_seed(seed: LevelSeed) -> (s: u64)
    ensures
        s == (if seed.0 == u64::MAX {
            0
        } else {
            seed.0 + 1
        }),
{
    seed.0.wrapping_add(1)
}

/// Leaving the jail for the district: the district is generated from a
/// generator seeded with `district_seed(seed)`, the player is put at its entry
/// and the Liberator two tiles to the player's right.
pub fn district_transition(seed: LevelSeed) -> (res: (TileMap, SpawnInfo, GridPos, GridPos))
    ensures
        district_ok(res.0, res.1, 12345),
        res.2 == (GridPos { x: res.1.player_start.0, y: res.1.player_start.1 }),
        res.3.x == res.1.player_start.0 + 2,
        res.3.y == res.1.player_start.1,
{
    let mut rng = seeded_rng(district_seed(seed));
    let (map, info) = DistrictGenerator::default().generate(&mut rng);
    let player = GridPos { x: info.player_start.0, y: info.player_start.1 };
    let liberator = GridPos { x: info.player_start.0 + 2, y: info.player_start.1 };
    (map, info, player, liberator)
}

/// Whether the army wave has come this game; it comes once.
#[derive(Clone, Copy, PartialEq, Eq, Debug, Structural)]
pub struct ArmyInvasionSpawned(pub bool);

impl Default for ArmyInvasionSpawned {
    fn default() -> (s: Self)
        ensures
            !s.0,
    {
        ArmyInvasionSpawned(false)
    }
}

/// Attempts allowed to place the soldiers of the army wave.
pub const ARMY_WAVE_ATTEMPTS: usize = 300;

/// The army wave comes once, when the quest reaches the invasion.
pub fn army_wave_due(spawned: bool, q: QuestState) -> (b: bool)
    ensures
        b == (!spawned && q == QuestState::ArmyInvasion),
{
    !spawned && q == QuestState::ArmyInvasion
}

/// The soldiers placed from the random positions `draws`, taken in order,
/// wanting `count`: each walkable draw is kept while fewer than `count` are.
pub open spec fn army_wave_from(map: TileMap, count: int, draws: Seq<(i32, i32)>) -> Seq<(i32, i32)>
    decreases draws.len(),
{
    if draws.len() == 0 {
        Seq::empty()
    } else {
        let before = army_wave_from(map, count, draws.drop_last());
        let d = draws.last();
        if before.len() < count && map.spec_is_walkable(d.0 as int, d.1 as int) {
            before.push(d)
        } else {
            before
        }
    }
}

/// Kept soldiers are walkable draws, never more than wanted.
proof fn lemma_army_wave_from(map: TileMap, count: int, draws: Seq<(i32, i32)>)
    requires
        0 <= count,
        all_within(draws, 65, 0, 125, 80),
    ensures
        army_wave_from(map, count, draws).len() <= count,
        all_walkable(map, army_wave_from(map, count, draws)),
        all_within(army_wave_from(map, count, draws), 65, 0, 125, 80),
    decreases draws.len(),
{
    if draws.len() > 0 {
        let rest = draws.drop_last();
        assert forall|i: int| 0 <= i < rest.len() implies 65 <= #[trigger] rest[i].0 < 125 && 0 <= rest[i].1 < 80 by {
            assert(rest[i] == draws[i]);
        }
        lemma_army_wave_from(map, count, rest);
        let before = army_wave_from(map, count, rest);
        let d = draws.last();
        assert(draws[draws.len() - 1] == d);
        if before.len() < count && map.spec_is_walkable(d.0 as int, d.1 as int) {
            let after = before.push(d);
            assert forall|i: int| 0 <= i < after.len() implies #[trigger] map.spec_is_walkable(after[i].0 as int, after[i].1 as int) by {
                if i < before.len() {
                    assert(after[i] == before[i]);
                }
            }
            assert forall|i: int| 0 <= i < after.len() implies 65 <= #[trigger] after[i].0 < 125 && 0 <= after[i].1 < 80 by {
                if i < before.len() {
                    assert(after[i] == before[i]);
                }
            }
        }
    }
}

/// Where the soldiers of the army wave appear: twenty to thirty are wanted;
/// positions are drawn at random over the hub's footprint in the world, at
/// most three hundred times, stopping once enough are placed, and each
/// walkable one is kept.
pub fn army_wave_positions(map: &TileMap, rng: &mut StdRng) -> (v: Vec<(i32, i32)>)
    requires
        map.wf(),
    ensures
        exists|count: int, draws: Seq<(i32, i32)>|
            20 <= count <= 30 && draws.len() <= ARMY_WAVE_ATTEMPTS && all_within(draws, 65, 0, 125, 80) && (
            draws.len() == ARMY_WAVE_ATTEMPTS || v@.len() == count) && v@ == army_wave_from(*map, count, draws),
        v@.len() <= 30,
        all_walkable(*map, v@),
        all_within(v@, 65, 0, 125, 80),
{
    let hub_x0: i32 = HUB_OFFSET_X;
    let hub_x1: i32 = hub_x0 + HUB_W;
    let hub_h: i32 = HUB_H;
    let count: usize = range_usize(rng, 20, 31);
    let mut placed: Vec<(i32, i32)> = Vec::new();
    let mut attempts: usize = 0;
    let ghost mut draws: Seq<(i32, i32)> = Seq::empty();
    while placed.len() < count && attempts < ARMY_WAVE_ATTEMPTS
        invariant
            map.wf(),
            hub_x0 == 65 && hub_x1 == 125 && hub_h == 80,
            20 <= count <= 30,
            attempts <= ARMY_WAVE_ATTEMPTS,
            draws.len() == attempts,
            all_within(draws, 65, 0, 125, 80),
            placed@ == army_wave_from(*map, count as int, draws),
        decreases ARMY_WAVE_ATTEMPTS - attempts,
    {
        attempts = attempts + 1;
        let x: i32 = range_i32(rng, hub_x0, hub_x1);
        let y: i32 = range_i32(rng, 0, hub_h);
        let ghost before = draws;
        proof {
            draws = draws.push((x, y));
            assert(draws.drop_last() =~= before);
            assert forall|i: int| 0 <= i < draws.len() implies 65 <= #[trigger] draws[i].0 < 125 && 0 <= draws[i].1 < 80 by {
                if i < before.len() {
                    assert(draws[i] == before[i]);
                }
            }
        }
        if map.is_walkable(x, y) {
            placed.push((x, y));
        }
    }
    proof {
        lemma_army_wave_from(*map, count as int, draws);
    }
    placed
}

} // verus!
