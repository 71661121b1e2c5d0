//! Combat rules on the tile grid: line of sight, how enemies pick a target,
//! chase and patrol, how civilians flee, alerts, and what a corpse is worth.

use std::collections::VecDeque;

use rand::rngs::StdRng;
use vstd::prelude::*;

use crate::levels::generator::{coin_flip, range_u32, range_usize};
use crate::levels::placement::{abs, chebyshev, chebyshev_distance};
use crate::movement::GridPos;
use crate::world::astar::{adjacent8, can_give_up, is_walk_from, reachable};
use crate::world::map::TileMap;
use crate::world::tile::TileType;

verus! {

/// Whether an enemy strikes at melee range or shoots from a distance.
#[derive(Clone, Copy, Debug, PartialEq, Eq, Structural)]
pub enum AttackMode {
    Melee,
    Ranged,
}

impl Default for AttackMode {
    fn default() -> (m: Self)
        ensures
            m == AttackMode::Melee,
    {
        AttackMode::Melee
    }
}

/// The silhouette a melee enemy telegraphs before it strikes.
#[derive(Clone, Copy, Debug, PartialEq, Eq, Structural)]
pub enum MeleeAttackShape {
    /// A narrow forward rectangle (guards).
    Jab,
    /// A wide arc (elites, and some regular enemies).
    Broad,
}

impl Default for MeleeAttackShape {
    fn default() -> (s: Self)
        ensures
            s == MeleeAttackShape::Jab,
    {
        MeleeAttackShape::Jab
    }
}

/// The loadout of a district enemy from two coin flips: ranged on the first,
/// else melee with a broad swing on the second or a jab.
pub open spec fn spec_enemy_loadout(ranged: bool, broad: bool) -> (AttackMode, Option<MeleeAttackShape>) {
    if ranged {
        (AttackMode::Ranged, None)
    } else if broad {
        (AttackMode::Melee, Some(MeleeAttackShape::Broad))
    } else {
        (AttackMode::Melee, Some(MeleeAttackShape::Jab))
    }
}

/// A loadout that can come out: ranged with no swing, or melee with one.
pub open spec fn is_loadout(l: (AttackMode, Option<MeleeAttackShape>)) -> bool {
    exists|ranged: bool, broad: bool| l == spec_enemy_loadout(ranged, broad)
}

pub fn enemy_loadout(ranged: bool, broad: bool) -> (l: (AttackMode, Option<MeleeAttackShape>))
    ensures
        l == spec_enemy_loadout(ranged, broad),
{
    if ranged {
        (AttackMode::Ranged, None)
    } else if broad {
        (AttackMode::Melee, Some(MeleeAttackShape::Broad))
    } else {
        (AttackMode::Melee, Some(MeleeAttackShape::Jab))
    }
}

/// Rolls the loadouts of `n` district enemies, one after another: a coin
/// for ranged or melee and, for a melee one only, a second coin for its swing.
pub fn roll_enemy_loadouts(rng: &mut StdRng, n: usize) -> (v: Vec<(AttackMode, Option<MeleeAttackShape>)>)
    ensures
        v@.len() == n,
        forall|i: int| 0 <= i < n ==> #[trigger] is_loadout(v@[i]),
{
    let mut v: Vec<(AttackMode, Option<MeleeAttackShape>)> = Vec::new();
    let mut i: usize = 0;
    while i < n
        invariant
            i <= n,
            v@.len() == i,
            forall|k: int| 0 <= k < i ==> #[trigger] is_loadout(v@[k]),
        decreases n - i,
    {
        let ranged = coin_flip(rng);
        let broad = if ranged { false } else { coin_flip(rng) };
        let l = enemy_loadout(ranged, broad);
        proof {
            assert(l == spec_enemy_loadout(ranged, broad));
        }
        v.push(l);
        proof {
            assert(v@[i as int] == l);
        }
        i = i + 1;
    }
    v
}

/// How an enemy of a new game fights given its coin: ranged on heads, else
/// melee (with the default swing).
pub open spec fn spec_enemy_mode(ranged: bool) -> AttackMode {
    if ranged {
        AttackMode::Ranged
    } else {
        AttackMode::Melee
    }
}

pub fn enemy_mode(ranged: bool) -> (m: AttackMode)
    ensures
        m == spec_enemy_mode(ranged),
{
    if ranged {
        AttackMode::Ranged
    } else {
        AttackMode::Melee
    }
}

/// Rolls how `n` enemies of a new game fight: one coin each, read by
/// `enemy_mode`.
pub fn roll_enemy_modes(rng: &mut StdRng, n: usize) -> (v: Vec<AttackMode>)
    ensures
        v@.len() == n,
        exists|coins: Seq<bool>|
            coins.len() == n && forall|i: int| 0 <= i < n ==> #[trigger] v@[i] == spec_enemy_mode(coins[i]),
{
    let mut v: Vec<AttackMode> = Vec::new();
    let mut i: usize = 0;
    let ghost mut coins: Seq<bool> = Seq::empty();
    while i < n
        invariant
            i <= n,
            v@.len() == i,
            coins.len() == i,
            forall|k: int| 0 <= k < i ==> #[trigger] v@[k] == spec_enemy_mode(coins[k]),
        decreases n - i,
    {
        let ranged = coin_flip(rng);
        let m = enemy_mode(ranged);
        v.push(m);
        proof {
            coins = coins.push(ranged);
            assert forall|k: int| 0 <= k < i + 1 implies #[trigger] v@[k] == spec_enemy_mode(coins[k]) by {
                if k < i {
                    assert(coins[k] == coins.drop_last()[k]);
                }
            }
        }
        i = i + 1;
    }
    v
}

/// What an enemy is doing.
#[derive(Clone, Copy, Debug, PartialEq, Eq, Structural)]
pub enum EnemyAI {
    Patrol,
    Chase,
    AttackTarget,
}

impl Default for EnemyAI {
    fn default() -> (a: Self)
        ensures
            a == EnemyAI::Patrol,
    {
        EnemyAI::Patrol
    }
}

/// An enemy's sight range in tiles (Chebyshev).
#[derive(Clone, Copy, Debug, PartialEq, Eq, Structural)]
pub struct SightRange(pub u32);

impl Default for SightRange {
    /// Enemies see eight tiles far unless told otherwise.
    fn default() -> (s: Self)
        ensures
            s.0 == 8,
    {
        SightRange(8)
    }
}

/// Chebyshev radius within which an alert wakes patrolling enemies.
pub const ALERT_RADIUS: i32 = 6;

/// Chebyshev range within which the controlled body consumes a corpse.
pub const CORPSE_CONSUME_RANGE: i32 = 1;

/// Chebyshev range within which a weakened enemy can be harvested.
pub const HARVEST_RANGE: i32 = 3;

/// Chebyshev distance within which a civilian flees from the player.
pub const FLEE_DIST: i32 = 10;

/// `num / den` rounded to the nearest integer, halves away from zero, for a
/// positive `den`.
pub open spec fn round_div(num: int, den: int) -> int {
    if num >= 0 {
        (2 * num + den) / (2 * den)
    } else {
        -((2 * (-num) + den) / (2 * den))
    }
}

/// The coordinate reached after `i` of `steps` equal steps from `from` over a
/// distance `d`, rounded to the nearest tile.
pub open spec fn line_point(from: int, d: int, i: int, steps: int) -> int {
    round_div(from * steps + d * i, steps)
}

/// The number of steps a line with extents `dx` and `dy` is cut into: the
/// larger of the two extents.
pub open spec fn line_steps(dx: int, dy: int) -> int {
    if abs(dx) >= abs(dy) {
        abs(dx)
    } else {
        abs(dy)
    }
}

/// Whether nothing blocks the line from one tile to another: the line is cut
/// into as many equal steps as the larger of its two extents, and no tile at
/// an intermediate step is a wall. The two ends are not checked.
pub open spec fn spec_line_of_sight(map: TileMap, fx: int, fy: int, tx: int, ty: int) -> bool {
    let dx = tx - fx;
    let dy = ty - fy;
    let steps = line_steps(dx, dy);
    steps == 0 || forall|i: int|
        1 <= i < steps ==> #[trigger] map.spec_tile_at(line_point(fx, dx, i, steps), line_point(fy, dy, i, steps))
            != TileType::Wall
}

/// `num / den` rounded, halves away from zero.
fn round_div_exec(num: i128, den: i128) -> (r: i128)
    requires
        den > 0,
        -0x1_0000_0000_0000_0000_0000 <= num <= 0x1_0000_0000_0000_0000_0000,
        den <= 0x1_0000_0000,
    ensures
        r == round_div(num as int, den as int),
{
    if num >= 0 {
        (2 * num + den) / (2 * den)
    } else {
        -((2 * (-num) + den) / (2 * den))
    }
}

/// The tile at a position given in wide integers; a wall outside the grid.
fn tile_at_wide(map: &TileMap, x: i128, y: i128) -> (t: TileType)
    requires
        map.wf(),
    ensures
        t == map.spec_tile_at(x as int, y as int),
{
    if x < 0 || y < 0 || x >= map.width as i128 || y >= map.height as i128 {
        TileType::Wall
    } else {
        map.tile_at(x as i32, y as i32)
    }
}

/// Whether there is an unobstructed sightline from `from` to `to`: no wall on
/// the tiles the line passes between them.
pub fn has_line_of_sight(map: &TileMap, from: GridPos, to: GridPos) -> (b: bool)
    requires
        map.wf(),
    ensures
        b == spec_line_of_sight(*map, from.x as int, from.y as int, to.x as int, to.y as int),
{
    let dx: i64 = to.x as i64 - from.x as i64;
    let dy: i64 = to.y as i64 - from.y as i64;
    let adx: i64 = if dx < 0 { -dx } else { dx };
    let ady: i64 = if dy < 0 { -dy } else { dy };
    let steps: i64 = if adx >= ady { adx } else { ady };
    if steps == 0 {
        return true;
    }
    let mut i: i64 = 1;
    while i < steps
        invariant
            map.wf(),
            dx == to.x - from.x,
            dy == to.y - from.y,
            steps == line_steps(dx as int, dy as int),
            0 < steps <= 0x1_0000_0000,
            1 <= i <= steps,
            forall|k: int|
                1 <= k < i ==> #[trigger] map.spec_tile_at(
                    line_point(from.x as int, dx as int, k, steps as int),
                    line_point(from.y as int, dy as int, k, steps as int),
                ) != TileType::Wall,
        decreases steps - i,
    {
        proof {
            assert(-0x8000_0000_0000_0000 <= (from.x as int) * (steps as int) <= 0x8000_0000_0000_0000)
                by (nonlinear_arith)
                requires
                    -0x8000_0000 <= from.x <= 0x8000_0000,
                    0 < steps <= 0x1_0000_0000,
            ;
            assert(-0x8000_0000_0000_0000 <= (from.y as int) * (steps as int) <= 0x8000_0000_0000_0000)
                by (nonlinear_arith)
                requires
                    -0x8000_0000 <= from.y <= 0x8000_0000,
                    0 < steps <= 0x1_0000_0000,
            ;
            assert(-0x1_0000_0000_0000_0000 <= (dx as int) * (i as int) <= 0x1_0000_0000_0000_0000)
                by (nonlinear_arith)
                requires
                    -0x1_0000_0000 <= dx <= 0x1_0000_0000,
                    0 < i <= 0x1_0000_0000,
            ;
            assert(-0x1_0000_0000_0000_0000 <= (dy as int) * (i as int) <= 0x1_0000_0000_0000_0000)
                by (nonlinear_arith)
                requires
                    -0x1_0000_0000 <= dy <= 0x1_0000_0000,
                    0 < i <= 0x1_0000_0000,
            ;
        }
        let num_x: i128 = from.x as i128 * steps as i128 + dx as i128 * i as i128;
        let num_y: i128 = from.y as i128 * steps as i128 + dy as i128 * i as i128;
        let nx: i128 = round_div_exec(num_x, steps as i128);
        let ny: i128 = round_div_exec(num_y, steps as i128);
        if tile_at_wide(map, nx, ny) == TileType::Wall {
            assert(map.spec_tile_at(
                line_point(from.x as int, dx as int, i as int, steps as int),
                line_point(from.y as int, dy as int, i as int, steps as int),
            ) == TileType::Wall);
            return false;
        }
        i = i + 1;
    }
    true
}

/// Every line of sight from a tile to itself is clear.
pub proof fn law_same_tile_visible(map: TileMap, x: int, y: int)
    ensures
        spec_line_of_sight(map, x, y, x, y),
{
}

/// Rounding a whole multiple of `s` divided by `s` gives the multiplier back.
proof fn lemma_round_div_exact(c: int, s: int)
    requires
        s > 0,
    ensures
        round_div(c * s, s) == c,
{
    if c >= 0 {
        assert(c * s >= 0) by (nonlinear_arith)
            requires
                c >= 0,
                s > 0,
        ;
        assert(2 * (c * s) + s == c * (2 * s) + s) by (nonlinear_arith);
        vstd::arithmetic::div_mod::lemma_fundamental_div_mod_converse(2 * (c * s) + s, 2 * s, c, s);
    } else {
        assert(c * s < 0) by (nonlinear_arith)
            requires
                c < 0,
                s > 0,
        ;
        assert(2 * (-(c * s)) + s == (-c) * (2 * s) + s) by (nonlinear_arith);
        vstd::arithmetic::div_mod::lemma_fundamental_div_mod_converse(2 * (-(c * s)) + s, 2 * s, -c, s);
    }
}

/// On a straight line (along a row, a column or a diagonal) from `(fx, fy)`
/// to `(tx, ty)`, a wall on any tile strictly between the two blocks the
/// sight: every such tile is `k` whole steps from `(fx, fy)`, `0 < k < n`
/// for the `n` steps between the ends.
pub proof fn law_wall_between_blocks_sight(map: TileMap, fx: int, fy: int, tx: int, ty: int, k: int)
    requires
        tx - fx == 0 || ty - fy == 0 || abs(tx - fx) == abs(ty - fy),
        0 < k < line_steps(tx - fx, ty - fy),
        map.spec_tile_at(fx + k * signum(tx - fx), fy + k * signum(ty - fy)) == TileType::Wall,
    ensures
        !spec_line_of_sight(map, fx, fy, tx, ty),
{
    let dx = tx - fx;
    let dy = ty - fy;
    let n = line_steps(dx, dy);
    let sx = signum(dx);
    let sy = signum(dy);
    assert(dx == sx * n && dy == sy * n);
    assert(fx * n + dx * k == (fx + k * sx) * n) by (nonlinear_arith)
        requires
            dx == sx * n,
    ;
    assert(fy * n + dy * k == (fy + k * sy) * n) by (nonlinear_arith)
        requires
            dy == sy * n,
    ;
    lemma_round_div_exact(fx + k * sx, n);
    lemma_round_div_exact(fy + k * sy, n);
    assert(line_point(fx, dx, k, n) == fx + k * sx);
    assert(line_point(fy, dy, k, n) == fy + k * sy);
    assert(map.spec_tile_at(line_point(fx, dx, k, n), line_point(fy, dy, k, n)) == TileType::Wall);
}

/// On a straight line (along a row, a column or a diagonal), the sight is
/// clear when no tile strictly between the two ends is a wall.
pub proof fn law_clear_line_gives_sight(map: TileMap, fx: int, fy: int, tx: int, ty: int)
    requires
        tx - fx == 0 || ty - fy == 0 || abs(tx - fx) == abs(ty - fy),
        forall|k: int|
            0 < k < line_steps(tx - fx, ty - fy) ==> #[trigger] map.spec_tile_at(
                fx + k * signum(tx - fx),
                fy + k * signum(ty - fy),
            ) != TileType::Wall,
    ensures
        spec_line_of_sight(map, fx, fy, tx, ty),
{
    let dx = tx - fx;
    let dy = ty - fy;
    let n = line_steps(dx, dy);
    let sx = signum(dx);
    let sy = signum(dy);
    assert(dx == sx * n && dy == sy * n);
    assert forall|i: int| 1 <= i < n implies #[trigger] map.spec_tile_at(
        line_point(fx, dx, i, n),
        line_point(fy, dy, i, n),
    ) != TileType::Wall by {
        assert(fx * n + dx * i == (fx + i * sx) * n) by (nonlinear_arith)
            requires
                dx == sx * n,
        ;
        assert(fy * n + dy * i == (fy + i * sy) * n) by (nonlinear_arith)
            requires
                dy == sy * n,
        ;
        lemma_round_div_exact(fx + i * sx, n);
        lemma_round_div_exact(fy + i * sy, n);
        assert(map.spec_tile_at(fx + i * sx, fy + i * sy) != TileType::Wall);
    }
}

/// Sign of `v`: -1, 0 or 1.
pub open spec fn signum(v: int) -> int {
    if v > 0 {
        1
    } else if v < 0 {
        -1
    } else {
        0
    }
}

/// One step of an enemy chasing `target` without a path: diagonally towards
/// it if that tile is walkable, else along x, else along y, else nowhere.
pub open spec fn spec_chase_step(map: TileMap, x: int, y: int, tx: int, ty: int) -> (int, int) {
    let dx = signum(tx - x);
    let dy = signum(ty - y);
    if dx != 0 && dy != 0 && map.spec_is_walkable(x + dx, y + dy) {
        (x + dx, y + dy)
    } else if dx != 0 && map.spec_is_walkable(x + dx, y) {
        (x + dx, y)
    } else if dy != 0 && map.spec_is_walkable(x, y + dy) {
        (x, y + dy)
    } else {
        (x, y)
    }
}

/// The tiles a chasing creature still means to walk, next one first. When to
/// plan again is timed by the game loop.
pub struct EntityPath {
    pub steps: VecDeque<(i32, i32)>,
}

impl EntityPath {
    pub fn new() -> (p: Self)
        ensures
            p.steps@.len() == 0,
    {
        EntityPath { steps: VecDeque::new() }
    }

    /// Plans again from `from` to `to`: the steps become the A* path between
    /// them, excluding `from` and ending at `to`.
    pub fn replan(&mut self, map: &TileMap, from: GridPos, to: GridPos)
        requires
            map.wf(),
        ensures
            from == to ==> final(self).steps@.len() == 0,
            !map.spec_is_walkable(to.x as int, to.y as int) ==> final(self).steps@.len() == 0,
            final(self).steps@.len() > 0 ==> final(self).steps@.last() == (to.x, to.y),
            is_walk_from(*map, (from.x, from.y), final(self).steps@),
            adjacent8((from.x, from.y), (to.x, to.y)) && map.spec_is_walkable(to.x as int, to.y as int)
                ==> final(self).steps@ == seq![(to.x, to.y)],
            !final(self).steps@.contains((from.x, from.y)),
            forall|i: int, j: int| 0 <= i < j < final(self).steps@.len() ==> final(self).steps@[i] != final(self).steps@[j],
            final(self).steps@.len() == 0 && from != to && map.spec_is_walkable(to.x as int, to.y as int) ==> !reachable(
                *map,
                (from.x, from.y),
                (to.x, to.y),
            ) || can_give_up(*map, (from.x, from.y), (to.x, to.y)),
    {
        let path = map.astar((from.x, from.y), (to.x, to.y));
        let mut steps: VecDeque<(i32, i32)> = VecDeque::new();
        let mut i: usize = 0;
        while i < path.len()
            invariant
                i <= path@.len(),
                steps@ == path@.subrange(0, i as int),
            decreases path@.len() - i,
        {
            steps.push_back(path[i]);
            i = i + 1;
        }
        proof {
            assert(path@.subrange(0, path@.len() as int) =~= path@);
        }
        self.steps = steps;
    }

    /// One move of a chasing enemy at `pos`: onto the next planned tile if it
    /// can still be walked on; if it cannot, the plan is dropped and the enemy
    /// waits for a new one; with no plan, a direct step towards `target`.
    pub fn follow(&mut self, map: &TileMap, pos: GridPos, target: GridPos) -> (p: GridPos)
        requires
            map.wf(),
            i32::MIN < pos.x < i32::MAX,
            i32::MIN < pos.y < i32::MAX,
        ensures
            old(self).steps@.len() > 0 && map.spec_is_walkable(
                old(self).steps@[0].0 as int,
                old(self).steps@[0].1 as int,
            ) ==> (p.x, p.y) == old(self).steps@[0] && final(self).steps@ == old(self).steps@.drop_first(),
            old(self).steps@.len() > 0 && !map.spec_is_walkable(
                old(self).steps@[0].0 as int,
                old(self).steps@[0].1 as int,
            ) ==> p == pos && final(self).steps@.len() == 0,
            old(self).steps@.len() == 0 ==> (p.x as int, p.y as int) == spec_chase_step(
                *map,
                pos.x as int,
                pos.y as int,
                target.x as int,
                target.y as int,
            ) && final(self).steps@.len() == 0,
    {
        if self.steps.len() > 0 {
            let (nx, ny) = self.steps[0];
            if map.is_walkable(nx, ny) {
                let _ = self.steps.pop_front();
                GridPos { x: nx, y: ny }
            } else {
                self.steps.clear();
                pos
            }
        } else {
            chase_step(map, pos, target)
        }
    }
}

/// The sign of the difference `b - a`.
fn signum_diff(a: i32, b: i32) -> (s: i32)
    ensures
        s == signum(b - a),
{
    if b > a {
        1
    } else if b < a {
        -1
    } else {
        0
    }
}

/// One step of a chasing enemy at `pos` towards `target` when it has no path.
pub fn chase_step(map: &TileMap, pos: GridPos, target: GridPos) -> (p: GridPos)
    requires
        map.wf(),
        i32::MIN < pos.x < i32::MAX,
        i32::MIN < pos.y < i32::MAX,
    ensures
        (p.x as int, p.y as int) == spec_chase_step(*map, pos.x as int, pos.y as int, target.x as int, target.y as int),
{
    let dx = signum_diff(pos.x, target.x);
    let dy = signum_diff(pos.y, target.y);
    if dx != 0 && dy != 0 && map.is_walkable(pos.x + dx, pos.y + dy) {
        GridPos { x: pos.x + dx, y: pos.y + dy }
    } else if dx != 0 && map.is_walkable(pos.x + dx, pos.y) {
        GridPos { x: pos.x + dx, y: pos.y }
    } else if dy != 0 && map.is_walkable(pos.x, pos.y + dy) {
        GridPos { x: pos.x, y: pos.y + dy }
    } else {
        pos
    }
}

/// A chase step only ever lands on a walkable tile or stays put, and never
/// moves more than one tile in each direction.
pub proof fn law_chase_step_safe(map: TileMap, x: int, y: int, tx: int, ty: int)
    ensures
        ({
            let p = spec_chase_step(map, x, y, tx, ty);
            (p == (x, y) || map.spec_is_walkable(p.0, p.1)) && abs(p.0 - x) <= 1 && abs(p.1 - y) <= 1
        }),
{
}

/// A chase step never takes the enemy farther from its target (Chebyshev).
pub proof fn law_chase_step_closes_in(map: TileMap, x: int, y: int, tx: int, ty: int)
    ensures
        ({
            let p = spec_chase_step(map, x, y, tx, ty);
            chebyshev(p.0, p.1, tx, ty) <= chebyshev(x, y, tx, ty)
        }),
{
}

/// A chasing enemy that is not on its target moves whenever a tile one step
/// towards it (diagonally, along x or along y, each towards the target) can be
/// walked on: it then lands on a walkable tile, each coordinate moving
/// towards the target or staying, so the Manhattan distance strictly shrinks.
pub proof fn law_chase_step_moves_when_it_can(map: TileMap, x: int, y: int, tx: int, ty: int)
    requires
        ({
            let sx = signum(tx - x);
            let sy = signum(ty - y);
            ||| sx != 0 && sy != 0 && map.spec_is_walkable(x + sx, y + sy)
            ||| sx != 0 && map.spec_is_walkable(x + sx, y)
            ||| sy != 0 && map.spec_is_walkable(x, y + sy)
        }),
    ensures
        ({
            let p = spec_chase_step(map, x, y, tx, ty);
            &&& p != (x, y)
            &&& map.spec_is_walkable(p.0, p.1)
            &&& (p.0 == x || p.0 == x + signum(tx - x))
            &&& (p.1 == y || p.1 == y + signum(ty - y))
            &&& abs(p.0 - tx) + abs(p.1 - ty) < abs(x - tx) + abs(y - ty)
        }),
{
}

/// A target straight along a row or a column is approached straight: if the
/// next tile towards it can be walked on, the chase step goes there, and the
/// Chebyshev distance shrinks by one.
pub proof fn law_chase_step_straight(map: TileMap, x: int, y: int, tx: int, ty: int)
    requires
        (x, y) != (tx, ty),
        x == tx || y == ty,
        map.spec_is_walkable(x + signum(tx - x), y + signum(ty - y)),
    ensures
        spec_chase_step(map, x, y, tx, ty) == (x + signum(tx - x), y + signum(ty - y)),
        chebyshev(x + signum(tx - x), y + signum(ty - y), tx, ty) == chebyshev(x, y, tx, ty) - 1,
{
}

/// One step of a civilian at `(x, y)` fleeing from `(tx, ty)`: within
/// `FLEE_DIST`, away along x if that tile is walkable, else away along y;
/// otherwise it stays.
pub open spec fn spec_flee_step(map: TileMap, x: int, y: int, tx: int, ty: int) -> (int, int) {
    let dx = -signum(tx - x);
    let dy = -signum(ty - y);
    if chebyshev(x, y, tx, ty) > 10 {
        (x, y)
    } else if dx != 0 && map.spec_is_walkable(x + dx, y) {
        (x + dx, y)
    } else if dy != 0 && map.spec_is_walkable(x, y + dy) {
        (x, y + dy)
    } else {
        (x, y)
    }
}

/// One step of a civilian at `pos` fleeing from the player at `threat`.
pub fn flee_step(map: &TileMap, pos: GridPos, threat: GridPos) -> (p: GridPos)
    requires
        map.wf(),
        i32::MIN < pos.x < i32::MAX,
        i32::MIN < pos.y < i32::MAX,
    ensures
        (p.x as int, p.y as int) == spec_flee_step(*map, pos.x as int, pos.y as int, threat.x as int, threat.y as int),
{
    if chebyshev_distance(pos.x, pos.y, threat.x, threat.y) > FLEE_DIST as i64 {
        return pos;
    }
    let dx = -signum_diff(pos.x, threat.x);
    let dy = -signum_diff(pos.y, threat.y);
    if dx != 0 && map.is_walkable(pos.x + dx, pos.y) {
        GridPos { x: pos.x + dx, y: pos.y }
    } else if dy != 0 && map.is_walkable(pos.x, pos.y + dy) {
        GridPos { x: pos.x, y: pos.y + dy }
    } else {
        pos
    }
}

/// A fleeing step never brings the civilian closer to the threat.
pub proof fn law_flee_never_approaches(map: TileMap, x: int, y: int, tx: int, ty: int)
    ensures
        ({
            let p = spec_flee_step(map, x, y, tx, ty);
            abs(p.0 - tx) >= abs(x - tx) && abs(p.1 - ty) >= abs(y - ty)
        }),
{
}

/// A civilian within `FLEE_DIST` of the threat, and not on its tile, flees
/// whenever it can: if the tile one step directly away along x (when the x
/// coordinates differ) or along y (when the y coordinates differ) can be
/// walked on, it moves to a walkable tile one step directly away, and its
/// Manhattan distance to the threat grows by exactly one.
pub proof fn law_flee_step_flees_when_it_can(map: TileMap, x: int, y: int, tx: int, ty: int)
    requires
        chebyshev(x, y, tx, ty) <= FLEE_DIST,
        ({
            let ax = -signum(tx - x);
            let ay = -signum(ty - y);
            ||| ax != 0 && map.spec_is_walkable(x + ax, y)
            ||| ay != 0 && map.spec_is_walkable(x, y + ay)
        }),
    ensures
        ({
            let p = spec_flee_step(map, x, y, tx, ty);
            &&& p != (x, y)
            &&& map.spec_is_walkable(p.0, p.1)
            &&& (p == (x - signum(tx - x), y) || p == (x, y - signum(ty - y)))
            &&& abs(p.0 - tx) + abs(p.1 - ty) == abs(x - tx) + abs(y - ty) + 1
        }),
{
}

/// Beyond `FLEE_DIST` of the threat, a civilian does not flee.
pub proof fn law_flee_step_calm_far_away(map: TileMap, x: int, y: int, tx: int, ty: int)
    requires
        chebyshev(x, y, tx, ty) > FLEE_DIST,
    ensures
        spec_flee_step(map, x, y, tx, ty) == (x, y),
{
}

/// The four patrol directions: north, south, west, east.
pub open spec fn patrol_dir(i: int) -> (int, int) {
    if i == 0 {
        (0, -1)
    } else if i == 1 {
        (0, 1)
    } else if i == 2 {
        (-1, 0)
    } else {
        (1, 0)
    }
}

/// Where a patrol step in direction `dir` from `(x, y)` ends: on the
/// neighbour that way if it is walkable, else where it started.
pub open spec fn spec_patrol_move(map: TileMap, x: int, y: int, dir: int) -> (int, int) {
    let d = patrol_dir(dir);
    if map.spec_is_walkable(x + d.0, y + d.1) {
        (x + d.0, y + d.1)
    } else {
        (x, y)
    }
}

/// A patrol step in direction `dir` (0 to 3): taken if that tile is walkable.
pub fn patrol_move(map: &TileMap, pos: GridPos, dir: usize) -> (p: GridPos)
    requires
        map.wf(),
        dir < 4,
        i32::MIN < pos.x < i32::MAX,
        i32::MIN < pos.y < i32::MAX,
    ensures
        (p.x as int, p.y as int) == spec_patrol_move(*map, pos.x as int, pos.y as int, dir as int),
{
    let dirs: [(i32, i32); 4] = [(0, -1), (0, 1), (-1, 0), (1, 0)];
    let (dx, dy) = dirs[dir];
    let nx = pos.x + dx;
    let ny = pos.y + dy;
    if map.is_walkable(nx, ny) {
        GridPos { x: nx, y: ny }
    } else {
        pos
    }
}

/// A patrol step in a random direction: the enemy moves to a walkable
/// neighbour or stays. Which direction is drawn is up to the generator.
pub fn patrol_step(map: &TileMap, pos: GridPos, rng: &mut StdRng) -> (p: GridPos)
    requires
        map.wf(),
        i32::MIN < pos.x < i32::MAX,
        i32::MIN < pos.y < i32::MAX,
    ensures
        exists|dir: int| 0 <= dir < 4 && (p.x as int, p.y as int) == spec_patrol_move(*map, pos.x as int, pos.y as int, dir),
        p == pos || (map.spec_is_walkable(p.x as int, p.y as int) && abs(p.x - pos.x) + abs(p.y - pos.y) == 1),
{
    let dir = range_usize(rng, 0, 4);
    patrol_move(map, pos, dir)
}

/// Whether `t` can be seen by an enemy at `pos` with sight range `sight`.
pub open spec fn sees(map: TileMap, pos: GridPos, sight: u32, t: GridPos) -> bool {
    chebyshev(pos.x as int, pos.y as int, t.x as int, t.y as int) <= sight && spec_line_of_sight(
        map,
        pos.x as int,
        pos.y as int,
        t.x as int,
        t.y as int,
    )
}

/// The target an enemy at `pos` locks on to: among the targets within its
/// sight range and in line of sight, the nearest; the first in order among
/// equally near ones.
pub fn closest_visible_target(map: &TileMap, pos: GridPos, sight: SightRange, targets: &Vec<GridPos>) -> (r: Option<
    usize,
>)
    requires
        map.wf(),
    ensures
        match r {
            Some(i) => {
                &&& 0 <= i < targets@.len()
                &&& sees(*map, pos, sight.0, targets@[i as int])
                &&& forall|j: int|
                    0 <= j < targets@.len() && #[trigger] sees(*map, pos, sight.0, targets@[j]) ==> chebyshev(
                        pos.x as int,
                        pos.y as int,
                        targets@[i as int].x as int,
                        targets@[i as int].y as int,
                    ) <= chebyshev(pos.x as int, pos.y as int, targets@[j].x as int, targets@[j].y as int)
                &&& forall|j: int|
                    0 <= j < i && #[trigger] sees(*map, pos, sight.0, targets@[j]) ==> chebyshev(
                        pos.x as int,
                        pos.y as int,
                        targets@[i as int].x as int,
                        targets@[i as int].y as int,
                    ) < chebyshev(pos.x as int, pos.y as int, targets@[j].x as int, targets@[j].y as int)
            },
            None => forall|j: int| 0 <= j < targets@.len() ==> !#[trigger] sees(*map, pos, sight.0, targets@[j]),
        },
{
    let mut best: Option<(usize, i64)> = None;
    let mut i: usize = 0;
    while i < targets.len()
        invariant
            map.wf(),
            i <= targets@.len(),
            match best {
                Some((b, d)) => {
                    &&& b < i
                    &&& sees(*map, pos, sight.0, targets@[b as int])
                    &&& d == chebyshev(pos.x as int, pos.y as int, targets@[b as int].x as int, targets@[b as int].y as int)
                    &&& forall|j: int|
                        0 <= j < i && #[trigger] sees(*map, pos, sight.0, targets@[j]) ==> d <= chebyshev(
                            pos.x as int,
                            pos.y as int,
                            targets@[j].x as int,
                            targets@[j].y as int,
                        )
                    &&& forall|j: int|
                        0 <= j < b && #[trigger] sees(*map, pos, sight.0, targets@[j]) ==> d < chebyshev(
                            pos.x as int,
                            pos.y as int,
                            targets@[j].x as int,
                            targets@[j].y as int,
                        )
                },
                None => forall|j: int| 0 <= j < i ==> !#[trigger] sees(*map, pos, sight.0, targets@[j]),
            },
        decreases targets@.len() - i,
    {
        let t = targets[i];
        let d = chebyshev_distance(pos.x, pos.y, t.x, t.y);
        if d <= sight.0 as i64 && has_line_of_sight(map, pos, t) {
            match best {
                Some((_, bd)) => {
                    if d < bd {
                        best = Some((i, d));
                    }
                },
                None => {
                    best = Some((i, d));
                },
            }
        }
        i = i + 1;
    }
    match best {
        Some((b, _)) => Some(b),
        None => None,
    }
}

/// A patrolling enemy within `ALERT_RADIUS` of an alert starts chasing;
/// every other enemy keeps what it was doing.
pub fn alert_response(ai: EnemyAI, pos: GridPos, origin: GridPos) -> (r: EnemyAI)
    ensures
        r == (if ai == EnemyAI::Patrol && chebyshev(pos.x as int, pos.y as int, origin.x as int, origin.y as int)
            <= 6 {
            EnemyAI::Chase
        } else {
            ai
        }),
{
    if ai == EnemyAI::Patrol && chebyshev_distance(pos.x, pos.y, origin.x, origin.y) <= ALERT_RADIUS as i64 {
        EnemyAI::Chase
    } else {
        ai
    }
}

/// The biomass a corpse is worth: 2 for a civilian, 5 for anyone else.
pub fn corpse_biomass(is_civilian: bool) -> (v: u32)
    ensures
        v == (if is_civilian { 2u32 } else { 5u32 }),
{
    if is_civilian {
        2
    } else {
        5
    }
}

/// Whether a corpse at `c` is within reach of the controlled body at `p`.
pub fn corpse_in_reach(p: GridPos, c: GridPos) -> (b: bool)
    ensures
        b == (chebyshev(p.x as int, p.y as int, c.x as int, c.y as int) <= 1),
{
    chebyshev_distance(p.x, p.y, c.x, c.y) <= CORPSE_CONSUME_RANGE as i64
}

/// What harvesting a weakened enemy gives the player: health back, biomass,
/// or nothing. How much is the game's tuning, kept outside this library.
#[derive(Clone, Copy, Debug, PartialEq, Eq, Structural)]
pub enum HarvestReward {
    Health,
    Biomass,
    Nothing,
}

/// The reward a roll stands for: 0 heals, 1 gives biomass, any other nothing.
pub open spec fn spec_harvest_reward(roll: u32) -> HarvestReward {
    if roll == 0 {
        HarvestReward::Health
    } else if roll == 1 {
        HarvestReward::Biomass
    } else {
        HarvestReward::Nothing
    }
}

pub fn harvest_reward(roll: u32) -> (r: HarvestReward)
    ensures
        r == spec_harvest_reward(roll),
{
    if roll == 0 {
        HarvestReward::Health
    } else if roll == 1 {
        HarvestReward::Biomass
    } else {
        HarvestReward::Nothing
    }
}

/// Rolls the reward a newly opened harvest window offers: a roll in `0..3`
/// drawn from `rng`, read as `harvest_reward` reads it.
pub fn roll_harvest_reward(rng: &mut StdRng) -> (r: HarvestReward)
    ensures
        exists|roll: u32| roll < 3 && r == spec_harvest_reward(roll),
{
    let roll = range_u32(rng, 0, 3);
    harvest_reward(roll)
}

/// Whether a harvestable enemy at `c` is within `HARVEST_RANGE` of the
/// controlled body at `p`.
pub open spec fn harvest_in_reach(p: GridPos, c: GridPos) -> bool {
    chebyshev(p.x as int, p.y as int, c.x as int, c.y as int) <= HARVEST_RANGE
}

/// Picks the enemy to harvest: among those with an open harvest window, the
/// nearest within `HARVEST_RANGE`; the first in order among equally near ones.
pub fn pick_harvest_target(p: GridPos, windows: &Vec<GridPos>) -> (r: Option<usize>)
    ensures
        match r {
            Some(i) => {
                &&& 0 <= i < windows@.len()
                &&& harvest_in_reach(p, windows@[i as int])
                &&& forall|j: int|
                    0 <= j < windows@.len() && #[trigger] harvest_in_reach(p, windows@[j]) ==> chebyshev(
                        p.x as int,
                        p.y as int,
                        windows@[i as int].x as int,
                        windows@[i as int].y as int,
                    ) <= chebyshev(p.x as int, p.y as int, windows@[j].x as int, windows@[j].y as int)
                &&& forall|j: int|
                    0 <= j < i && #[trigger] harvest_in_reach(p, windows@[j]) ==> chebyshev(
                        p.x as int,
                        p.y as int,
                        windows@[i as int].x as int,
                        windows@[i as int].y as int,
                    ) < chebyshev(p.x as int, p.y as int, windows@[j].x as int, windows@[j].y as int)
            },
            None => forall|j: int| 0 <= j < windows@.len() ==> !#[trigger] harvest_in_reach(p, windows@[j]),
        },
{
    let mut best: Option<(usize, i64)> = None;
    let mut i: usize = 0;
    while i < windows.len()
        invariant
            i <= windows@.len(),
            match best {
                Some((b, d)) => {
                    &&& b < i
                    &&& harvest_in_reach(p, windows@[b as int])
                    &&& d == chebyshev(p.x as int, p.y as int, windows@[b as int].x as int, windows@[b as int].y as int)
                    &&& forall|j: int|
                        0 <= j < i && #[trigger] harvest_in_reach(p, windows@[j]) ==> d <= chebyshev(
                            p.x as int,
                            p.y as int,
                            windows@[j].x as int,
                            windows@[j].y as int,
                        )
                    &&& forall|j: int|
                        0 <= j < b && #[trigger] harvest_in_reach(p, windows@[j]) ==> d < chebyshev(
                            p.x as int,
                            p.y as int,
                            windows@[j].x as int,
                            windows@[j].y as int,
                        )
                },
                None => forall|j: int| 0 <= j < i ==> !#[trigger] harvest_in_reach(p, windows@[j]),
            },
        decreases windows@.len() - i,
    {
        let c = windows[i];
        let d = chebyshev_distance(p.x, p.y, c.x, c.y);
        if d <= HARVEST_RANGE as i64 {
            match best {
                Some((_, bd)) => {
                    if d < bd {
                        best = Some((i, d));
                    }
                },
                None => {
                    best = Some((i, d));
                },
            }
        }
        i = i + 1;
    }
    match best {
        Some((b, _)) => Some(b),
        None => None,
    }
}

/// How an enemy of the single-district levels reacts to the player: within
/// eight tiles it chases; a chaser that loses the player goes back to patrol.
pub fn sight_by_distance(ai: EnemyAI, pos: GridPos, player: GridPos) -> (r: EnemyAI)
    ensures
        r == (if chebyshev(pos.x as int, pos.y as int, player.x as int, player.y as int) <= 8 {
            EnemyAI::Chase
        } else if ai == EnemyAI::Chase {
            EnemyAI::Patrol
        } else {
            ai
        }),
{
    if chebyshev_distance(pos.x, pos.y, player.x, player.y) <= 8 {
        EnemyAI::Chase
    } else if ai == EnemyAI::Chase {
        EnemyAI::Patrol
    } else {
        ai
    }
}

/// One chase step of an enemy of the single-district levels: along x towards
/// the target if that tile is walkable, else along y, else nowhere.
pub fn axis_chase_step(map: &TileMap, pos: GridPos, target: GridPos) -> (p: GridPos)
    requires
        map.wf(),
        i32::MIN < pos.x < i32::MAX,
        i32::MIN < pos.y < i32::MAX,
    ensures
        ({
            let dx = signum(target.x - pos.x);
            let dy = signum(target.y - pos.y);
            (p.x as int, p.y as int) == (if dx != 0 && map.spec_is_walkable(pos.x + dx, pos.y as int) {
                (pos.x + dx, pos.y as int)
            } else if dy != 0 && map.spec_is_walkable(pos.x as int, pos.y + dy) {
                (pos.x as int, pos.y + dy)
            } else {
                (pos.x as int, pos.y as int)
            })
        }),
{
    let dx = signum_diff(pos.x, target.x);
    let dy = signum_diff(pos.y, target.y);
    if dx != 0 && map.is_walkable(pos.x + dx, pos.y) {
        GridPos { x: pos.x + dx, y: pos.y }
    } else if dy != 0 && map.is_walkable(pos.x, pos.y + dy) {
        GridPos { x: pos.x, y: pos.y + dy }
    } else {
        pos
    }
}

/// Whether a corpse at `c` is next to the body at `p` (within one tile each
/// way), close enough to be possessed.
pub fn corpse_adjacent(p: GridPos, c: GridPos) -> (b: bool)
    ensures
        b == (abs(c.x - p.x) <= 1 && abs(c.y - p.y) <= 1),
{
    let dx: i64 = if c.x as i64 >= p.x as i64 { c.x as i64 - p.x as i64 } else { p.x as i64 - c.x as i64 };
    let dy: i64 = if c.y as i64 >= p.y as i64 { c.y as i64 - p.y as i64 } else { p.y as i64 - c.y as i64 };
    dx <= 1 && dy <= 1
}

/// A corpse can be possessed only while a control slot is free.
pub fn possession_slot_free(used: usize, max: usize) -> (b: bool)
    ensures
        b == (used < max),
{
    used < max
}

} // verus!
