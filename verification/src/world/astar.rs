//! A* pathfinding over the 8-connected tile grid.
use std::collections::HashMap;

use vstd::prelude::*;

use super::map::{cell_count, cell_index, lemma_cell_index_bounds, lemma_cell_index_injective, TileMap};

verus! {

broadcast use vstd::std_specs::hash::group_hash_axioms;

/// Upper bound on node expansions before the search gives up.
pub const MAX_NODES: u32 = 400;

/// Cost of a straight step, and of a diagonal one.
pub const STRAIGHT_COST: i64 = 10;
pub const DIAGONAL_COST: i64 = 14;

/// Whether `a` and `b` are distinct tiles that touch, sideways or diagonally.
pub open spec fn adjacent8(a: (i32, i32), b: (i32, i32)) -> bool {
    &&& a != b
    &&& -1 <= a.0 - b.0 <= 1
    &&& -1 <= a.1 - b.1 <= 1
}

/// `path` is a walk from `start` over walkable tiles: every step is walkable
/// and touches the step before it, the first one touching `start`.
pub open spec fn is_walk_from(map: TileMap, start: (i32, i32), path: Seq<(i32, i32)>) -> bool {
    &&& forall|i: int| 0 <= i < path.len() ==> #[trigger] map.spec_is_walkable(path[i].0 as int, path[i].1 as int)
    &&& forall|i: int| 0 < i < path.len() ==> adjacent8(#[trigger] path[i - 1], path[i])
    &&& path.len() > 0 ==> adjacent8(start, path[0])
}

/// The hash key of an in-grid cell.
pub open spec fn cell_key(width: int, x: int, y: int) -> u64 {
    cell_index(width, x, y) as u64
}

/// The hash key of a tile position.
pub open spec fn pos_key(map: TileMap, p: (i32, i32)) -> u64 {
    cell_key(map.width as int, p.0 as int, p.1 as int)
}

pub open spec fn pos_in(map: TileMap, p: (i32, i32)) -> bool {
    map.spec_in_bounds(p.0 as int, p.1 as int)
}

/// Best known cost of reaching `p`; the start costs nothing.
pub open spec fn gval(map: TileMap, start: (i32, i32), best: Map<u64, i64>, p: (i32, i32)) -> int {
    if p == start {
        0
    } else {
        best[pos_key(map, p)] as int
    }
}

/// Manhattan distance to the goal, ten per tile.
pub open spec fn heuristic(p: (i32, i32), goal: (i32, i32)) -> int {
    (abs_int(p.0 - goal.0) + abs_int(p.1 - goal.1)) * 10
}

pub open spec fn abs_int(v: int) -> int {
    if v < 0 {
        -v
    } else {
        v
    }
}

/// Open-list order: `a` is taken before `b` when its estimate is lower, then
/// when its cost so far is higher, then by the larger position.
pub open spec fn comes_first(a: (i64, i64, i32, i32), b: (i64, i64, i32, i32)) -> bool {
    ||| a.0 < b.0
    ||| a.0 == b.0 && a.1 > b.1
    ||| a.0 == b.0 && a.1 == b.1 && a.2 > b.2
    ||| a.0 == b.0 && a.1 == b.1 && a.2 == b.2 && a.3 > b.3
}

/// The cost of one step from `a` to a neighbouring `b`: 10 sideways, 14 diagonally.
pub open spec fn step_cost(a: (i32, i32), b: (i32, i32)) -> i64 {
    if a.0 == b.0 || a.1 == b.1 {
        10
    } else {
        14
    }
}

/// The eight steps of the search, with their costs.
spec fn search_dirs() -> Seq<(i64, i64, i64)> {
    seq![
        (1i64, 0i64, 10i64),
        (-1i64, 0i64, 10i64),
        (0i64, 1i64, 10i64),
        (0i64, -1i64, 10i64),
        (1i64, 1i64, 14i64),
        (1i64, -1i64, 14i64),
        (-1i64, 1i64, 14i64),
        (-1i64, -1i64, 14i64),
    ]
}

/// Each step moves to a neighbour and costs what `step_cost` says; every
/// neighbour is reached by one of the steps.
proof fn lemma_search_dirs(start: (i32, i32), d: int)
    requires
        0 <= d < 8,
    ensures
        ({
            let s = search_dirs()[d];
            &&& -1 <= s.0 <= 1 && -1 <= s.1 <= 1 && (s.0 != 0 || s.1 != 0)
            &&& (i32::MIN <= start.0 + s.0 <= i32::MAX && i32::MIN <= start.1 + s.1 <= i32::MAX) ==> s.2
                == step_cost(start, ((start.0 + s.0) as i32, (start.1 + s.1) as i32))
        }),
{
}

/// A neighbour of `start` is reached by one of the eight steps.
proof fn lemma_neighbour_has_dir(start: (i32, i32), goal: (i32, i32))
    requires
        adjacent8(start, goal),
    ensures
        exists|d: int| 0 <= d < 8 && (start.0 + #[trigger] search_dirs()[d].0, start.1 + search_dirs()[d].1) == (
            goal.0 as int,
            goal.1 as int,
        ),
{
    let dx = goal.0 - start.0;
    let dy = goal.1 - start.1;
    let d: int = if dx == 1 && dy == 0 {
        0
    } else if dx == -1 && dy == 0 {
        1
    } else if dx == 0 && dy == 1 {
        2
    } else if dx == 0 && dy == -1 {
        3
    } else if dx == 1 && dy == 1 {
        4
    } else if dx == 1 && dy == -1 {
        5
    } else if dx == -1 && dy == 1 {
        6
    } else {
        7
    };
    assert((start.0 + search_dirs()[d].0, start.1 + search_dirs()[d].1) == (goal.0 as int, goal.1 as int));
}

/// Distinct in-grid positions have distinct keys.
proof fn lemma_key_injective(map: TileMap, a: (i32, i32), b: (i32, i32))
    requires
        map.wf(),
        pos_in(map, a),
        pos_in(map, b),
        pos_key(map, a) == pos_key(map, b),
    ensures
        a == b,
{
    lemma_cell_index_bounds(map.width as int, map.height as int, a.0 as int, a.1 as int);
    lemma_cell_index_bounds(map.width as int, map.height as int, b.0 as int, b.1 as int);
    map.lemma_wf_cells_fit();
    lemma_cell_index_injective(map.width as int, a.0 as int, a.1 as int, b.0 as int, b.1 as int);
}

/// What the search keeps true of its tables:
/// every recorded parent touches its child, leads back towards the start and
/// costs strictly less; the start has cost zero and no parent; every open entry
/// is the start or a recorded tile, with a cost no lower than the best known.
pub open spec fn search_inv(
    map: TileMap,
    start: (i32, i32),
    best: Map<u64, i64>,
    from: Map<u64, (i32, i32)>,
    open: Seq<(i64, i64, i32, i32)>,
    bound: int,
) -> bool {
    &&& map.wf()
    &&& forall|p: (i32, i32)|
        #![trigger from.contains_key(pos_key(map, p))]
        pos_in(map, p) && from.contains_key(pos_key(map, p)) ==> {
            let q = from[pos_key(map, p)];
            &&& best.contains_key(pos_key(map, p))
            &&& p != start
            &&& adjacent8(q, p)
            &&& map.spec_is_walkable(p.0 as int, p.1 as int)
            &&& (q == start || (pos_in(map, q) && from.contains_key(pos_key(map, q))))
            &&& 0 <= gval(map, start, best, q) < best[pos_key(map, p)]
        }
    &&& pos_in(map, start) ==> {
        &&& best.contains_key(pos_key(map, start))
        &&& best[pos_key(map, start)] == 0
        &&& !from.contains_key(pos_key(map, start))
    }
    &&& forall|i: int|
        #![trigger open[i]]
        0 <= i < open.len() ==> {
            let e = open[i];
            let p = (e.2, e.3);
            &&& 0 <= e.1 <= bound
            &&& ((p == start && e.1 == 0) || (pos_in(map, p) && from.contains_key(pos_key(map, p))
                && e.1 >= best[pos_key(map, p)]))
        }
}

/// `p` has been reached by the search: it is the start, or a parent is recorded for it.
pub open spec fn reached(map: TileMap, start: (i32, i32), from: Map<u64, (i32, i32)>, p: (i32, i32)) -> bool {
    p == start || (pos_in(map, p) && from.contains_key(pos_key(map, p)))
}

/// Some walk over walkable tiles leads from `start` to `goal`.
pub open spec fn reachable(map: TileMap, start: (i32, i32), goal: (i32, i32)) -> bool {
    exists|path: Seq<(i32, i32)>| #[trigger] is_walk_from(map, start, path) && path.len() > 0 && path.last() == goal
}

/// The open entry `e` holds tile `p` at cost `g`.
pub open spec fn holds(e: (i64, i64, i32, i32), p: (i32, i32), g: int) -> bool {
    e.2 == p.0 && e.3 == p.1 && e.1 == g
}

/// How far the search has spread: every reached tile (but `hole`, the one being
/// expanded) is either closed, all its walkable neighbours reached, or waits in the
/// open list at its best known cost; the goal is never closed; every tile with a
/// known cost has been reached.
pub open spec fn frontier_inv(
    map: TileMap,
    start: (i32, i32),
    goal: (i32, i32),
    best: Map<u64, i64>,
    from: Map<u64, (i32, i32)>,
    open: Seq<(i64, i64, i32, i32)>,
    closed: Set<(i32, i32)>,
    hole: Option<(i32, i32)>,
) -> bool {
    &&& forall|p: (i32, i32)|
        #[trigger] reached(map, start, from, p) && hole != Some(p) ==> closed.contains(p) || exists|i: int|
            0 <= i < open.len() && holds(#[trigger] open[i], p, gval(map, start, best, p))
    &&& forall|p: (i32, i32), n: (i32, i32)|
        #![trigger closed.contains(p), reached(map, start, from, n)]
        closed.contains(p) && adjacent8(p, n) && map.spec_is_walkable(n.0 as int, n.1 as int) ==> reached(
            map,
            start,
            from,
            n,
        )
    &&& !closed.contains(goal)
    &&& forall|p: (i32, i32)|
        #![trigger best.contains_key(pos_key(map, p))]
        pos_in(map, p) && best.contains_key(pos_key(map, p)) ==> reached(map, start, from, p)
}

/// The cost of walking `path` from `start`: 10 per straight step, 14 per diagonal one.
pub open spec fn walk_cost(start: (i32, i32), path: Seq<(i32, i32)>) -> int
    decreases path.len(),
{
    if path.len() == 0 {
        0
    } else {
        let prev = if path.len() == 1 {
            start
        } else {
            path[path.len() - 2]
        };
        walk_cost(start, path.drop_last()) + step_cost(prev, path.last())
    }
}

/// `c` is what reaching `p` from `start` costs along some walk: zero for the
/// start itself, else the cost of a walk from `start` that ends at `p`.
pub open spec fn costs_walk(map: TileMap, start: (i32, i32), p: (i32, i32), c: int) -> bool {
    ||| p == start && c == 0
    ||| exists|w: Seq<(i32, i32)>|
        #[trigger] is_walk_from(map, start, w) && w.len() > 0 && w.last() == p && walk_cost(start, w) == c
}

/// The tiles a search expanded, each with the cost it was expanded at: first
/// the start at cost zero; no pair twice, a tile expanded again only at a lower
/// cost; never the goal; the `k`-th cost at most `14 * k` and that of some walk
/// from `start`.
pub open spec fn expansions_ok(
    map: TileMap,
    start: (i32, i32),
    goal: (i32, i32),
    log: Seq<(i32, i32, i64)>,
) -> bool {
    &&& log.len() > 0 ==> log[0] == (start.0, start.1, 0i64)
    &&& forall|k: int, m: int| 0 <= k < m < log.len() ==> #[trigger] log[k] != #[trigger] log[m]
    &&& forall|k: int, m: int|
        0 <= k < m < log.len() && (#[trigger] log[k]).0 == (#[trigger] log[m]).0 && log[k].1 == log[m].1 ==> log[m].2
            < log[k].2
    &&& forall|k: int| 0 <= k < log.len() ==> 0 <= (#[trigger] log[k]).2 <= 14 * k
    &&& forall|k: int|
        0 <= k < log.len() ==> (#[trigger] log[k].0, log[k].1) != goal && costs_walk(
            map,
            start,
            (log[k].0, log[k].1),
            log[k].2 as int,
        )
}

/// A search from `start` to `goal` can give up: some record of `MAX_NODES + 1`
/// expansions fits what a search does.
pub open spec fn can_give_up(map: TileMap, start: (i32, i32), goal: (i32, i32)) -> bool {
    exists|log: Seq<(i32, i32, i64)>| log.len() == MAX_NODES + 1 && #[trigger] expansions_ok(map, start, goal, log)
}

/// Book-keeping that makes the expansions distinct: every reached tile's best
/// cost is the cost of a walk; no two open entries hold one tile at one cost;
/// no open entry repeats an expansion; every expanded tile is reached at a best
/// cost no higher than it was expanded at.
pub open spec fn log_inv(
    map: TileMap,
    start: (i32, i32),
    goal: (i32, i32),
    best: Map<u64, i64>,
    from: Map<u64, (i32, i32)>,
    open: Seq<(i64, i64, i32, i32)>,
    log: Seq<(i32, i32, i64)>,
) -> bool {
    &&& forall|p: (i32, i32)| #[trigger] reached(map, start, from, p) ==> costs_walk(map, start, p, gval(map, start, best, p))
    &&& forall|i: int, j: int|
        0 <= i < open.len() && 0 <= j < open.len() && i != j && (#[trigger] open[i]).2 == (#[trigger] open[j]).2
            && open[i].3 == open[j].3 ==> open[i].1 != open[j].1
    &&& forall|i: int, k: int|
        0 <= i < open.len() && 0 <= k < log.len() && (#[trigger] open[i]).2 == (#[trigger] log[k]).0 && open[i].3
            == log[k].1 ==> open[i].1 != log[k].2
    &&& forall|k: int|
        0 <= k < log.len() ==> reached(map, start, from, (#[trigger] log[k].0, log[k].1)) && gval(
            map,
            start,
            best,
            (log[k].0, log[k].1),
        ) <= log[k].2
    &&& expansions_ok(map, start, goal, log)
}

/// What `TileMap::search` concluded.
#[derive(Debug, Clone)]
pub enum PathSearch {
    /// A path: its steps, excluding the start and ending at the goal (none when
    /// the start is the goal).
    Found(Vec<(i32, i32)>),
    /// The search ran out of tiles to try: no walk leads to the goal.
    Unreachable,
    /// The search stopped without reaching the goal when it took a tile from
    /// the open list at its best cost for the `MAX_NODES + 1`-th time: these
    /// tiles, with the costs they were taken at, in order.
    GaveUp(Vec<(i32, i32, i64)>),
}

/// `path` is what a search from `start` to `goal` may return: a walk from
/// `start` ending at `goal`, leaving `start` out and repeating no tile, empty
/// exactly when `start` is the goal.
pub open spec fn path_ok(map: TileMap, start: (i32, i32), goal: (i32, i32), path: Seq<(i32, i32)>) -> bool {
    &&& path.len() > 0 ==> path.last() == goal
    &&& (path.len() == 0 <==> start == goal)
    &&& is_walk_from(map, start, path)
    &&& !path.contains(start)
    &&& forall|i: int, j: int| 0 <= i < j < path.len() ==> path[i] != path[j]
}

/// Removes and returns the open entry that the search takes next.
fn pop_best(open: &mut Vec<(i64, i64, i32, i32)>) -> (e: (i64, i64, i32, i32))
    requires
        old(open)@.len() > 0,
    ensures
        exists|i: int|
            0 <= i < old(open)@.len() && e == old(open)@[i] && final(open)@ == old(open)@.update(
                i,
                old(open)@.last(),
            ).drop_last(),
        forall|j: int| 0 <= j < old(open)@.len() ==> !comes_first(#[trigger] old(open)@[j], e),
{
    let mut best: usize = 0;
    let mut i: usize = 1;
    while i < open.len()
        invariant
            open@ == old(open)@,
            open@.len() > 0,
            best < open@.len(),
            1 <= i <= open@.len(),
            forall|j: int| 0 <= j < i ==> !comes_first(#[trigger] open@[j], open@[best as int]),
        decreases open@.len() - i,
    {
        let a = open[i];
        let b = open[best];
        if a.0 < b.0 || (a.0 == b.0 && (a.1 > b.1 || (a.1 == b.1 && (a.2 > b.2 || (a.2 == b.2
            && a.3 > b.3))))) {
            best = i;
        }
        i = i + 1;
    }
    open.swap_remove(best)
}

/// Manhattan distance to the goal, ten per tile.
fn heuristic_exec(x: i32, y: i32, goal: (i32, i32)) -> (h: i64)
    ensures
        h == heuristic((x, y), goal),
        0 <= h < 0x100_0000_0000,
{
    let dx: i64 = (x as i64) - (goal.0 as i64);
    let dy: i64 = (y as i64) - (goal.1 as i64);
    let ax: i64 = if dx < 0 { -dx } else { dx };
    let ay: i64 = if dy < 0 { -dy } else { dy };
    (ax + ay) * 10
}

impl TileMap {
    /// Whether `(x, y)` is a walkable tile, for coordinates that may lie outside `i32`.
    fn walkable_wide(&self, x: i64, y: i64) -> (b: bool)
        requires
            self.wf(),
        ensures
            b ==> (i32::MIN <= x <= i32::MAX && i32::MIN <= y <= i32::MAX),
            b ==> self.spec_in_bounds(x as int, y as int),
            b == (self.spec_in_bounds(x as int, y as int) && self.spec_is_walkable(x as int, y as int)),
    {
        if x < 0 || y < 0 || x >= self.width as i64 || y >= self.height as i64 {
            false
        } else {
            self.is_walkable(x as i32, y as i32)
        }
    }

    /// The hash key of an in-grid position.
    fn key_of(&self, x: i32, y: i32) -> (k: u64)
        requires
            self.wf(),
            self.spec_in_bounds(x as int, y as int),
        ensures
            k == cell_key(self.width as int, x as int, y as int),
    {
        proof {
            lemma_cell_index_bounds(self.width as int, self.height as int, x as int, y as int);
            self.lemma_wf_cells_fit();
            assert(0 <= (y as int) * (self.width as int) < 0x4000_0000_0000_0000) by (nonlinear_arith)
                requires
                    0 <= y < 0x8000_0000,
                    0 < self.width < 0x8000_0000,
            ;
        }
        let yw: i64 = (y as i64) * (self.width as i64);
        (yw + (x as i64)) as u64
    }

    /// A* search from `start` to `goal` over walkable tiles, stepping to any of
    /// the eight neighbours (10 per straight step, 14 per diagonal one, Manhattan
    /// estimate ten per tile). Returns the steps of the path found, excluding
    /// `start` and ending at `goal`; empty when `start == goal`, when `goal` cannot
    /// be walked on, or when no path is found within `MAX_NODES` expansions. A
    /// walkable goal next to `start` is reached in that one step. No tile of the
    /// path repeats, and `start` is not on it. An empty path for a walkable goal
    /// other than `start` means that no walk leads there or that the search
    /// gave up after `MAX_NODES` expansions (see `search`).
    pub fn astar(&self, start: (i32, i32), goal: (i32, i32)) -> (path: Vec<(i32, i32)>)
        requires
            self.wf(),
        ensures
            start == goal ==> path@.len() == 0,
            !self.spec_is_walkable(goal.0 as int, goal.1 as int) ==> path@.len() == 0,
            path@.len() > 0 ==> path@.last() == goal,
            is_walk_from(*self, start, path@),
            adjacent8(start, goal) && self.spec_is_walkable(goal.0 as int, goal.1 as int) ==> path@ == seq![goal],
            !path@.contains(start),
            forall|i: int, j: int| 0 <= i < j < path@.len() ==> path@[i] != path@[j],
            path@.len() == 0 && start != goal && self.spec_is_walkable(goal.0 as int, goal.1 as int) ==> !reachable(
                *self,
                start,
                goal,
            ) || can_give_up(*self, start, goal),
    {
        match self.search(start, goal) {
            PathSearch::Found(p) => p,
            PathSearch::GaveUp(log) => {
                assert(expansions_ok(*self, start, goal, log@));
                Vec::new()
            },
            PathSearch::Unreachable => Vec::new(),
        }
    }

    /// The A* search behind `astar`, telling apart its three outcomes: a path
    /// found; the open list run dry, which proves that no walk reaches `goal`;
    /// or the search stopped after `MAX_NODES` expansions. So whenever a walk
    /// from `start` to `goal` exists, the search finds a path unless it gives up.
    pub fn search(&self, start: (i32, i32), goal: (i32, i32)) -> (r: PathSearch)
        requires
            self.wf(),
        ensures
            r matches PathSearch::Found(p) ==> path_ok(*self, start, goal, p@),
            start == goal ==> r is Found,
            r is Unreachable ==> start != goal && !reachable(*self, start, goal),
            start != goal && !self.spec_is_walkable(goal.0 as int, goal.1 as int) ==> r is Unreachable,
            r is GaveUp ==> start != goal && self.spec_is_walkable(goal.0 as int, goal.1 as int) && !adjacent8(
                start,
                goal,
            ),
            r matches PathSearch::GaveUp(log) ==> log@.len() == MAX_NODES + 1 && expansions_ok(
                *self,
                start,
                goal,
                log@,
            ),
            adjacent8(start, goal) && self.spec_is_walkable(goal.0 as int, goal.1 as int) ==> (r matches PathSearch::Found(
                p,
            ) && p@ == seq![goal]),
    {
        if start.0 == goal.0 && start.1 == goal.1 {
            return PathSearch::Found(Vec::new());
        }
        if !self.is_walkable(goal.0, goal.1) {
            proof {
                if reachable(*self, start, goal) {
                    let w = choose|w: Seq<(i32, i32)>|
                        #[trigger] is_walk_from(*self, start, w) && w.len() > 0 && w.last() == goal;
                    assert(self.spec_is_walkable(w[w.len() - 1].0 as int, w[w.len() - 1].1 as int));
                }
            }
            return PathSearch::Unreachable;
        }
        let mut open: Vec<(i64, i64, i32, i32)> = Vec::new();
        let mut best_g: HashMap<u64, i64> = HashMap::new();
        let mut came_from: HashMap<u64, (i32, i32)> = HashMap::new();
        if self.in_bounds(start.0, start.1) {
            let k = self.key_of(start.0, start.1);
            best_g.insert(k, 0);
        }
        let h0 = heuristic_exec(start.0, start.1, goal);
        open.push((h0, 0, start.0, start.1));
        let mut expanded: u32 = 0;
        let mut gave_up: bool = false;
        let mut log: Vec<(i32, i32, i64)> = Vec::new();
        let ghost mut closed: Set<(i32, i32)> = Set::empty();
        proof {
            if !self.spec_in_bounds(goal.0 as int, goal.1 as int) {
                self.lemma_outside_is_wall(goal.0 as int, goal.1 as int);
            }
            if pos_in(*self, start) && pos_key(*self, start) == pos_key(*self, goal) {
                lemma_key_injective(*self, start, goal);
            }
            assert forall|p: (i32, i32)|
                #[trigger] reached(*self, start, came_from@, p) && None::<(i32, i32)> != Some(p) implies closed.contains(p)
                || exists|i: int| 0 <= i < open@.len() && holds(#[trigger] open@[i], p, gval(*self, start, best_g@, p)) by {
                assert(holds(open@[0], p, gval(*self, start, best_g@, p)));
            }
            assert forall|p: (i32, i32)|
                pos_in(*self, p) && #[trigger] best_g@.contains_key(pos_key(*self, p)) implies reached(
                    *self,
                    start,
                    came_from@,
                    p,
                ) by {
                lemma_key_injective(*self, p, start);
            }
            assert(frontier_inv(*self, start, goal, best_g@, came_from@, open@, closed, None));
            assert forall|p: (i32, i32)| #[trigger] reached(*self, start, came_from@, p) implies costs_walk(
                *self,
                start,
                p,
                gval(*self, start, best_g@, p),
            ) by {}
            assert(log_inv(*self, start, goal, best_g@, came_from@, open@, log@));
        }
        let dirs: [(i64, i64, i64); 8] = [
            (1, 0, STRAIGHT_COST),
            (-1, 0, STRAIGHT_COST),
            (0, 1, STRAIGHT_COST),
            (0, -1, STRAIGHT_COST),
            (1, 1, DIAGONAL_COST),
            (1, -1, DIAGONAL_COST),
            (-1, 1, DIAGONAL_COST),
            (-1, -1, DIAGONAL_COST),
        ];
        while open.len() > 0
            invariant_except_break
                !gave_up,
                log@.len() == expanded,
                frontier_inv(*self, start, goal, best_g@, came_from@, open@, closed, None),
            invariant
                self.wf(),
                start != goal,
                self.spec_is_walkable(goal.0 as int, goal.1 as int),
                expanded <= MAX_NODES,
                log_inv(*self, start, goal, best_g@, came_from@, open@, log@),
                search_inv(*self, start, best_g@, came_from@, open@, 14 * expanded as int),
                dirs@ == seq![
                    (1i64, 0i64, 10i64),
                    (-1i64, 0i64, 10i64),
                    (0i64, 1i64, 10i64),
                    (0i64, -1i64, 10i64),
                    (1i64, 1i64, 14i64),
                    (1i64, -1i64, 14i64),
                    (-1i64, 1i64, 14i64),
                    (-1i64, -1i64, 14i64),
                ],
                pos_in(*self, goal),
                adjacent8(start, goal) ==> expanded <= 1,
                expanded == 0 ==> open@.len() == 1 && open@[0].1 == 0 && open@[0].2 == start.0 && open@[0].3
                    == start.1 && !best_g@.contains_key(pos_key(*self, goal)),
                expanded == 1 && adjacent8(start, goal) ==> {
                    &&& came_from@.contains_key(pos_key(*self, goal))
                    &&& came_from@[pos_key(*self, goal)] == start
                    &&& exists|i: int|
                        0 <= i < open@.len() && #[trigger] open@[i] == (
                            step_cost(start, goal),
                            step_cost(start, goal),
                            goal.0,
                            goal.1,
                        )
                    &&& forall|i: int|
                        0 <= i < open@.len() && (open@[i].2, open@[i].3) != goal ==> #[trigger] open@[i].0 >= 20
                },
            ensures
                !adjacent8(start, goal),
                gave_up || (open@.len() == 0 && frontier_inv(*self, start, goal, best_g@, came_from@, open@, closed, None)),
                gave_up ==> log@.len() == MAX_NODES + 1,
            decreases MAX_NODES - expanded, open@.len(),
        {
            let ghost open_before = open@;
            let (_f, g, cx, cy) = pop_best(&mut open);
            let cur: (i32, i32) = (cx, cy);
            proof {
                let i = choose|i: int|
                    0 <= i < open_before.len() && (_f, g, cx, cy) == open_before[i] && open@
                        == open_before.update(i, open_before.last()).drop_last();
                assert(open_before[i] == (_f, g, cx, cy));
                assert forall|j: int| 0 <= j < open@.len() implies #[trigger] open@[j] == open_before[if j == i { open_before.len() - 1 } else { j }] by {}
                lemma_pop_frontier(*self, start, goal, best_g@, came_from@, open_before, open@, i, closed);
                lemma_pop_log(*self, start, goal, best_g@, came_from@, open_before, open@, i, log@);
                if expanded == 0 {
                    assert(i == 0);
                    assert(open@.len() == 0);
                }
                if expanded == 1 && adjacent8(start, goal) && cur != goal {
                    let gi = choose|gi: int|
                        0 <= gi < open_before.len() && #[trigger] open_before[gi] == (
                            step_cost(start, goal),
                            step_cost(start, goal),
                            goal.0,
                            goal.1,
                        );
                    assert(open_before[i].0 >= 20);
                    assert(comes_first(open_before[gi], (_f, g, cx, cy)));
                    assert(false);
                }
            }
            if cx == goal.0 && cy == goal.1 {
                assert(search_inv(*self, start, best_g@, came_from@, open@, 14 * expanded as int));
                return PathSearch::Found(self.rebuild_path(start, goal, &best_g, &came_from));
            }
            let best_here: i64 = if cx == start.0 && cy == start.1 {
                0
            } else {
                let k = self.key_of(cx, cy);
                *best_g.get(&k).unwrap()
            };
            assert(best_here == gval(*self, start, best_g@, cur));
            if g > best_here {
                continue;
            }
            assert(g == gval(*self, start, best_g@, cur));
            proof {
                assert(reached(*self, start, came_from@, cur));
                assert(0 <= g <= 14 * expanded);
                lemma_log_push(*self, start, goal, best_g@, came_from@, open@, log@, cur, g);
            }
            log.push((cx, cy, g));
            if expanded >= MAX_NODES {
                gave_up = true;
                break;
            }
            expanded = expanded + 1;
            let mut d: usize = 0;
            let ghost mut gp: bool = false;
            while d < 8
                invariant
                    pos_in(*self, goal),
                    cur != goal,
                    frontier_inv(*self, start, goal, best_g@, came_from@, open@, closed, Some(cur)),
                    log_inv(*self, start, goal, best_g@, came_from@, open@, log@),
                    forall|dd: int|
                        #![trigger search_dirs()[dd]]
                        0 <= dd < d ==> ({
                            let nx = cur.0 + search_dirs()[dd].0;
                            let ny = cur.1 + search_dirs()[dd].1;
                            self.spec_in_bounds(nx, ny) && self.spec_is_walkable(nx, ny) ==> reached(
                                *self,
                                start,
                                came_from@,
                                (nx as i32, ny as i32),
                            )
                        }),
                    expanded == 1 ==> cur == start && g == 0,
                    expanded == 1 ==> forall|i: int|
                        0 <= i < open@.len() && (open@[i].2, open@[i].3) != goal ==> #[trigger] open@[i].0 >= 20,
                    expanded == 1 && gp ==> {
                        &&& came_from@.contains_key(pos_key(*self, goal))
                        &&& came_from@[pos_key(*self, goal)] == start
                        &&& best_g@.contains_key(pos_key(*self, goal))
                        &&& best_g@[pos_key(*self, goal)] == step_cost(start, goal)
                        &&& exists|i: int|
                            0 <= i < open@.len() && #[trigger] open@[i] == (
                                step_cost(start, goal),
                                step_cost(start, goal),
                                goal.0,
                                goal.1,
                            )
                    },
                    expanded == 1 && !gp ==> !best_g@.contains_key(pos_key(*self, goal)) && forall|dd: int|
                        0 <= dd < d ==> (start.0 + #[trigger] search_dirs()[dd].0, start.1 + search_dirs()[dd].1) != (
                            goal.0 as int,
                            goal.1 as int,
                        ),
                    self.wf(),
                    start != goal,
                    self.spec_is_walkable(goal.0 as int, goal.1 as int),
                    1 <= expanded <= MAX_NODES,
                    0 <= g <= 14 * (expanded - 1),
                    d <= 8,
                    cur == (cx, cy),
                    cur == start || (pos_in(*self, cur) && came_from@.contains_key(pos_key(*self, cur))),
                    g == gval(*self, start, best_g@, cur),
                    search_inv(*self, start, best_g@, came_from@, open@, 14 * expanded as int),
                    dirs@ == seq![
                        (1i64, 0i64, 10i64),
                        (-1i64, 0i64, 10i64),
                        (0i64, 1i64, 10i64),
                        (0i64, -1i64, 10i64),
                        (1i64, 1i64, 14i64),
                        (1i64, -1i64, 14i64),
                        (-1i64, 1i64, 14i64),
                        (-1i64, -1i64, 14i64),
                    ],
                decreases 8 - d,
            {
                let (dx, dy, cost) = dirs[d];
                let nx: i64 = (cx as i64) + dx;
                let ny: i64 = (cy as i64) + dy;
                proof {
                    assert(dirs@ == search_dirs());
                    lemma_search_dirs(start, d as int);
                    lemma_search_dirs(cur, d as int);
                    if expanded == 1 && !gp && (nx, ny) == (goal.0 as i64, goal.1 as i64) {
                        assert(self.spec_is_walkable(nx as int, ny as int));
                    }
                }
                let ghost open_mid = open@;
                let ghost best_mid = best_g@;
                let ghost from_mid = came_from@;
                let ghost gp_mid = gp;
                if self.walkable_wide(nx, ny) {
                    let nbx = nx as i32;
                    let nby = ny as i32;
                    let nb: (i32, i32) = (nbx, nby);
                    let nb_g: i64 = g + cost;
                    let k = self.key_of(nbx, nby);
                    let improves = match best_g.get(&k) {
                        Some(old_g) => nb_g < *old_g,
                        None => true,
                    };
                    if improves {
                        let ghost best_before = best_g@;
                        let ghost from_before = came_from@;
                        let ghost open_prev = open@;
                        proof {
                            if nb == start {
                                assert(best_g@[k] == 0);
                            }
                            assert(nb != start);
                        }
                        best_g.insert(k, nb_g);
                        came_from.insert(k, cur);
                        let h = heuristic_exec(nbx, nby, goal);
                        open.push((nb_g + h, nb_g, nbx, nby));
                        proof {
                            self.lemma_relax_keeps_inv(
                                start, best_before, from_before, open_prev, best_g@, came_from@,
                                open@, cur, g as int, nb, nb_g, 14 * expanded as int);
                            lemma_relax_log(
                                *self, start, goal, best_before, from_before, open_prev, best_g@,
                                came_from@, open@, log@, cur, g as int, nb, nb_g, 14 * expanded as int);
                            lemma_relax_frontier(
                                *self, start, goal, best_before, from_before, open_prev, best_g@,
                                came_from@, open@, closed, cur, nb, nb_g);
                            assert forall|dd: int|
                                #![trigger search_dirs()[dd]]
                                0 <= dd < d + 1 implies ({
                                    let nx = cur.0 + search_dirs()[dd].0;
                                    let ny = cur.1 + search_dirs()[dd].1;
                                    self.spec_in_bounds(nx, ny) && self.spec_is_walkable(nx, ny) ==> reached(
                                        *self,
                                        start,
                                        came_from@,
                                        (nx as i32, ny as i32),
                                    )
                                }) by {
                                if dd < d {
                                    let nx = cur.0 + search_dirs()[dd].0;
                                    let ny = cur.1 + search_dirs()[dd].1;
                                    if self.spec_in_bounds(nx, ny) && self.spec_is_walkable(nx, ny) {
                                        assert(reached(*self, start, from_before, (nx as i32, ny as i32)));
                                    }
                                }
                            }
                            if expanded == 1 {
                                let kg = pos_key(*self, goal);
                                if nb == goal {
                                    assert(!gp_mid);
                                    assert(h == 0);
                                    assert(open@[open_prev.len() as int] == (
                                        step_cost(start, goal),
                                        step_cost(start, goal),
                                        goal.0,
                                        goal.1,
                                    ));
                                    gp = true;
                                } else {
                                    if k == kg {
                                        lemma_key_injective(*self, nb, goal);
                                    }
                                    assert(h >= 10);
                                    assert(open@[open_prev.len() as int].0 >= 20);
                                    if gp {
                                        let gi = choose|gi: int|
                                            0 <= gi < open_prev.len() && #[trigger] open_prev[gi] == (
                                                step_cost(start, goal),
                                                step_cost(start, goal),
                                                goal.0,
                                                goal.1,
                                            );
                                        assert(open@[gi] == open_prev[gi]);
                                    }
                                }
                                assert forall|i: int|
                                    0 <= i < open@.len() && (open@[i].2, open@[i].3) != goal implies #[trigger] open@[i].0
                                    >= 20 by {
                                    if i < open_prev.len() {
                                        assert(open@[i] == open_prev[i]);
                                    }
                                }
                            }
                        }
                    } else {
                        proof {
                            if expanded == 1 && gp && nb == goal {
                                assert(nb_g == step_cost(start, goal));
                            }
                            assert(best_g@.contains_key(pos_key(*self, nb)));
                            assert(reached(*self, start, came_from@, nb));
                        }
                    }
                }
                d = d + 1;
            }
            proof {
                if expanded == 1 && adjacent8(start, goal) && !gp {
                    lemma_neighbour_has_dir(start, goal);
                    let dd = choose|dd: int|
                        0 <= dd < 8 && (start.0 + #[trigger] search_dirs()[dd].0, start.1 + search_dirs()[dd].1) == (
                            goal.0 as int,
                            goal.1 as int,
                        );
                    assert(false);
                }
                assert forall|n: (i32, i32)|
                    adjacent8(cur, n) && self.spec_is_walkable(n.0 as int, n.1 as int) implies #[trigger] reached(
                        *self,
                        start,
                        came_from@,
                        n,
                    ) by {
                    if !self.spec_in_bounds(n.0 as int, n.1 as int) {
                        self.lemma_outside_is_wall(n.0 as int, n.1 as int);
                    }
                    lemma_neighbour_has_dir(cur, n);
                    let dd = choose|dd: int|
                        0 <= dd < 8 && (cur.0 + #[trigger] search_dirs()[dd].0, cur.1 + search_dirs()[dd].1) == (
                            n.0 as int,
                            n.1 as int,
                        );
                }
                lemma_close_frontier(*self, start, goal, best_g@, came_from@, open@, closed, cur);
                closed = closed.insert(cur);
            }
        }
        proof {
            if !gave_up && reachable(*self, start, goal) {
                let w = choose|w: Seq<(i32, i32)>|
                    #[trigger] is_walk_from(*self, start, w) && w.len() > 0 && w.last() == goal;
                assert(open@ =~= Seq::<(i64, i64, i32, i32)>::empty());
                lemma_walk_stays_reached(*self, start, goal, best_g@, came_from@, closed, w);
                assert(reached(*self, start, came_from@, w[w.len() - 1]));
                assert(false);
            }
        }
        if gave_up {
            PathSearch::GaveUp(log)
        } else {
            PathSearch::Unreachable
        }
    }

    /// Follows the recorded parents from `goal` back to `start` and returns the
    /// tiles met, start excluded, in walking order.
    fn rebuild_path(
        &self,
        start: (i32, i32),
        goal: (i32, i32),
        best_g: &HashMap<u64, i64>,
        came_from: &HashMap<u64, (i32, i32)>,
    ) -> (path: Vec<(i32, i32)>)
        requires
            exists|o: Seq<(i64, i64, i32, i32)>, b: int| search_inv(*self, start, best_g@, came_from@, o, b),
            goal != start,
            pos_in(*self, goal),
            came_from@.contains_key(pos_key(*self, goal)),
        ensures
            path@.len() > 0,
            path@.last() == goal,
            is_walk_from(*self, start, path@),
            came_from@[pos_key(*self, goal)] == start ==> path@ == seq![goal],
            !path@.contains(start),
            forall|i: int, j: int| 0 <= i < j < path@.len() ==> path@[i] != path@[j],
    {
        let ghost ob = choose|o: Seq<(i64, i64, i32, i32)>, b: int| search_inv(*self, start, best_g@, came_from@, o, b);
        let ghost o = ob.0;
        let ghost b = ob.1;
        let mut back: Vec<(i32, i32)> = Vec::new();
        let mut node: (i32, i32) = goal;
        while !(node.0 == start.0 && node.1 == start.1)
            invariant
                search_inv(*self, start, best_g@, came_from@, o, b),
                node == start || (pos_in(*self, node) && came_from@.contains_key(pos_key(*self, node))),
                back@.len() == 0 ==> node == goal,
                back@.len() > 0 ==> back@[0] == goal && adjacent8(node, back@.last()),
                forall|i: int| 0 <= i < back@.len() ==> #[trigger] self.spec_is_walkable(back@[i].0 as int, back@[i].1 as int),
                forall|i: int| 0 < i < back@.len() ==> adjacent8(#[trigger] back@[i], back@[i - 1]),
                came_from@[pos_key(*self, goal)] == start ==> (back@.len() == 0 && node == goal) || (back@
                    == seq![goal] && node == start),
                forall|i: int| 0 <= i < back@.len() ==> #[trigger] back@[i] != start,
                forall|i: int, j: int|
                    0 <= i < j < back@.len() ==> gval(*self, start, best_g@, #[trigger] back@[j]) < gval(
                        *self,
                        start,
                        best_g@,
                        #[trigger] back@[i],
                    ),
                back@.len() > 0 ==> gval(*self, start, best_g@, node) < gval(*self, start, best_g@, back@.last()),
            decreases gval(*self, start, best_g@, node),
        {
            let k = self.key_of(node.0, node.1);
            let parent: (i32, i32) = *came_from.get(&k).unwrap();
            let ghost back_before = back@;
            back.push(node);
            node = parent;
            proof {
                assert forall|i: int, j: int| 0 <= i < j < back@.len() implies gval(*self, start, best_g@, #[trigger] back@[j])
                    < gval(*self, start, best_g@, #[trigger] back@[i]) by {
                    if j < back_before.len() {
                        assert(back@[i] == back_before[i] && back@[j] == back_before[j]);
                    } else if i < back_before.len() - 1 {
                        assert(back@[i] == back_before[i]);
                        assert(gval(*self, start, best_g@, back_before[back_before.len() - 1]) < gval(
                            *self,
                            start,
                            best_g@,
                            back_before[i],
                        ));
                    } else if i == back_before.len() - 1 {
                        assert(back@[i] == back_before[i]);
                    }
                }
                assert forall|i: int| 0 <= i < back@.len() implies #[trigger] back@[i] != start by {
                    if i < back_before.len() {
                        assert(back@[i] == back_before[i]);
                    }
                }
            }
        }
        let mut path: Vec<(i32, i32)> = Vec::new();
        let mut j: usize = back.len();
        while j > 0
            invariant
                j <= back@.len(),
                back@.len() > 0,
                back@[0] == goal,
                adjacent8(start, back@.last()),
                path@.len() == back@.len() - j,
                forall|i: int| 0 <= i < path@.len() ==> #[trigger] path@[i] == back@[back@.len() - 1 - i],
                forall|i: int| 0 <= i < back@.len() ==> #[trigger] self.spec_is_walkable(back@[i].0 as int, back@[i].1 as int),
                forall|i: int| 0 < i < back@.len() ==> adjacent8(#[trigger] back@[i], back@[i - 1]),
                forall|i: int| 0 <= i < back@.len() ==> #[trigger] back@[i] != start,
                forall|i: int, j: int|
                    0 <= i < j < back@.len() ==> gval(*self, start, best_g@, #[trigger] back@[j]) < gval(
                        *self,
                        start,
                        best_g@,
                        #[trigger] back@[i],
                    ),
            decreases j,
        {
            j = j - 1;
            path.push(back[j]);
        }
        assert forall|i: int, j: int| 0 <= i < j < path@.len() implies path@[i] != path@[j] by {
            assert(path@[i] == back@[back@.len() - 1 - i]);
            assert(path@[j] == back@[back@.len() - 1 - j]);
            assert(gval(*self, start, best_g@, back@[back@.len() - 1 - i]) < gval(
                *self,
                start,
                best_g@,
                back@[back@.len() - 1 - j],
            ));
        }
        assert(!path@.contains(start)) by {
            if path@.contains(start) {
                let i = choose|i: int| 0 <= i < path@.len() && path@[i] == start;
                assert(path@[i] == back@[back@.len() - 1 - i]);
            }
        }
        proof {
            if came_from@[pos_key(*self, goal)] == start {
                assert(path@ =~= seq![goal]);
            }
        }
        assert forall|i: int| 0 < i < path@.len() implies adjacent8(#[trigger] path@[i - 1], path@[i]) by {
            assert(path@[i - 1] == back@[back@.len() - i]);
            assert(path@[i] == back@[back@.len() - 1 - i]);
        }
        assert forall|i: int| 0 <= i < path@.len() implies #[trigger] self.spec_is_walkable(path@[i].0 as int, path@[i].1 as int) by {
            assert(path@[i] == back@[back@.len() - 1 - i]);
        }
        path
    }

    /// Recording a cheaper way to reach `nb` through `cur` keeps the search tables sound.
    proof fn lemma_relax_keeps_inv(
        &self,
        start: (i32, i32),
        best0: Map<u64, i64>,
        from0: Map<u64, (i32, i32)>,
        open0: Seq<(i64, i64, i32, i32)>,
        best1: Map<u64, i64>,
        from1: Map<u64, (i32, i32)>,
        open1: Seq<(i64, i64, i32, i32)>,
        cur: (i32, i32),
        g: int,
        nb: (i32, i32),
        nb_g: i64,
        bound: int,
    )
        requires
            search_inv(*self, start, best0, from0, open0, bound),
            cur == start || (pos_in(*self, cur) && from0.contains_key(pos_key(*self, cur))),
            g == gval(*self, start, best0, cur),
            0 <= g,
            g + 14 <= bound,
            adjacent8(cur, nb),
            pos_in(*self, nb),
            self.spec_is_walkable(nb.0 as int, nb.1 as int),
            nb != start,
            nb_g as int == g + 10 || nb_g as int == g + 14,
            best0.contains_key(pos_key(*self, nb)) ==> nb_g < best0[pos_key(*self, nb)],
            best1 == best0.insert(pos_key(*self, nb), nb_g),
            from1 == from0.insert(pos_key(*self, nb), cur),
            open1.len() == open0.len() + 1,
            forall|i: int| 0 <= i < open0.len() ==> open1[i] == open0[i],
            open1[open0.len() as int].1 == nb_g,
            open1[open0.len() as int].2 == nb.0,
            open1[open0.len() as int].3 == nb.1,
        ensures
            search_inv(*self, start, best1, from1, open1, bound),
    {
        let kn = pos_key(*self, nb);
        assert forall|p: (i32, i32)|
            #![trigger from1.contains_key(pos_key(*self, p))]
            pos_in(*self, p) && from1.contains_key(pos_key(*self, p)) implies {
                let q = from1[pos_key(*self, p)];
                &&& best1.contains_key(pos_key(*self, p))
                &&& p != start
                &&& adjacent8(q, p)
                &&& self.spec_is_walkable(p.0 as int, p.1 as int)
                &&& (q == start || (pos_in(*self, q) && from1.contains_key(pos_key(*self, q))))
                &&& 0 <= gval(*self, start, best1, q) < best1[pos_key(*self, p)]
            } by {
            if p == nb {
                if cur != start {
                    assert(from0.contains_key(pos_key(*self, cur)));
                    if pos_key(*self, cur) == kn {
                        lemma_key_injective(*self, cur, nb);
                    }
                    assert(best0.contains_key(pos_key(*self, cur)));
                }
            } else {
                if pos_key(*self, p) == kn {
                    lemma_key_injective(*self, p, nb);
                }
                assert(from0.contains_key(pos_key(*self, p)));
                let q = from0[pos_key(*self, p)];
                if q != start {
                    if q == nb {
                    } else {
                        if pos_key(*self, q) == kn {
                            lemma_key_injective(*self, q, nb);
                        }
                    }
                }
            }
        }
        if pos_in(*self, start) {
            if pos_key(*self, start) == kn {
                lemma_key_injective(*self, start, nb);
            }
        }
        assert forall|i: int|
            #![trigger open1[i]]
            0 <= i < open1.len() implies {
                let e = open1[i];
                let p = (e.2, e.3);
                &&& 0 <= e.1 <= bound
                &&& ((p == start && e.1 == 0) || (pos_in(*self, p) && from1.contains_key(pos_key(*self, p))
                    && e.1 >= best1[pos_key(*self, p)]))
            } by {
            if i < open0.len() {
                assert(open1[i] == open0[i]);
                let e = open0[i];
                let p = (e.2, e.3);
                if !(p == start && e.1 == 0) {
                    if p != nb && pos_key(*self, p) == kn {
                        lemma_key_injective(*self, p, nb);
                    }
                }
            } else {
                assert((open1[i].2, open1[i].3) == nb);
            }
        }
    }
}

/// Taking entry `i` out of the open list leaves every other reached tile waiting;
/// the tile taken out waits still when the entry was not at its best cost.
proof fn lemma_pop_frontier(
    map: TileMap,
    start: (i32, i32),
    goal: (i32, i32),
    best: Map<u64, i64>,
    from: Map<u64, (i32, i32)>,
    before: Seq<(i64, i64, i32, i32)>,
    after: Seq<(i64, i64, i32, i32)>,
    i: int,
    closed: Set<(i32, i32)>,
)
    requires
        frontier_inv(map, start, goal, best, from, before, closed, None),
        0 <= i < before.len(),
        after == before.update(i, before.last()).drop_last(),
    ensures
        frontier_inv(map, start, goal, best, from, after, closed, Some((before[i].2, before[i].3))),
        before[i].1 != gval(map, start, best, (before[i].2, before[i].3)) ==> frontier_inv(
            map,
            start,
            goal,
            best,
            from,
            after,
            closed,
            None,
        ),
{
    let cur = (before[i].2, before[i].3);
    let stale = before[i].1 != gval(map, start, best, cur);
    assert forall|p: (i32, i32)|
        #[trigger] reached(map, start, from, p) && (p != cur || stale) implies closed.contains(p) || exists|k: int|
            0 <= k < after.len() && holds(#[trigger] after[k], p, gval(map, start, best, p)) by {
        if !closed.contains(p) {
            let j = choose|j: int| 0 <= j < before.len() && holds(#[trigger] before[j], p, gval(map, start, best, p));
            assert(j != i);
            if j == before.len() - 1 {
                assert(after[i] == before[j]);
            } else {
                assert(after[j] == before[j]);
            }
        }
    }
}

/// Recording a cheaper way to reach `nb` through `cur` keeps the search spread
/// as described, and `nb` is reached.
proof fn lemma_relax_frontier(
    map: TileMap,
    start: (i32, i32),
    goal: (i32, i32),
    best0: Map<u64, i64>,
    from0: Map<u64, (i32, i32)>,
    open0: Seq<(i64, i64, i32, i32)>,
    best1: Map<u64, i64>,
    from1: Map<u64, (i32, i32)>,
    open1: Seq<(i64, i64, i32, i32)>,
    closed: Set<(i32, i32)>,
    cur: (i32, i32),
    nb: (i32, i32),
    nb_g: i64,
)
    requires
        map.wf(),
        frontier_inv(map, start, goal, best0, from0, open0, closed, Some(cur)),
        pos_in(map, nb),
        nb != start,
        nb != cur,
        best1 == best0.insert(pos_key(map, nb), nb_g),
        from1 == from0.insert(pos_key(map, nb), cur),
        open1.len() == open0.len() + 1,
        forall|i: int| 0 <= i < open0.len() ==> open1[i] == open0[i],
        open1[open0.len() as int].1 == nb_g,
        open1[open0.len() as int].2 == nb.0,
        open1[open0.len() as int].3 == nb.1,
    ensures
        frontier_inv(map, start, goal, best1, from1, open1, closed, Some(cur)),
        reached(map, start, from1, nb),
        forall|p: (i32, i32)| #[trigger] reached(map, start, from0, p) ==> reached(map, start, from1, p),
{
    let kn = pos_key(map, nb);
    assert forall|p: (i32, i32)| #[trigger] reached(map, start, from0, p) implies reached(map, start, from1, p) by {}
    assert forall|p: (i32, i32)|
        #[trigger] reached(map, start, from1, p) && Some(cur) != Some(p) implies closed.contains(p) || exists|k: int|
            0 <= k < open1.len() && holds(#[trigger] open1[k], p, gval(map, start, best1, p)) by {
        if p == nb {
            assert(holds(open1[open0.len() as int], p, gval(map, start, best1, p)));
        } else {
            if pos_in(map, p) && pos_key(map, p) == kn {
                lemma_key_injective(map, p, nb);
            }
            assert(reached(map, start, from0, p));
            assert(gval(map, start, best1, p) == gval(map, start, best0, p));
            if !closed.contains(p) {
                let j = choose|j: int| 0 <= j < open0.len() && holds(#[trigger] open0[j], p, gval(map, start, best0, p));
                assert(open1[j] == open0[j]);
            }
        }
    }
    assert forall|p: (i32, i32), n: (i32, i32)|
        #![trigger closed.contains(p), reached(map, start, from1, n)]
        closed.contains(p) && adjacent8(p, n) && map.spec_is_walkable(n.0 as int, n.1 as int) implies reached(
            map,
            start,
            from1,
            n,
        ) by {
        assert(reached(map, start, from0, n));
    }
    assert forall|p: (i32, i32)|
        pos_in(map, p) && #[trigger] best1.contains_key(pos_key(map, p)) implies reached(map, start, from1, p) by {
        if pos_key(map, p) == kn {
            lemma_key_injective(map, p, nb);
        } else {
            assert(best0.contains_key(pos_key(map, p)));
            assert(reached(map, start, from0, p));
        }
    }
}

/// Once every walkable neighbour of `cur` is reached, `cur` can be closed.
proof fn lemma_close_frontier(
    map: TileMap,
    start: (i32, i32),
    goal: (i32, i32),
    best: Map<u64, i64>,
    from: Map<u64, (i32, i32)>,
    open: Seq<(i64, i64, i32, i32)>,
    closed: Set<(i32, i32)>,
    cur: (i32, i32),
)
    requires
        frontier_inv(map, start, goal, best, from, open, closed, Some(cur)),
        cur != goal,
        forall|n: (i32, i32)|
            adjacent8(cur, n) && map.spec_is_walkable(n.0 as int, n.1 as int) ==> #[trigger] reached(map, start, from, n),
    ensures
        frontier_inv(map, start, goal, best, from, open, closed.insert(cur), None),
{
    let c2 = closed.insert(cur);
    assert forall|p: (i32, i32)|
        #[trigger] reached(map, start, from, p) && None::<(i32, i32)> != Some(p) implies c2.contains(p) || exists|i: int|
            0 <= i < open.len() && holds(#[trigger] open[i], p, gval(map, start, best, p)) by {
        if p != cur {
            assert(Some(cur) != Some(p));
        }
    }
    assert forall|p: (i32, i32), n: (i32, i32)|
        #![trigger c2.contains(p), reached(map, start, from, n)]
        c2.contains(p) && adjacent8(p, n) && map.spec_is_walkable(n.0 as int, n.1 as int) implies reached(
            map,
            start,
            from,
            n,
        ) by {
        if p != cur {
            assert(closed.contains(p));
        }
    }
}

/// When nothing waits in the open list, every walk from `start` stays on reached tiles.
proof fn lemma_walk_stays_reached(
    map: TileMap,
    start: (i32, i32),
    goal: (i32, i32),
    best: Map<u64, i64>,
    from: Map<u64, (i32, i32)>,
    closed: Set<(i32, i32)>,
    path: Seq<(i32, i32)>,
)
    requires
        frontier_inv(map, start, goal, best, from, Seq::empty(), closed, None),
        is_walk_from(map, start, path),
    ensures
        forall|i: int| 0 <= i < path.len() ==> #[trigger] reached(map, start, from, path[i]),
    decreases path.len(),
{
    if path.len() > 0 {
        let front = path.drop_last();
        assert(is_walk_from(map, start, front)) by {
            assert forall|i: int| 0 <= i < front.len() implies #[trigger] map.spec_is_walkable(
                front[i].0 as int,
                front[i].1 as int,
            ) by {
                assert(front[i] == path[i]);
            }
            assert forall|i: int| 0 < i < front.len() implies adjacent8(#[trigger] front[i - 1], front[i]) by {
                assert(front[i - 1] == path[i - 1]);
                assert(front[i] == path[i]);
            }
        }
        lemma_walk_stays_reached(map, start, goal, best, from, closed, front);
        let j = path.len() - 1;
        let prev = if j == 0 {
            start
        } else {
            path[j - 1]
        };
        if j > 0 {
            assert(front[j - 1] == path[j - 1]);
            assert(reached(map, start, from, front[j - 1]));
            assert(adjacent8(path[j - 1], path[j]));
        }
        assert(reached(map, start, from, prev));
        assert(closed.contains(prev));
        assert(map.spec_is_walkable(path[j].0 as int, path[j].1 as int));
        assert(reached(map, start, from, path[j]));
        assert forall|i: int| 0 <= i < path.len() implies #[trigger] reached(map, start, from, path[i]) by {
            if i < j {
                assert(front[i] == path[i]);
                assert(reached(map, start, from, front[i]));
            }
        }
    }
}

/// A walk extended by one walkable neighbour of its last tile is a walk, and
/// costs one step more.
proof fn lemma_walk_push(map: TileMap, start: (i32, i32), w: Seq<(i32, i32)>, x: (i32, i32))
    requires
        is_walk_from(map, start, w),
        map.spec_is_walkable(x.0 as int, x.1 as int),
        adjacent8(if w.len() == 0 { start } else { w.last() }, x),
    ensures
        is_walk_from(map, start, w.push(x)),
        walk_cost(start, w.push(x)) == walk_cost(start, w) + step_cost(
            if w.len() == 0 {
                start
            } else {
                w.last()
            },
            x,
        ),
{
    let w2 = w.push(x);
    assert(w2.drop_last() =~= w);
    assert forall|i: int| 0 <= i < w2.len() implies #[trigger] map.spec_is_walkable(w2[i].0 as int, w2[i].1 as int) by {
        if i < w.len() {
            assert(w2[i] == w[i]);
        }
    }
    assert forall|i: int| 0 < i < w2.len() implies adjacent8(#[trigger] w2[i - 1], w2[i]) by {
        if i < w.len() {
            assert(w2[i - 1] == w[i - 1]);
            assert(w2[i] == w[i]);
        } else {
            assert(w2[i - 1] == w.last());
        }
    }
}

/// Stepping from a tile reached at cost `c` to a walkable neighbour costs one
/// step more along some walk.
proof fn lemma_costs_walk_step(map: TileMap, start: (i32, i32), p: (i32, i32), c: int, x: (i32, i32))
    requires
        costs_walk(map, start, p, c),
        map.spec_is_walkable(x.0 as int, x.1 as int),
        adjacent8(p, x),
    ensures
        costs_walk(map, start, x, c + step_cost(p, x)),
{
    if p == start && c == 0 {
        let w: Seq<(i32, i32)> = Seq::empty();
        lemma_walk_push(map, start, w, x);
        assert(w.push(x).last() == x);
    } else {
        let w = choose|w: Seq<(i32, i32)>|
            #[trigger] is_walk_from(map, start, w) && w.len() > 0 && w.last() == p && walk_cost(start, w) == c;
        lemma_walk_push(map, start, w, x);
        assert(w.push(x).last() == x);
    }
}

/// Taking entry `i` out of the open list keeps the book-keeping; the entry's
/// tile and cost then neither wait in the open list nor were expanded before.
proof fn lemma_pop_log(
    map: TileMap,
    start: (i32, i32),
    goal: (i32, i32),
    best: Map<u64, i64>,
    from: Map<u64, (i32, i32)>,
    before: Seq<(i64, i64, i32, i32)>,
    after: Seq<(i64, i64, i32, i32)>,
    i: int,
    log: Seq<(i32, i32, i64)>,
)
    requires
        log_inv(map, start, goal, best, from, before, log),
        0 <= i < before.len(),
        after == before.update(i, before.last()).drop_last(),
    ensures
        log_inv(map, start, goal, best, from, after, log),
        forall|k: int|
            0 <= k < log.len() && (#[trigger] log[k]).0 == before[i].2 && log[k].1 == before[i].3 ==> log[k].2
                != before[i].1,
        forall|j: int|
            0 <= j < after.len() && (#[trigger] after[j]).2 == before[i].2 && after[j].3 == before[i].3 ==> after[j].1
                != before[i].1,
{
    let last = before.len() - 1;
    assert forall|j: int| 0 <= j < after.len() implies #[trigger] after[j] == before[if j == i {
        last
    } else {
        j
    }] by {}
    assert forall|a: int, b: int|
        0 <= a < after.len() && 0 <= b < after.len() && a != b && (#[trigger] after[a]).2 == (#[trigger] after[b]).2
            && after[a].3 == after[b].3 implies after[a].1 != after[b].1 by {
        let a2 = if a == i { last } else { a };
        let b2 = if b == i { last } else { b };
        assert(after[a] == before[a2] && after[b] == before[b2]);
    }
    assert forall|a: int, k: int|
        0 <= a < after.len() && 0 <= k < log.len() && (#[trigger] after[a]).2 == (#[trigger] log[k]).0 && after[a].3
            == log[k].1 implies after[a].1 != log[k].2 by {
        let a2 = if a == i { last } else { a };
        assert(after[a] == before[a2]);
    }
    assert forall|k: int|
        0 <= k < log.len() && (#[trigger] log[k]).0 == before[i].2 && log[k].1 == before[i].3 implies log[k].2
        != before[i].1 by {
        assert(before[i] == before[i]);
    }
    assert forall|j: int|
        0 <= j < after.len() && (#[trigger] after[j]).2 == before[i].2 && after[j].3 == before[i].3 implies after[j].1
        != before[i].1 by {
        let j2 = if j == i { last } else { j };
        assert(after[j] == before[j2]);
        assert(j2 != i);
    }
}

/// Recording the expansion of a reached tile at its best cost keeps the book-keeping.
proof fn lemma_log_push(
    map: TileMap,
    start: (i32, i32),
    goal: (i32, i32),
    best: Map<u64, i64>,
    from: Map<u64, (i32, i32)>,
    open: Seq<(i64, i64, i32, i32)>,
    log: Seq<(i32, i32, i64)>,
    cur: (i32, i32),
    g: i64,
)
    requires
        log_inv(map, start, goal, best, from, open, log),
        reached(map, start, from, cur),
        g == gval(map, start, best, cur),
        cur != goal,
        0 <= g <= 14 * log.len(),
        log.len() == 0 ==> cur == start && g == 0,
        forall|k: int| 0 <= k < log.len() && (#[trigger] log[k]).0 == cur.0 && log[k].1 == cur.1 ==> log[k].2 != g,
        forall|j: int| 0 <= j < open.len() && (#[trigger] open[j]).2 == cur.0 && open[j].3 == cur.1 ==> open[j].1 != g,
    ensures
        log_inv(map, start, goal, best, from, open, log.push((cur.0, cur.1, g))),
{
    let log2 = log.push((cur.0, cur.1, g));
    let n = log.len() as int;
    assert(log2[n] == (cur.0, cur.1, g));
    assert(reached(map, start, from, cur));
    assert forall|a: int, k: int|
        0 <= a < open.len() && 0 <= k < log2.len() && (#[trigger] open[a]).2 == (#[trigger] log2[k]).0 && open[a].3
            == log2[k].1 implies open[a].1 != log2[k].2 by {
        if k < n {
            assert(log2[k] == log[k]);
        }
    }
    assert forall|k: int|
        0 <= k < log2.len() implies reached(map, start, from, (#[trigger] log2[k].0, log2[k].1)) && gval(
            map,
            start,
            best,
            (log2[k].0, log2[k].1),
        ) <= log2[k].2 by {
        if k < n {
            assert(log2[k] == log[k]);
        }
    }
    assert forall|k: int, m: int| 0 <= k < m < log2.len() implies #[trigger] log2[k] != #[trigger] log2[m] by {
        assert(log2[k] == log[k]);
        if m < n {
            assert(log2[m] == log[m]);
        }
    }
    assert forall|k: int, m: int|
        0 <= k < m < log2.len() && (#[trigger] log2[k]).0 == (#[trigger] log2[m]).0 && log2[k].1 == log2[m].1 implies log2[m].2
        < log2[k].2 by {
        assert(log2[k] == log[k]);
        if m < n {
            assert(log2[m] == log[m]);
        } else {
            assert(gval(map, start, best, (log[k].0, log[k].1)) <= log[k].2);
        }
    }
    assert forall|k: int| 0 <= k < log2.len() implies 0 <= (#[trigger] log2[k]).2 <= 14 * k by {
        if k < n {
            assert(log2[k] == log[k]);
        }
    }
    assert forall|k: int|
        0 <= k < log2.len() implies (#[trigger] log2[k].0, log2[k].1) != goal && costs_walk(
            map,
            start,
            (log2[k].0, log2[k].1),
            log2[k].2 as int,
        ) by {
        if k < n {
            assert(log2[k] == log[k]);
        } else {
            assert((log2[k].0, log2[k].1) == cur);
        }
    }
}

/// Recording a cheaper way to reach `nb` through `cur` keeps the book-keeping.
proof fn lemma_relax_log(
    map: TileMap,
    start: (i32, i32),
    goal: (i32, i32),
    best0: Map<u64, i64>,
    from0: Map<u64, (i32, i32)>,
    open0: Seq<(i64, i64, i32, i32)>,
    best1: Map<u64, i64>,
    from1: Map<u64, (i32, i32)>,
    open1: Seq<(i64, i64, i32, i32)>,
    log: Seq<(i32, i32, i64)>,
    cur: (i32, i32),
    g: int,
    nb: (i32, i32),
    nb_g: i64,
    bound: int,
)
    requires
        search_inv(map, start, best0, from0, open0, bound),
        log_inv(map, start, goal, best0, from0, open0, log),
        reached(map, start, from0, cur),
        g == gval(map, start, best0, cur),
        adjacent8(cur, nb),
        pos_in(map, nb),
        map.spec_is_walkable(nb.0 as int, nb.1 as int),
        nb != start,
        nb_g as int == g + step_cost(cur, nb),
        best0.contains_key(pos_key(map, nb)) ==> nb_g < best0[pos_key(map, nb)],
        best1 == best0.insert(pos_key(map, nb), nb_g),
        from1 == from0.insert(pos_key(map, nb), cur),
        open1.len() == open0.len() + 1,
        forall|i: int| 0 <= i < open0.len() ==> open1[i] == open0[i],
        open1[open0.len() as int].1 == nb_g,
        open1[open0.len() as int].2 == nb.0,
        open1[open0.len() as int].3 == nb.1,
    ensures
        log_inv(map, start, goal, best1, from1, open1, log),
{
    let kn = pos_key(map, nb);
    let n = open0.len() as int;
    assert(reached(map, start, from0, cur));
    assert(costs_walk(map, start, cur, g));
    lemma_costs_walk_step(map, start, cur, g, nb);
    // a tile other than `nb` keeps its key, its reach and its cost
    assert forall|p: (i32, i32)| p != nb && (p == start || pos_in(map, p)) implies (reached(map, start, from1, p) == reached(map, start, from0, p)
        && gval(map, start, best1, p) == gval(map, start, best0, p)) by {
        if pos_in(map, p) && pos_key(map, p) == kn {
            lemma_key_injective(map, p, nb);
        }
    }
    // `nb`, if reached before, was reached at a higher cost
    assert(reached(map, start, from0, nb) ==> best0.contains_key(kn) && nb_g < gval(map, start, best0, nb));
    assert forall|p: (i32, i32)| #[trigger] reached(map, start, from1, p) implies costs_walk(
        map,
        start,
        p,
        gval(map, start, best1, p),
    ) by {
        if p != nb {
            assert(reached(map, start, from0, p));
        }
    }
    assert forall|a: int, b: int|
        0 <= a < open1.len() && 0 <= b < open1.len() && a != b && (#[trigger] open1[a]).2 == (#[trigger] open1[b]).2
            && open1[a].3 == open1[b].3 implies open1[a].1 != open1[b].1 by {
        if a < n && b < n {
            assert(open1[a] == open0[a] && open1[b] == open0[b]);
        } else {
            let o = if a < n { a } else { b };
            assert(open1[o] == open0[o]);
            let e = open0[o];
            assert(0 <= e.1 && ((e.2, e.3) == start && e.1 == 0 || (pos_in(map, (e.2, e.3)) && from0.contains_key(
                pos_key(map, (e.2, e.3)),
            ) && e.1 >= best0[pos_key(map, (e.2, e.3))])));
            assert((e.2, e.3) == nb);
        }
    }
    assert forall|a: int, k: int|
        0 <= a < open1.len() && 0 <= k < log.len() && (#[trigger] open1[a]).2 == (#[trigger] log[k]).0 && open1[a].3
            == log[k].1 implies open1[a].1 != log[k].2 by {
        if a < n {
            assert(open1[a] == open0[a]);
        } else {
            assert((log[k].0, log[k].1) == nb);
            assert(reached(map, start, from0, (log[k].0, log[k].1)));
        }
    }
    assert forall|k: int|
        0 <= k < log.len() implies reached(map, start, from1, (#[trigger] log[k].0, log[k].1)) && gval(
            map,
            start,
            best1,
            (log[k].0, log[k].1),
        ) <= log[k].2 by {
        let p = (log[k].0, log[k].1);
        assert(reached(map, start, from0, p));
        if p != nb {
        }
    }
}

} // verus!
