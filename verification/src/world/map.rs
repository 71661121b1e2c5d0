use vstd::prelude::*;

use super::tile::{spec_walkable, TileType};

verus! {

/// Number of cells of a `width` × `height` grid; a grid with a side that is not
/// positive has no cells.
pub open spec fn cell_count(width: int, height: int) -> int {
    if width > 0 && height > 0 {
        width * height
    } else {
        0
    }
}

/// Whether `(a, b)` lies in the rectangle with corners `(x1, y1)` and `(x2, y2)`,
/// both included.
pub open spec fn in_rect(a: int, b: int, x1: int, y1: int, x2: int, y2: int) -> bool {
    x1 <= a <= x2 && y1 <= b <= y2
}

/// Row-major position of the cell `(x, y)` in a grid `width` cells wide.
pub open spec fn cell_index(width: int, x: int, y: int) -> int {
    y * width + x
}

/// A cell inside the grid has an index inside the cell storage.
pub proof fn lemma_cell_index_bounds(width: int, height: int, x: int, y: int)
    requires
        0 <= x < width,
        0 <= y < height,
    ensures
        0 <= cell_index(width, x, y) < cell_count(width, height),
{
    assert(0 <= y * width) by (nonlinear_arith)
        requires
            0 <= y,
            0 <= width,
    ;
    assert(y * width + x < width * height) by (nonlinear_arith)
        requires
            0 <= x < width,
            0 <= y < height,
    ;
}

/// Distinct cells of the grid have distinct indices.
pub proof fn lemma_cell_index_injective(width: int, x1: int, y1: int, x2: int, y2: int)
    requires
        0 <= x1 < width,
        0 <= x2 < width,
        0 <= y1,
        0 <= y2,
        cell_index(width, x1, y1) == cell_index(width, x2, y2),
    ensures
        x1 == x2,
        y1 == y2,
{
    if y1 < y2 {
        assert(y1 * width + width <= y2 * width) by (nonlinear_arith)
            requires
                y1 < y2,
                0 <= width,
        ;
    } else if y2 < y1 {
        assert(y2 * width + width <= y1 * width) by (nonlinear_arith)
            requires
                y2 < y1,
                0 <= width,
        ;
    }
}

/// A rectangular grid of tiles. Coordinates outside the grid read as walls.
#[derive(Debug, Clone)]
pub struct TileMap {
    pub width: i32,
    pub height: i32,
    pub tiles: Vec<TileType>,
    pub exit_pos: Option<(i32, i32)>,
}

impl TileMap {
    /// The cell storage holds exactly one tile per cell.
    pub open spec fn wf(&self) -> bool {
        self.tiles@.len() == cell_count(self.width as int, self.height as int)
    }

    /// Whether `(x, y)` lies inside the grid.
    pub open spec fn spec_in_bounds(&self, x: int, y: int) -> bool {
        0 <= x < self.width && 0 <= y < self.height
    }

    /// The tile at `(x, y)`; a wall outside the grid.
    pub open spec fn spec_tile_at(&self, x: int, y: int) -> TileType {
        if self.spec_in_bounds(x, y) {
            self.tiles@[cell_index(self.width as int, x, y)]
        } else {
            TileType::Wall
        }
    }

    /// Whether the tile at `(x, y)` can be walked on.
    pub open spec fn spec_is_walkable(&self, x: int, y: int) -> bool {
        spec_walkable(self.spec_tile_at(x, y))
    }

    /// A well-formed map has no more cells than a `usize` can count.
    pub proof fn lemma_wf_cells_fit(&self)
        requires
            self.wf(),
        ensures
            cell_count(self.width as int, self.height as int) <= usize::MAX,
    {
        assert(self.tiles.len() == self.tiles@.len());
    }

    /// Everything outside the grid reads as a wall.
    pub proof fn lemma_outside_is_wall(&self, x: int, y: int)
        requires
            !self.spec_in_bounds(x, y),
        ensures
            self.spec_tile_at(x, y) == TileType::Wall,
    {
    }

    /// A `width` × `height` map filled with `default_tile`, with no exit marked.
    pub fn new(width: i32, height: i32, default_tile: TileType) -> (m: Self)
        requires
            cell_count(width as int, height as int) <= usize::MAX,
        ensures
            m.wf(),
            m.width == width,
            m.height == height,
            m.exit_pos.is_none(),
            forall|x: int, y: int|
                #[trigger] m.spec_tile_at(x, y) == if m.spec_in_bounds(x, y) {
                    default_tile
                } else {
                    TileType::Wall
                },
    {
        let n: usize = if width > 0 && height > 0 {
            proof {
                assert(0 <= (width as int) * (height as int) < 0x4000_0000_0000_0000) by (nonlinear_arith)
                    requires
                        0 < width < 0x8000_0000,
                        0 < height < 0x8000_0000,
                ;
            }
            ((width as i64) * (height as i64)) as usize
        } else {
            0
        };
        let mut tiles: Vec<TileType> = Vec::new();
        let mut i: usize = 0;
        while i < n
            invariant
                i <= n,
                tiles@.len() == i,
                forall|k: int| 0 <= k < i ==> tiles@[k] == default_tile,
            decreases n - i,
        {
            tiles.push(default_tile);
            i = i + 1;
        }
        let m = TileMap { width, height, tiles, exit_pos: None };
        assert forall|x: int, y: int| #[trigger]
            m.spec_tile_at(x, y) == if m.spec_in_bounds(x, y) {
                default_tile
            } else {
                TileType::Wall
            } by {
            if m.spec_in_bounds(x, y) {
                lemma_cell_index_bounds(width as int, height as int, x, y);
            }
        }
        m
    }

    /// Whether `(x, y)` lies inside the grid.
    pub fn in_bounds(&self, x: i32, y: i32) -> (b: bool)
        ensures
            b == self.spec_in_bounds(x as int, y as int),
    {
        x >= 0 && x < self.width && y >= 0 && y < self.height
    }

    /// Storage position of the in-grid cell `(x, y)`.
    fn index_of(&self, x: i32, y: i32) -> (i: usize)
        requires
            self.wf(),
            self.spec_in_bounds(x as int, y as int),
        ensures
            i as int == cell_index(self.width as int, x as int, y as int),
            i < self.tiles@.len(),
    {
        proof {
            lemma_cell_index_bounds(self.width as int, self.height as int, x as int, y as int);
            assert(0 <= (y as int) * (self.width as int) < 0x4000_0000_0000_0000) by (nonlinear_arith)
                requires
                    0 <= y < 0x8000_0000,
                    0 < self.width < 0x8000_0000,
            ;
        }
        let yw: i64 = (y as i64) * (self.width as i64);
        let idx: i64 = yw + (x as i64);
        assert(idx == cell_index(self.width as int, x as int, y as int));
        let n = self.tiles.len();
        assert(idx < n);
        idx as usize
    }

    /// The tile at `(x, y)`; a wall outside the grid.
    pub fn tile_at(&self, x: i32, y: i32) -> (t: TileType)
        requires
            self.wf(),
        ensures
            t == self.spec_tile_at(x as int, y as int),
    {
        if self.in_bounds(x, y) {
            let idx = self.index_of(x, y);
            self.tiles[idx]
        } else {
            TileType::Wall
        }
    }

    /// Whether the tile at `(x, y)` can be walked on; never outside the grid.
    pub fn is_walkable(&self, x: i32, y: i32) -> (b: bool)
        requires
            self.wf(),
        ensures
            b == self.spec_is_walkable(x as int, y as int),
            b ==> self.spec_in_bounds(x as int, y as int),
    {
        self.tile_at(x, y).is_walkable()
    }

    /// Writes `tile` at `(x, y)`; a write outside the grid changes nothing.
    pub fn set(&mut self, x: i32, y: i32, tile: TileType)
        requires
            old(self).wf(),
        ensures
            final(self).wf(),
            final(self).width == old(self).width,
            final(self).height == old(self).height,
            final(self).exit_pos == old(self).exit_pos,
            forall|a: int, b: int|
                #[trigger] final(self).spec_tile_at(a, b) == if a == x && b == y
                    && old(self).spec_in_bounds(a, b) {
                    tile
                } else {
                    old(self).spec_tile_at(a, b)
                },
    {
        if self.in_bounds(x, y) {
            let idx = self.index_of(x, y);
            let ghost before = *self;
            self.tiles.set(idx, tile);
            assert forall|a: int, b: int| #[trigger]
                self.spec_tile_at(a, b) == if a == x && b == y && before.spec_in_bounds(a, b) {
                    tile
                } else {
                    before.spec_tile_at(a, b)
                } by {
                if before.spec_in_bounds(a, b) {
                    lemma_cell_index_bounds(before.width as int, before.height as int, a, b);
                    if a != x || b != y {
                        if cell_index(before.width as int, a, b) == idx {
                            lemma_cell_index_injective(before.width as int, a, b, x as int, y as int);
                        }
                    }
                }
            }
        }
    }

    /// Writes `tile` on every cell of the rectangle with corners `(x1, y1)` and
    /// `(x2, y2)`, both included, that lies inside the grid.
    pub fn fill_rect(&mut self, x1: i32, y1: i32, x2: i32, y2: i32, tile: TileType)
        requires
            old(self).wf(),
        ensures
            final(self).wf(),
            final(self).width == old(self).width,
            final(self).height == old(self).height,
            final(self).exit_pos == old(self).exit_pos,
            forall|a: int, b: int|
                #[trigger] final(self).spec_tile_at(a, b) == if in_rect(a, b, x1 as int, y1 as int, x2 as int, y2 as int)
                    && old(self).spec_in_bounds(a, b) {
                    tile
                } else {
                    old(self).spec_tile_at(a, b)
                },
    {
        let ghost orig = *self;
        let ax1: i64 = if x1 < 0 { 0 } else { x1 as i64 };
        let ay1: i64 = if y1 < 0 { 0 } else { y1 as i64 };
        let ax2: i64 = if (x2 as i64) < (self.width as i64) - 1 { x2 as i64 } else { (self.width as i64) - 1 };
        let ay2: i64 = if (y2 as i64) < (self.height as i64) - 1 { y2 as i64 } else { (self.height as i64) - 1 };
        let mut y: i64 = ay1;
        while y <= ay2
            invariant
                self.wf(),
                self.width == orig.width,
                self.height == orig.height,
                self.exit_pos == orig.exit_pos,
                ay1 <= y,
                y <= ay2 + 1 || y == ay1,
                ax1 as int == if x1 < 0 { 0 } else { x1 as int },
                ay1 as int == if y1 < 0 { 0 } else { y1 as int },
                ax2 as int == if x2 < orig.width - 1 { x2 as int } else { orig.width - 1 },
                ay2 as int == if y2 < orig.height - 1 { y2 as int } else { orig.height - 1 },
                forall|a: int, b: int|
                    #[trigger] self.spec_tile_at(a, b) == if in_rect(a, b, x1 as int, y1 as int, x2 as int, y2 as int)
                        && b < y && orig.spec_in_bounds(a, b) {
                        tile
                    } else {
                        orig.spec_tile_at(a, b)
                    },
            decreases ay2 + 1 - y,
        {
            let mut x: i64 = ax1;
            while x <= ax2
                invariant
                    self.wf(),
                    self.width == orig.width,
                    self.height == orig.height,
                    self.exit_pos == orig.exit_pos,
                    ay1 <= y <= ay2,
                    ax1 <= x,
                    x <= ax2 + 1 || x == ax1,
                    ax1 as int == if x1 < 0 { 0 } else { x1 as int },
                    ay1 as int == if y1 < 0 { 0 } else { y1 as int },
                    ax2 as int == if x2 < orig.width - 1 { x2 as int } else { orig.width - 1 },
                    ay2 as int == if y2 < orig.height - 1 { y2 as int } else { orig.height - 1 },
                    forall|a: int, b: int|
                        #[trigger] self.spec_tile_at(a, b) == if in_rect(a, b, x1 as int, y1 as int, x2 as int, y2 as int)
                            && (b < y || (b == y && a < x)) && orig.spec_in_bounds(a, b) {
                            tile
                        } else {
                            orig.spec_tile_at(a, b)
                        },
                decreases ax2 + 1 - x,
            {
                self.set(x as i32, y as i32, tile);
                x = x + 1;
            }
            y = y + 1;
        }
    }

    /// Every cell of the grid with its coordinates, row by row.
    pub fn iter_tiles(&self) -> (v: Vec<(i32, i32, TileType)>)
        requires
            self.wf(),
        ensures
            v@.len() == cell_count(self.width as int, self.height as int),
            forall|x: int, y: int|
                #![trigger self.spec_tile_at(x, y)]
                self.spec_in_bounds(x, y) ==> {
                    &&& 0 <= cell_index(self.width as int, x, y) < v@.len()
                    &&& v@[cell_index(self.width as int, x, y)] == (x as i32, y as i32, self.spec_tile_at(x, y))
                },
    {
        let mut v: Vec<(i32, i32, TileType)> = Vec::new();
        let mut y: i32 = 0;
        while y < self.height
            invariant
                self.wf(),
                0 <= y,
                y <= self.height || self.height <= 0,
                self.height > 0 ==> v@.len() == cell_count(self.width as int, y as int),
                self.height <= 0 ==> v@.len() == 0,
                forall|a: int, b: int|
                    #![trigger self.spec_tile_at(a, b)]
                    self.spec_in_bounds(a, b) && b < y ==> {
                        &&& 0 <= cell_index(self.width as int, a, b) < v@.len()
                        &&& v@[cell_index(self.width as int, a, b)] == (a as i32, b as i32, self.spec_tile_at(a, b))
                    },
            decreases self.height - y,
        {
            let mut x: i32 = 0;
            while x < self.width
                invariant
                    self.wf(),
                    0 <= y < self.height,
                    0 <= x,
                    x <= self.width || self.width <= 0,
                    v@.len() == cell_count(self.width as int, y as int) + (if self.width > 0 { x as int } else { 0 }),
                    forall|a: int, b: int|
                        #![trigger self.spec_tile_at(a, b)]
                        self.spec_in_bounds(a, b) && (b < y || (b == y && a < x)) ==> {
                            &&& 0 <= cell_index(self.width as int, a, b) < v@.len()
                            &&& v@[cell_index(self.width as int, a, b)] == (a as i32, b as i32, self.spec_tile_at(a, b))
                        },
                decreases self.width - x,
            {
                proof {
                    if y > 0 {
                        assert(cell_count(self.width as int, y as int) == cell_index(self.width as int, 0, y as int));
                    }
                }
                let t = self.tile_at(x, y);
                v.push((x, y, t));
                x = x + 1;
            }
            proof {
                if self.width > 0 {
                    assert(cell_count(self.width as int, y as int) + self.width == cell_count(self.width as int, y + 1))
                        by (nonlinear_arith)
                        requires
                            self.width > 0,
                            y >= 0,
                    ;
                }
            }
            y = y + 1;
        }
        v
    }
}

} // verus!
