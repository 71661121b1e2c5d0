//! The minimap: a square window of the tile map around the player, one
//! coloured cell per tile, enemies in red and the player in green at the
//! centre, drawn as an RGBA pixel buffer with three pixels per tile.

use vstd::prelude::*;

use crate::movement::GridPos;
use crate::world::map::TileMap;
use crate::world::tile::TileType;

verus! {

/// Pixels per tile, in each direction.
pub const TILE_PX: u32 = 3;

/// Tiles shown on each side of the centre.
pub const MINIMAP_VIEW: i32 = 30;

/// Cells per side of the minimap window.
pub const MINIMAP_CELLS: usize = 61;

/// Pixels per side of the minimap image.
pub const MINIMAP_PX: usize = 183;

/// The colour of a tile on the minimap.
pub open spec fn spec_tile_color(t: TileType) -> [u8; 4] {
    match t {
        TileType::Floor => [60u8, 60u8, 60u8, 220u8],
        TileType::Wall => [20u8, 20u8, 20u8, 220u8],
        TileType::Door => [120u8, 80u8, 30u8, 220u8],
        TileType::Exit => [40u8, 160u8, 220u8, 220u8],
    }
}

/// The colour of cells outside the map.
pub open spec fn void_color() -> [u8; 4] {
    [10u8, 10u8, 10u8, 220u8]
}

/// The colour of an enemy.
pub open spec fn enemy_color() -> [u8; 4] {
    [220u8, 50u8, 50u8, 255u8]
}

/// The colour of the player.
pub open spec fn player_color() -> [u8; 4] {
    [50u8, 255u8, 80u8, 255u8]
}

pub fn tile_color(t: TileType) -> (c: [u8; 4])
    ensures
        c == spec_tile_color(t),
{
    match t {
        TileType::Floor => [60, 60, 60, 220],
        TileType::Wall => [20, 20, 20, 220],
        TileType::Door => [120, 80, 30, 220],
        TileType::Exit => [40, 160, 220, 220],
    }
}

/// The centre of the window: the player, or the middle of the map when
/// there is no player.
pub open spec fn spec_center(map: TileMap, player: Option<GridPos>) -> (int, int) {
    match player {
        Some(p) => (p.x as int, p.y as int),
        None => ((map.width as int) / 2, (map.height as int) / 2),
    }
}

/// The colour of window cell `(dx, dy)` (0 to 60 each way): the player at
/// the centre if there is one, else an enemy standing there, else the tile,
/// else the void.
pub open spec fn spec_cell_color(
    map: TileMap,
    player: Option<GridPos>,
    enemies: Seq<GridPos>,
    dx: int,
    dy: int,
) -> [u8; 4] {
    let (cx, cy) = spec_center(map, player);
    let tx = cx - 30 + dx;
    let ty = cy - 30 + dy;
    if player is Some && dx == 30 && dy == 30 {
        player_color()
    } else if exists|i: int| 0 <= i < enemies.len() && #[trigger] enemies[i].x == tx && enemies[i].y == ty {
        enemy_color()
    } else if map.spec_in_bounds(tx, ty) {
        spec_tile_color(map.spec_tile_at(tx, ty))
    } else {
        void_color()
    }
}

/// The colours of the window's cells, row by row.
pub fn minimap_cells(map: &TileMap, player: Option<GridPos>, enemies: &Vec<GridPos>) -> (cells: Vec<[u8; 4]>)
    requires
        map.wf(),
        map.width >= 0,
        map.height >= 0,
    ensures
        cells@.len() == 61 * 61,
        forall|dx: int, dy: int|
            0 <= dx < 61 && 0 <= dy < 61 ==> #[trigger] cells@[dy * 61 + dx] == spec_cell_color(
                *map,
                player,
                enemies@,
                dx,
                dy,
            ),
{
    let (cx, cy): (i64, i64) = match player {
        Some(p) => (p.x as i64, p.y as i64),
        None => ((map.width / 2) as i64, (map.height / 2) as i64),
    };
    let ox: i64 = cx - 30;
    let oy: i64 = cy - 30;
    let mut cells: Vec<[u8; 4]> = Vec::new();
    let mut dy: i64 = 0;
    while dy < 61
        invariant
            map.wf(),
            map.width >= 0,
            map.height >= 0,
            (cx as int, cy as int) == spec_center(*map, player),
            ox == cx - 30,
            oy == cy - 30,
            -0x8000_0000 - 30 <= ox <= 0x8000_0000,
            -0x8000_0000 - 30 <= oy <= 0x8000_0000,
            0 <= dy <= 61,
            cells@.len() == dy * 61,
            forall|k: int|
                0 <= k < dy * 61 ==> #[trigger] cells@[k] == (if map.spec_in_bounds(ox + k % 61, oy + k / 61) {
                    spec_tile_color(map.spec_tile_at(ox + k % 61, oy + k / 61))
                } else {
                    void_color()
                }),
        decreases 61 - dy,
    {
        let mut dx: i64 = 0;
        while dx < 61
            invariant
                map.wf(),
                map.width >= 0,
                map.height >= 0,
                -0x8000_0000 - 30 <= ox <= 0x8000_0000,
                -0x8000_0000 - 30 <= oy <= 0x8000_0000,
                0 <= dy < 61,
                0 <= dx <= 61,
                cells@.len() == dy * 61 + dx,
                forall|k: int|
                    0 <= k < dy * 61 + dx ==> #[trigger] cells@[k] == (if map.spec_in_bounds(ox + k % 61, oy + k / 61) {
                        spec_tile_color(map.spec_tile_at(ox + k % 61, oy + k / 61))
                    } else {
                        void_color()
                    }),
            decreases 61 - dx,
        {
            let tx: i64 = ox + dx;
            let ty: i64 = oy + dy;
            let color = if tx >= 0 && ty >= 0 && tx < map.width as i64 && ty < map.height as i64 {
                tile_color(map.tile_at(tx as i32, ty as i32))
            } else {
                [10, 10, 10, 220]
            };
            proof {
                let k = dy * 61 + dx;
                assert(k % 61 == dx && k / 61 == dy);
            }
            cells.push(color);
            dx = dx + 1;
        }
        dy = dy + 1;
    }
    let ghost base = cells@;
    // Enemies inside the window.
    let mut e: usize = 0;
    while e < enemies.len()
        invariant
            e <= enemies@.len(),
            cells@.len() == 61 * 61,
            -0x8000_0000 - 30 <= ox <= 0x8000_0000,
            -0x8000_0000 - 30 <= oy <= 0x8000_0000,
            forall|k: int|
                0 <= k < 61 * 61 ==> #[trigger] cells@[k] == (if exists|i: int|
                    0 <= i < e && #[trigger] enemies@[i].x == ox + k % 61 && enemies@[i].y == oy + k / 61 {
                    enemy_color()
                } else {
                    base[k]
                }),
        decreases enemies@.len() - e,
    {
        let ep = enemies[e];
        let edx: i64 = ep.x as i64 - ox;
        let edy: i64 = ep.y as i64 - oy;
        let ghost before = cells@;
        if edx >= 0 && edy >= 0 && edx <= 60 && edy <= 60 {
            let k: usize = (edy * 61 + edx) as usize;
            proof {
                assert((k as int) % 61 == edx && (k as int) / 61 == edy);
            }
            cells.set(k, [220, 50, 50, 255]);
        }
        assert forall|k: int| 0 <= k < 61 * 61 implies #[trigger] cells@[k] == (if exists|i: int|
            0 <= i < e + 1 && #[trigger] enemies@[i].x == ox + k % 61 && enemies@[i].y == oy + k / 61 {
            enemy_color()
        } else {
            base[k]
        }) by {
            if enemies@[e as int].x == ox + k % 61 && enemies@[e as int].y == oy + k / 61 {
                assert(0 <= k % 61 < 61 && 0 <= k / 61 < 61);
                assert(k == (edy * 61 + edx));
            }
            if exists|i: int| 0 <= i < e && #[trigger] enemies@[i].x == ox + k % 61 && enemies@[i].y == oy + k / 61 {
                let i = choose|i: int| 0 <= i < e && #[trigger] enemies@[i].x == ox + k % 61 && enemies@[i].y == oy + k / 61;
                assert(0 <= i < e + 1 && enemies@[i].x == ox + k % 61 && enemies@[i].y == oy + k / 61);
            }
        }
        e = e + 1;
    }
    // The player at the centre.
    if player.is_some() {
        cells.set(30 * 61 + 30, [50, 255, 80, 255]);
    }
    assert forall|dx: int, dy: int|
        0 <= dx < 61 && 0 <= dy < 61 implies #[trigger] cells@[dy * 61 + dx] == spec_cell_color(
        *map,
        player,
        enemies@,
        dx,
        dy,
    ) by {
        let k = dy * 61 + dx;
        assert(k % 61 == dx && k / 61 == dy);
    }
    cells
}

/// The byte offset of pixel `(x, y)` in an RGBA image `w` pixels wide.
pub open spec fn pixel_offset(w: int, x: int, y: int) -> int {
    (y * w + x) * 4
}

/// Whether byte `j` belongs to a pixel of the tile block at `(tx, ty)` that
/// lies within a buffer of `len` bytes.
pub open spec fn in_tile_block(w: int, tx: int, ty: int, len: int, j: int) -> bool {
    exists|px: int, py: int|
        0 <= px < 3 && 0 <= py < 3 && pixel_offset(w, tx * 3 + px, ty * 3 + py) + 3 < len && pixel_offset(
            w,
            tx * 3 + px,
            ty * 3 + py,
        ) <= j < #[trigger] pixel_offset(w, tx * 3 + px, ty * 3 + py) + 4
}

/// Paints the 3 × 3 pixel block of tile `(tx, ty)` with `color`, skipping
/// pixels that fall outside the buffer.
pub fn paint_tile(data: &mut Vec<u8>, img_width: u32, tx: u32, ty: u32, color: [u8; 4])
    requires
        ((ty as int * 3 + 2) * img_width + tx * 3 + 2) * 4 + 3 <= u32::MAX,
    ensures
        final(data)@.len() == old(data)@.len(),
        forall|px: int, py: int, c: int|
            0 <= px < 3 && 0 <= py < 3 && 0 <= c < 4 && pixel_offset(img_width as int, tx * 3 + px, ty * 3 + py) + 3
                < old(data)@.len() ==> #[trigger] final(data)@[pixel_offset(
                img_width as int,
                tx * 3 + px,
                ty * 3 + py,
            ) + c] == color@[c],
        forall|j: int|
            0 <= j < old(data)@.len() && !in_tile_block(img_width as int, tx as int, ty as int, old(data)@.len() as int, j)
                ==> #[trigger] final(data)@[j] == old(data)@[j],
{
    let ghost orig = data@;
    let w = img_width as u64;
    let mut py: u64 = 0;
    while py < 3
        invariant
            ((ty as int * 3 + 2) * img_width + tx * 3 + 2) * 4 + 3 <= u32::MAX,
            w == img_width,
            py <= 3,
            data@.len() == orig.len(),
            forall|qx: int, qy: int, c: int|
                0 <= qx < 3 && 0 <= qy < py && 0 <= c < 4 && pixel_offset(w as int, tx * 3 + qx, ty * 3 + qy) + 3
                    < orig.len() ==> #[trigger] data@[pixel_offset(w as int, tx * 3 + qx, ty * 3 + qy) + c] == color@[c],
            forall|j: int|
                0 <= j < orig.len() && !in_tile_block(w as int, tx as int, ty as int, orig.len() as int, j) ==> #[trigger] data@[j]
                    == orig[j],
        decreases 3 - py,
    {
        let mut px: u64 = 0;
        while px < 3
            invariant
                ((ty as int * 3 + 2) * img_width + tx * 3 + 2) * 4 + 3 <= u32::MAX,
                w == img_width,
                py < 3,
                px <= 3,
                data@.len() == orig.len(),
                forall|qx: int, qy: int, c: int|
                    0 <= qx < 3 && 0 <= qy < 3 && (qy < py || (qy == py && qx < px)) && 0 <= c < 4 && pixel_offset(
                        w as int,
                        tx * 3 + qx,
                        ty * 3 + qy,
                    ) + 3 < orig.len() ==> #[trigger] data@[pixel_offset(w as int, tx * 3 + qx, ty * 3 + qy) + c]
                        == color@[c],
                forall|j: int|
                    0 <= j < orig.len() && !in_tile_block(w as int, tx as int, ty as int, orig.len() as int, j) ==> #[trigger] data@[j]
                        == orig[j],
            decreases 3 - px,
        {
            proof {
                assert((ty as int * 3 + py) * w <= (ty as int * 3 + 2) * w) by (nonlinear_arith)
                    requires
                        py <= 2,
                        w >= 0,
                ;
            }
            let x: u64 = tx as u64 * 3 + px;
            let y: u64 = ty as u64 * 3 + py;
            let i: u64 = (y * w + x) * 4;
            assert(i == pixel_offset(w as int, tx * 3 + px, ty * 3 + py));
            if i + 3 < data.len() as u64 {
                let ghost before = data@;
                let iu = i as usize;
                data.set(iu, color[0]);
                data.set(iu + 1, color[1]);
                data.set(iu + 2, color[2]);
                data.set(iu + 3, color[3]);
                assert forall|j: int|
                    0 <= j < orig.len() && !in_tile_block(w as int, tx as int, ty as int, orig.len() as int, j) implies #[trigger] data@[j]
                    == orig[j] by {
                    if i <= j < i + 4 {
                        assert(in_tile_block(w as int, tx as int, ty as int, orig.len() as int, j)) by {
                            assert(pixel_offset(w as int, tx * 3 + px, ty * 3 + py) + 3 < orig.len());
                        }
                    }
                    assert(data@[j] == before[j]);
                }
                assert forall|qx: int, qy: int, c: int|
                    0 <= qx < 3 && 0 <= qy < 3 && (qy < py || (qy == py && qx < px + 1)) && 0 <= c < 4 && pixel_offset(
                        w as int,
                        tx * 3 + qx,
                        ty * 3 + qy,
                    ) + 3 < orig.len() implies #[trigger] data@[pixel_offset(w as int, tx * 3 + qx, ty * 3 + qy) + c]
                    == color@[c] by {
                    let o = pixel_offset(w as int, tx * 3 + qx, ty * 3 + qy);
                    if qx == px && qy == py {
                        assert(o == i);
                    } else if i <= o + c < i + 4 {
                        assert(data@[o + c] == color@[o + c - i]);
                        assert(before[o + c] == color@[c]);
                    } else {
                        assert(data@[o + c] == before[o + c]);
                    }
                }
            } else {
                assert forall|qx: int, qy: int, c: int|
                    0 <= qx < 3 && 0 <= qy < 3 && (qy < py || (qy == py && qx < px + 1)) && 0 <= c < 4 && pixel_offset(
                        w as int,
                        tx * 3 + qx,
                        ty * 3 + qy,
                    ) + 3 < orig.len() implies #[trigger] data@[pixel_offset(w as int, tx * 3 + qx, ty * 3 + qy) + c]
                    == color@[c] by {
                    if qx == px && qy == py {
                        assert(pixel_offset(w as int, tx * 3 + qx, ty * 3 + qy) == i);
                    }
                }
            }
            px = px + 1;
        }
        py = py + 1;
    }
}

/// The minimap image: 183 × 183 RGBA pixels, every pixel the colour of the
/// window cell it belongs to.
pub fn build_minimap_pixels(map: &TileMap, player: Option<GridPos>, enemies: &Vec<GridPos>) -> (data: Vec<u8>)
    requires
        map.wf(),
        map.width >= 0,
        map.height >= 0,
    ensures
        data@.len() == 183 * 183 * 4,
        forall|x: int, y: int, c: int|
            0 <= x < 183 && 0 <= y < 183 && 0 <= c < 4 ==> #[trigger] data@[(y * 183 + x) * 4 + c] == spec_cell_color(
                *map,
                player,
                enemies@,
                x / 3,
                y / 3,
            )@[c],
{
    let cells = minimap_cells(map, player, enemies);
    let mut data: Vec<u8> = Vec::new();
    let mut y: usize = 0;
    while y < MINIMAP_PX
        invariant
            cells@.len() == 61 * 61,
            forall|dx: int, dy: int|
                0 <= dx < 61 && 0 <= dy < 61 ==> #[trigger] cells@[dy * 61 + dx] == spec_cell_color(
                    *map,
                    player,
                    enemies@,
                    dx,
                    dy,
                ),
            y <= 183,
            data@.len() == y * 183 * 4,
            forall|k: int|
                0 <= k < y * 183 * 4 ==> #[trigger] data@[k] == cells@[((k / 4) / 183 / 3) * 61 + ((k / 4) % 183)
                    / 3]@[k % 4],
        decreases 183 - y,
    {
        let mut x: usize = 0;
        while x < MINIMAP_PX
            invariant
                cells@.len() == 61 * 61,
                y < 183,
                x <= 183,
                data@.len() == (y * 183 + x) * 4,
                forall|k: int|
                    0 <= k < (y * 183 + x) * 4 ==> #[trigger] data@[k] == cells@[((k / 4) / 183 / 3) * 61 + ((k / 4)
                        % 183) / 3]@[k % 4],
            decreases 183 - x,
        {
            let cell = cells[(y / 3) * 61 + x / 3];
            let ghost start = data@.len() as int;
            proof {
                assert(((start / 4) / 183 / 3) * 61 + ((start / 4) % 183) / 3 == (y / 3) * 61 + x / 3);
            }
            let mut c: usize = 0;
            while c < 4
                invariant
                    cells@.len() == 61 * 61,
                    y < 183,
                    x < 183,
                    c <= 4,
                    start == (y * 183 + x) * 4,
                    cell == cells@[(y / 3) * 61 + x / 3],
                    data@.len() == start + c,
                    forall|k: int|
                        0 <= k < start + c ==> #[trigger] data@[k] == cells@[((k / 4) / 183 / 3) * 61 + ((k / 4)
                            % 183) / 3]@[k % 4],
                decreases 4 - c,
            {
                proof {
                    let k = start + c;
                    assert(k / 4 == y * 183 + x && k % 4 == c);
                }
                data.push(cell[c]);
                c = c + 1;
            }
            x = x + 1;
        }
        y = y + 1;
    }
    assert forall|x: int, y: int, c: int|
        0 <= x < 183 && 0 <= y < 183 && 0 <= c < 4 implies #[trigger] data@[(y * 183 + x) * 4 + c]
        == spec_cell_color(*map, player, enemies@, x / 3, y / 3)@[c] by {
        let k = (y * 183 + x) * 4 + c;
        assert(k / 4 == y * 183 + x && k % 4 == c);
        assert((k / 4) / 183 == y && (k / 4) % 183 == x);
        assert(cells@[(y / 3) * 61 + x / 3] == spec_cell_color(*map, player, enemies@, x / 3, y / 3));
    }
    data
}

} // verus!
