//! The walls around a level: a ring of static blocks just outside the level's grid, so nothing
//! can be pushed out of bounds.
use crate::grid::GridCoords;
use crate::UNIT_LENGTH;
use vstd::prelude::*;

verus! {

/// `a / b` rounded towards zero, as integer division does.
pub open spec fn div_toward_zero(a: int, b: int) -> int {
    if a >= 0 {
        a / b
    } else {
        -((-a) / b)
    }
}

/// The size of a level in grid cells, from its size in pixels.
pub open spec fn level_grid_size(px_wid: i32, px_hei: i32) -> (int, int) {
    (div_toward_zero(px_wid as int, UNIT_LENGTH as int), div_toward_zero(px_hei as int, UNIT_LENGTH as int))
}

/// The walls around a grid of `w` by `h` cells: first the bottom and top walls column by column,
/// from `x = -1` to `x = w`, then the left and right walls row by row, from `y = 0` to `y = h - 1`.
pub open spec fn boundary_walls(w: int, h: int) -> Seq<GridCoords> {
    let across = if w + 2 > 0 {
        w + 2
    } else {
        0
    };
    let down = if h > 0 {
        h
    } else {
        0
    };
    Seq::new(
        (2 * across + 2 * down) as nat,
        |i: int|
            if i < 2 * across {
                GridCoords {
                    x: (i / 2 - 1) as i32,
                    y: (if i % 2 == 0 {
                        -1
                    } else {
                        h
                    }) as i32,
                }
            } else {
                GridCoords {
                    x: (if (i - 2 * across) % 2 == 0 {
                        -1
                    } else {
                        w
                    }) as i32,
                    y: ((i - 2 * across) / 2) as i32,
                }
            },
    )
}

/// Integer division of `a` by the tile size, rounding towards zero.
fn tiles_of(a: i32) -> (r: i32)
    ensures
        r == div_toward_zero(a as int, UNIT_LENGTH as int),
{
    if a >= 0 {
        a / UNIT_LENGTH
    } else {
        let magnitude: i64 = -(a as i64);
        let q: i64 = magnitude / (UNIT_LENGTH as i64);
        -(q as i32)
    }
}

/// The coordinates of the static blocks that wall in a level of `px_wid` by `px_hei` pixels:
/// the rows just below and just above the level, corners included, and the columns just left
/// and just right of it.
pub fn spawn_level_boundaries(px_wid: i32, px_hei: i32) -> (walls: Vec<GridCoords>)
    ensures
        walls@ == boundary_walls(level_grid_size(px_wid, px_hei).0, level_grid_size(px_wid, px_hei).1),
{
    let width = tiles_of(px_wid);
    let height = tiles_of(px_hei);
    let ghost across: int = if width + 2 > 0 { width + 2 } else { 0 };
    let ghost spec_walls = boundary_walls(width as int, height as int);
    let mut walls: Vec<GridCoords> = Vec::new();
    let mut x: i32 = -1;
    while x <= width
        invariant
            -1 <= x,
            width + 2 > 0 ==> x <= width + 1,
            width + 2 <= 0 ==> x == -1,
            -67108864 <= width <= 67108863,
            -67108864 <= height <= 67108863,
            walls.len() == 2 * (x + 1),
            spec_walls == boundary_walls(width as int, height as int),
            across == (if width + 2 > 0 { width + 2 } else { 0 }),
            forall|i: int| 0 <= i < walls.len() ==> #[trigger] walls@[i] == spec_walls[i],
        decreases width - x + 1,
    {
        walls.push(GridCoords::new(x, -1));
        walls.push(GridCoords::new(x, height));
        x = x + 1;
    }
    let mut y: i32 = 0;
    while y < height
        invariant
            0 <= y,
            height > 0 ==> y <= height,
            height <= 0 ==> y == 0,
            -67108864 <= width <= 67108863,
            -67108864 <= height <= 67108863,
            walls.len() == 2 * across + 2 * y,
            spec_walls == boundary_walls(width as int, height as int),
            across == (if width + 2 > 0 { width + 2 } else { 0 }),
            forall|i: int| 0 <= i < walls.len() ==> #[trigger] walls@[i] == spec_walls[i],
        decreases height - y,
    {
        walls.push(GridCoords::new(-1, y));
        walls.push(GridCoords::new(width, y));
        y = y + 1;
    }
    assert(walls@ =~= spec_walls);
    walls
}

/// Whether `(x, y)` lies on the ring of cells just outside a grid of `w` by `h` cells.
pub open spec fn on_ring(w: int, h: int, x: int, y: int) -> bool {
    &&& -1 <= x <= w
    &&& -1 <= y <= h
    &&& x == -1 || x == w || y == -1 || y == h
}

/// The walls of a level are exactly the ring of cells around it: every cell next to the level,
/// corners included, holds a wall, and no wall stands inside the level or further out.
pub proof fn lemma_walls_enclose_level(w: int, h: int, c: GridCoords)
    requires
        0 <= w < i32::MAX,
        0 <= h < i32::MAX,
    ensures
        boundary_walls(w, h).contains(c) <==> on_ring(w, h, c.x as int, c.y as int),
{
    let walls = boundary_walls(w, h);
    let across = w + 2;
    if on_ring(w, h, c.x as int, c.y as int) {
        let i: int = if c.y == -1 {
            2 * (c.x + 1)
        } else if c.y == h {
            2 * (c.x + 1) + 1
        } else if c.x == -1 {
            2 * across + 2 * c.y
        } else {
            2 * across + 2 * c.y + 1
        };
        assert(walls[i] == c);
    }
    if walls.contains(c) {
        let i = choose|i: int| 0 <= i < walls.len() && walls[i] == c;
        assert(walls[i] == c);
    }
}

} // verus!
