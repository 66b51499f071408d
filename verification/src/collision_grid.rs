//! Pushing on a dense collision grid: each cell holds at most one entity.
use crate::collision::{distinct_entities, moved_coords, world_within, SokobanEntity};
use crate::grid::{GridCoords, IVec2};
use crate::sokoban::{dir_x, dir_y, event_view, Direction, PushEvent, SokobanBlock, SokobanCommand};
use vstd::prelude::*;

verus! {

/// A cell of the collision grid: the entity there and its block kind, if any.
pub type Cell = Option<(u64, SokobanBlock)>;

/// Rows of cells, indexed `[y][x]`.
pub type CollisionMap = Vec<Vec<Option<(u64, SokobanBlock)>>>;

/// The contents of a collision map.
pub open spec fn grid_of(m: Seq<Vec<Option<(u64, SokobanBlock)>>>) -> Seq<
    Seq<Option<(u64, SokobanBlock)>>,
> {
    m.map_values(|r: Vec<Option<(u64, SokobanBlock)>>| r@)
}

/// All rows have the width of the first row, and both dimensions fit in `i32`.
pub open spec fn rectangular(g: Seq<Seq<Option<(u64, SokobanBlock)>>>) -> bool {
    &&& g.len() <= i32::MAX
    &&& g.len() > 0 ==> g[0].len() <= i32::MAX
    &&& forall|i: int| 0 <= i < g.len() ==> #[trigger] g[i].len() == g[0].len()
}

/// Whether `(x, y)` is a cell of the grid.
pub open spec fn in_grid(g: Seq<Seq<Option<(u64, SokobanBlock)>>>, x: int, y: int) -> bool {
    0 <= x && 0 <= y && y < g.len() && x < g[0].len()
}

/// Steps left along `d` from `(x, y)` before leaving the grid.
pub open spec fn steps_to_edge(
    g: Seq<Seq<Option<(u64, SokobanBlock)>>>,
    x: int,
    y: int,
    d: Direction,
) -> int {
    (if dir_x(d) == 1 {
        g[0].len() - x
    } else if dir_x(d) == -1 {
        x + 1
    } else {
        0
    }) + (if dir_y(d) == 1 {
        g.len() - y
    } else if dir_y(d) == -1 {
        y + 1
    } else {
        0
    })
}

/// The grid with cell `(x, y)` set to `c`.
pub open spec fn set_cell(
    g: Seq<Seq<Option<(u64, SokobanBlock)>>>,
    x: int,
    y: int,
    c: Option<(u64, SokobanBlock)>,
) -> Seq<Seq<Option<(u64, SokobanBlock)>>> {
    g.update(y, g[y].update(x, c))
}

/// Pushing the cell at `(x, y)` along `d`.
///
/// An empty cell gives way without moving anything (`Some` of nothing); a static entity or the
/// edge of the grid refuses (`None`, grid unchanged); a dynamic entity moves when the next cell
/// gives way, and the moved entities are listed from the furthest to the pusher.
pub open spec fn grid_push(g: Seq<Seq<Option<(u64, SokobanBlock)>>>, x: int, y: int, d: Direction) -> (
    Seq<Seq<Option<(u64, SokobanBlock)>>>,
    Option<Seq<u64>>,
)
    decreases steps_to_edge(g, x, y, d),
    when d != Direction::Zero
{
    if !in_grid(g, x, y) {
        (g, None)
    } else {
        match g[y][x] {
            Some((pusher, SokobanBlock::Dynamic)) => {
                let nx = x + dir_x(d);
                let ny = y + dir_y(d);
                let r = grid_push(g, nx, ny, d);
                match r.1 {
                    Some(pushed) => (
                        set_cell(set_cell(r.0, x, y, None), nx, ny, r.0[y][x]),
                        Some(pushed.push(pusher)),
                    ),
                    None => r,
                }
            },
            Some((_, SokobanBlock::Static)) => (g, None),
            None => (g, Some(Seq::empty())),
        }
    }
}

/// Sets one cell of the map.
fn set_map_cell(map: &mut CollisionMap, x: usize, y: usize, c: Option<(u64, SokobanBlock)>)
    requires
        y < old(map).len(),
        x < old(map)[y as int].len(),
    ensures
        grid_of(final(map)@) == set_cell(grid_of(old(map)@), x as int, y as int, c),
{
    let mut row = map.remove(y);
    row.set(x, c);
    map.insert(y, row);
    assert(grid_of(map@) =~= set_cell(grid_of(old(map)@), x as int, y as int, c));
}

/// A push keeps the grid's dimensions.
proof fn lemma_grid_push_keeps_shape(g: Seq<Seq<Option<(u64, SokobanBlock)>>>, x: int, y: int, d: Direction)
    requires
        d != Direction::Zero,
        rectangular(g),
    ensures
        grid_push(g, x, y, d).0.len() == g.len(),
        rectangular(grid_push(g, x, y, d).0),
        g.len() > 0 ==> grid_push(g, x, y, d).0[0].len() == g[0].len(),
    decreases steps_to_edge(g, x, y, d),
{
    if in_grid(g, x, y) {
        match g[y][x] {
            Some((pusher, SokobanBlock::Dynamic)) => {
                let nx = x + dir_x(d);
                let ny = y + dir_y(d);
                lemma_grid_push_keeps_shape(g, nx, ny, d);
                let r = grid_push(g, nx, ny, d);
                if r.1 is Some {
                    if in_grid(g, nx, ny) {
                        let out = set_cell(set_cell(r.0, x, y, None), nx, ny, r.0[y][x]);
                        assert forall|i: int| 0 <= i < out.len() implies #[trigger] out[i].len()
                            == out[0].len() by {}
                    } else {
                        assert(false) by {
                            assert(grid_push(g, nx, ny, d).1 is None);
                        }
                    }
                }
            },
            _ => {},
        }
    }
}

/// Pushes the entry at `pusher_coords` in `direction`, pushing whatever it runs into.
///
/// Returns the updated map and, when the push happened, the pushed entities from the furthest to
/// the pusher; `None` (map unchanged) when a static entity or the map's edge stops the push, and
/// an empty list when the cell is empty.
pub fn push_grid_coords_recursively(
    collision_map: CollisionMap,
    pusher_coords: IVec2,
    direction: Direction,
) -> (r: (CollisionMap, Option<Vec<u64>>))
    requires
        direction != Direction::Zero,
        rectangular(grid_of(collision_map@)),
    ensures
        grid_of(r.0@) == grid_push(
            grid_of(collision_map@),
            pusher_coords.x as int,
            pusher_coords.y as int,
            direction,
        ).0,
        (match r.1 {
            Some(v) => Some(v@),
            None => None::<Seq<u64>>,
        }) == grid_push(
            grid_of(collision_map@),
            pusher_coords.x as int,
            pusher_coords.y as int,
            direction,
        ).1,
    decreases steps_to_edge(
        grid_of(collision_map@),
        pusher_coords.x as int,
        pusher_coords.y as int,
        direction,
    ),
{
    let ghost g = grid_of(collision_map@);
    if pusher_coords.x < 0 || pusher_coords.y < 0 || pusher_coords.y as usize
        >= collision_map.len() || pusher_coords.x as usize >= collision_map[0].len() {
        return (collision_map, None);
    }
    let y = pusher_coords.y as usize;
    let x = pusher_coords.x as usize;
    assert(g[y as int] == collision_map[y as int]@);
    assert(g[y as int].len() == g[0].len());
    match collision_map[y][x] {
        Some((pusher, SokobanBlock::Dynamic)) => {
            let destination = pusher_coords.add(direction.to_ivec2());
            proof {
                lemma_grid_push_keeps_shape(g, destination.x as int, destination.y as int, direction);
            }
            let (mut map, pushed) = push_grid_coords_recursively(
                collision_map,
                destination,
                direction,
            );
            match pushed {
                Some(mut pushed_entities) => {
                    let ghost g2 = grid_of(map@);
                    assert(in_grid(g, destination.x as int, destination.y as int));
                    let dy = destination.y as usize;
                    let dx = destination.x as usize;
                    assert(g2[y as int] == map[y as int]@);
                    assert(g2.len() == g.len() && g2.len() == map@.len());
                    assert(g2[dy as int].len() == g2[0].len() && g2[0].len() == g[0].len());
                    assert(g2[dy as int] == map[dy as int]@);
                    let moving = map[y][x];
                    set_map_cell(&mut map, x, y, None);
                    assert(grid_of(map@).len() == map@.len());
                    assert(grid_of(map@)[dy as int] == map[dy as int]@);
                    set_map_cell(&mut map, dx, dy, moving);
                    pushed_entities.push(pusher);
                    (map, Some(pushed_entities))
                },
                None => (map, None),
            }
        },
        Some((_, SokobanBlock::Static)) => (collision_map, None),
        None => (collision_map, Some(Vec::new())),
    }
}

/// A push that is refused, by a static entity or the grid's edge, changes nothing.
pub proof fn lemma_refused_push_changes_nothing(
    g: Seq<Seq<Option<(u64, SokobanBlock)>>>,
    x: int,
    y: int,
    d: Direction,
)
    requires
        d != Direction::Zero,
    ensures
        grid_push(g, x, y, d).1 is None ==> grid_push(g, x, y, d).0 == g,
    decreases steps_to_edge(g, x, y, d),
{
    if in_grid(g, x, y) {
        match g[y][x] {
            Some((_, SokobanBlock::Dynamic)) => {
                lemma_refused_push_changes_nothing(g, x + dir_x(d), y + dir_y(d), d);
            },
            _ => {},
        }
    }
}

/// Whether cell `(bx, by)` lies behind `(x, y)` for a push along `d`: on the side the push
/// comes from, along one of the axes it moves on.
pub open spec fn behind(x: int, y: int, d: Direction, bx: int, by: int) -> bool {
    ||| dir_x(d) == 1 && bx < x
    ||| dir_x(d) == -1 && bx > x
    ||| dir_y(d) == 1 && by < y
    ||| dir_y(d) == -1 && by > y
}

/// A push from `(x, y)` leaves every cell behind it as it was.
proof fn lemma_push_leaves_behind(
    g: Seq<Seq<Option<(u64, SokobanBlock)>>>,
    x: int,
    y: int,
    d: Direction,
    bx: int,
    by: int,
)
    requires
        d != Direction::Zero,
        rectangular(g),
        behind(x, y, d, bx, by),
        in_grid(g, bx, by),
    ensures
        grid_push(g, x, y, d).0[by][bx] == g[by][bx],
    decreases steps_to_edge(g, x, y, d),
{
    if in_grid(g, x, y) {
        match g[y][x] {
            Some((_, SokobanBlock::Dynamic)) => {
                let nx = x + dir_x(d);
                let ny = y + dir_y(d);
                lemma_push_leaves_behind(g, nx, ny, d, bx, by);
                lemma_grid_push_keeps_shape(g, nx, ny, d);
                let r = grid_push(g, nx, ny, d);
                if r.1 is Some {
                    lemma_grid_push_keeps_shape(g, nx, ny, d);
                    if in_grid(g, nx, ny) {
                        let inner = set_cell(r.0, x, y, None);
                        assert(inner[by][bx] == r.0[by][bx]);
                        assert(inner.len() == r.0.len());
                        assert(inner[ny].len() == r.0[ny].len());
                    } else {
                        assert(grid_push(g, nx, ny, d).1 is None);
                    }
                }
            },
            _ => {},
        }
    }
}

/// Column of the cell `i` steps from column `x` along `d`.
pub open spec fn run_x(x: int, d: Direction, i: int) -> int {
    x + i * dir_x(d)
}

/// Row of the cell `i` steps from row `y` along `d`.
pub open spec fn run_y(y: int, d: Direction, i: int) -> int {
    y + i * dir_y(d)
}

/// The cell `i` steps from `(x, y)` along `d`.
pub open spec fn run_cell(
    g: Seq<Seq<Option<(u64, SokobanBlock)>>>,
    x: int,
    y: int,
    d: Direction,
    i: int,
) -> Option<(u64, SokobanBlock)> {
    g[run_y(y, d, i)][run_x(x, d, i)]
}

/// Cells a different number of steps along a direction are different cells.
proof fn lemma_run_cells_differ(x: int, y: int, d: Direction, i: int, j: int)
    requires
        d != Direction::Zero,
        i != j,
    ensures
        run_x(x, d, i) != run_x(x, d, j) || run_y(y, d, i) != run_y(y, d, j),
{
    let dx = dir_x(d);
    let dy = dir_y(d);
    assert(dx != 0 || dy != 0);
    if dx != 0 {
        assert(i * dx != j * dx) by (nonlinear_arith)
            requires
                i != j,
                dx != 0,
        {
        }
    } else {
        assert(i * dy != j * dy) by (nonlinear_arith)
            requires
                i != j,
                dy != 0,
        {
        }
    }
}

/// A run of dynamic entities moves into the free cell after it: when the `k` cells from `(x, y)`
/// along `d` hold dynamic entities and the cell after them is an empty cell of the grid, the push
/// goes through however long the run, every entity of the run moves one cell along `d`, the
/// pusher's cell is left empty, and the moved entities are listed from the furthest to the pusher.
pub proof fn lemma_dynamic_run_moves_into_gap(
    g: Seq<Seq<Option<(u64, SokobanBlock)>>>,
    x: int,
    y: int,
    d: Direction,
    k: int,
)
    requires
        d != Direction::Zero,
        rectangular(g),
        k >= 1,
        forall|i: int|
            0 <= i < k ==> in_grid(g, run_x(x, d, i), run_y(y, d, i)) && (#[trigger] run_cell(
                g,
                x,
                y,
                d,
                i,
            )) matches Some((_, SokobanBlock::Dynamic)),
        in_grid(g, run_x(x, d, k), run_y(y, d, k)),
        run_cell(g, x, y, d, k) is None,
    ensures
        grid_push(g, x, y, d).1 == Some(
            Seq::new(k as nat, |j: int| run_cell(g, x, y, d, k - 1 - j).unwrap().0),
        ),
        run_cell(grid_push(g, x, y, d).0, x, y, d, 0) is None,
        forall|i: int|
            1 <= i <= k ==> #[trigger] run_cell(grid_push(g, x, y, d).0, x, y, d, i) == run_cell(
                g,
                x,
                y,
                d,
                i - 1,
            ),
    decreases k,
{
    let dx = dir_x(d);
    let dy = dir_y(d);
    let nx = x + dx;
    let ny = y + dy;
    assert(run_cell(g, x, y, d, 0) == g[y][x]);
    assert(in_grid(g, run_x(x, d, 0), run_y(y, d, 0)));
    assert(run_x(x, d, 1) == nx && run_y(y, d, 1) == ny);
    let pusher = g[y][x].unwrap().0;
    assert forall|i: int| 0 <= i <= k implies run_x(nx, d, i) == run_x(x, d, i + 1) && run_y(
        ny,
        d,
        i,
    ) == run_y(y, d, i + 1) by {
        assert((i + 1) * dx == i * dx + dx) by (nonlinear_arith);
        assert((i + 1) * dy == i * dy + dy) by (nonlinear_arith);
    }
    lemma_grid_push_keeps_shape(g, nx, ny, d);
    let r = grid_push(g, nx, ny, d);
    if k == 1 {
        assert(in_grid(g, nx, ny));
        assert(g[ny][nx] is None);
        assert(r == (g, Some(Seq::<u64>::empty())));
    } else {
        assert forall|i: int| 0 <= i < k - 1 implies in_grid(g, run_x(nx, d, i), run_y(ny, d, i))
            && (#[trigger] run_cell(g, nx, ny, d, i)) matches Some((_, SokobanBlock::Dynamic)) by {
            assert(run_cell(g, nx, ny, d, i) == run_cell(g, x, y, d, i + 1));
        }
        assert(run_cell(g, nx, ny, d, k - 1) == run_cell(g, x, y, d, k));
        lemma_dynamic_run_moves_into_gap(g, nx, ny, d, k - 1);
        assert(r.1 is Some);
    }
    assert(in_grid(g, nx, ny));
    assert(r.1 is Some);
    lemma_push_leaves_behind(g, nx, ny, d, x, y);
    assert(r.0[y][x] == g[y][x]);
    let out = set_cell(set_cell(r.0, x, y, None), nx, ny, r.0[y][x]);
    assert(grid_push(g, x, y, d) == (out, Some(r.1.unwrap().push(pusher))));
    assert(r.0.len() == g.len() && r.0[0].len() == g[0].len());
    // the pushed entities
    if k == 1 {
        assert(r.1.unwrap().push(pusher) =~= Seq::new(
            k as nat,
            |j: int| run_cell(g, x, y, d, k - 1 - j).unwrap().0,
        ));
    } else {
        assert forall|j: int| 0 <= j < k - 1 implies #[trigger] r.1.unwrap()[j] == run_cell(
            g,
            x,
            y,
            d,
            k - 1 - j,
        ).unwrap().0 by {
            assert(run_cell(g, nx, ny, d, k - 2 - j) == run_cell(g, x, y, d, k - 1 - j));
        }
        assert(r.1.unwrap().push(pusher) =~= Seq::new(
            k as nat,
            |j: int| run_cell(g, x, y, d, k - 1 - j).unwrap().0,
        ));
    }
    // the cells of the run
    lemma_run_cells_differ(x, y, d, 0, 1);
    assert(run_cell(out, x, y, d, 0) is None);
    assert forall|i: int| 1 <= i <= k implies #[trigger] run_cell(out, x, y, d, i) == run_cell(
        g,
        x,
        y,
        d,
        i - 1,
    ) by {
        if i == 1 {
            assert(run_cell(out, x, y, d, 1) == out[ny][nx]);
        } else {
            lemma_run_cells_differ(x, y, d, i, 0);
            lemma_run_cells_differ(x, y, d, i, 1);
            let cx = run_x(x, d, i);
            let cy = run_y(y, d, i);
            assert(in_grid(g, cx, cy)) by {
                if i < k {
                    assert(run_cell(g, x, y, d, i) matches Some((_, SokobanBlock::Dynamic)));
                }
            }
            assert(out[cy][cx] == r.0[cy][cx]);
            assert(run_cell(r.0, nx, ny, d, i - 1) == run_cell(g, nx, ny, d, i - 2));
            assert(run_cell(r.0, nx, ny, d, i - 1) == r.0[cy][cx]);
            assert(run_cell(g, nx, ny, d, i - 2) == run_cell(g, x, y, d, i - 1));
        }
    }
}

/// When a dynamic entity's push goes through, the entity moves one cell along the push and its
/// cell is left empty, and it is the last of the pushed entities.
pub proof fn lemma_successful_push_moves_pusher(
    g: Seq<Seq<Option<(u64, SokobanBlock)>>>,
    x: int,
    y: int,
    d: Direction,
    pusher: u64,
)
    requires
        d != Direction::Zero,
        rectangular(g),
        in_grid(g, x, y),
        g[y][x] == Some((pusher, SokobanBlock::Dynamic)),
        grid_push(g, x, y, d).1 is Some,
    ensures
        grid_push(g, x, y, d).1.unwrap().len() > 0,
        grid_push(g, x, y, d).1.unwrap().last() == pusher,
        grid_push(g, x, y, d).0[y][x] is None,
        grid_push(g, x, y, d).0[y + dir_y(d)][x + dir_x(d)] == g[y][x],
{
    let nx = x + dir_x(d);
    let ny = y + dir_y(d);
    let r = grid_push(g, nx, ny, d);
    lemma_grid_push_keeps_shape(g, nx, ny, d);
    assert(in_grid(g, nx, ny));
    lemma_push_leaves_behind(g, nx, ny, d, x, y);
    assert(r.0[y][x] == g[y][x]);
}

/// An empty grid of `width` by `height` cells.
pub open spec fn empty_grid(width: nat, height: nat) -> Seq<Seq<Option<(u64, SokobanBlock)>>> {
    Seq::new(height, |y: int| Seq::new(width, |x: int| None::<(u64, SokobanBlock)>))
}

/// The grid of the entities of `w`, each in its cell; a later entity covers an earlier one in
/// the same cell.
pub open spec fn grid_with(w: Seq<SokobanEntity>, width: nat, height: nat) -> Seq<
    Seq<Option<(u64, SokobanBlock)>>,
>
    decreases w.len(),
{
    if w.len() == 0 {
        empty_grid(width, height)
    } else {
        let e = w.last();
        set_cell(
            grid_with(w.drop_last(), width, height),
            e.grid_coords.x as int,
            e.grid_coords.y as int,
            Some((e.entity, e.block)),
        )
    }
}

/// Whether some entity `e` of `w` tracks its pushes.
pub open spec fn tracks_pushes(w: Seq<SokobanEntity>, e: u64) -> bool {
    exists|i: int| 0 <= i < w.len() && w[i].entity == e && w[i].push_tracker
}

/// Whether `w` holds entity `e`.
pub open spec fn holds_entity(w: Seq<SokobanEntity>, e: u64) -> bool {
    exists|i: int| 0 <= i < w.len() && w[i].entity == e
}

/// The entities of `w` after those listed in `moved` stepped along `d`.
pub open spec fn step_listed(w: Seq<SokobanEntity>, moved: Seq<u64>, d: Direction) -> Seq<
    SokobanEntity,
> {
    Seq::new(
        w.len(),
        |i: int|
            if moved.contains(w[i].entity) {
                SokobanEntity { grid_coords: moved_coords(w[i].grid_coords, d), ..w[i] }
            } else {
                w[i]
            },
    )
}

/// The push events of the first `n` entities of `order` (the pusher first, then the entities
/// it pushed, nearest first): every entity followed by others, if it tracks its pushes,
/// reports the ones after it.
pub open spec fn grid_push_events(
    w: Seq<SokobanEntity>,
    order: Seq<u64>,
    d: Direction,
    n: int,
) -> Seq<(u64, Direction, Seq<u64>)>
    decreases n,
{
    if n <= 0 {
        Seq::empty()
    } else {
        let i = n - 1;
        grid_push_events(w, order, d, i) + if i + 1 < order.len() && tracks_pushes(w, order[i]) {
            seq![(order[i], d, order.subrange(i + 1, order.len() as int))]
        } else {
            Seq::empty()
        }
    }
}

/// One move command on the grid: the entities, the grid and the push events after it. A move
/// of an absent entity, or in direction `Zero`, changes nothing.
pub open spec fn grid_command(
    w: Seq<SokobanEntity>,
    g: Seq<Seq<Option<(u64, SokobanBlock)>>>,
    cmd: SokobanCommand,
) -> (Seq<SokobanEntity>, Seq<Seq<Option<(u64, SokobanBlock)>>>, Seq<(u64, Direction, Seq<u64>)>) {
    let entity = cmd->entity;
    let d = cmd->direction;
    if d == Direction::Zero || !holds_entity(w, entity) {
        (w, g, Seq::empty())
    } else {
        let i = choose|i: int| 0 <= i < w.len() && w[i].entity == entity;
        let r = grid_push(g, w[i].grid_coords.x as int, w[i].grid_coords.y as int, d);
        match r.1 {
            Some(list) => (
                step_listed(w, list, d),
                r.0,
                grid_push_events(w, list.reverse(), d, list.len() as int),
            ),
            None => (w, r.0, Seq::empty()),
        }
    }
}

/// The entities, the grid and the push events after the commands `cmds`, in order.
pub open spec fn grid_flush(
    w: Seq<SokobanEntity>,
    g: Seq<Seq<Option<(u64, SokobanBlock)>>>,
    cmds: Seq<SokobanCommand>,
) -> (Seq<SokobanEntity>, Seq<Seq<Option<(u64, SokobanBlock)>>>, Seq<(u64, Direction, Seq<u64>)>)
    decreases cmds.len(),
{
    if cmds.len() == 0 {
        (w, g, Seq::empty())
    } else {
        let s = grid_flush(w, g, cmds.drop_last());
        let c = grid_command(s.0, s.1, cmds.last());
        (c.0, c.1, s.2 + c.2)
    }
}

/// A move in direction `Zero` ends only when the mover's cell holds no dynamic entity (otherwise
/// the entity there keeps pushing itself).
pub open spec fn zero_move_ends(
    w: Seq<SokobanEntity>,
    g: Seq<Seq<Option<(u64, SokobanBlock)>>>,
    cmd: SokobanCommand,
) -> bool {
    cmd->direction == Direction::Zero ==> forall|i: int|
        0 <= i < w.len() && #[trigger] w[i].entity == cmd->entity ==> !(in_grid(
            g,
            w[i].grid_coords.x as int,
            w[i].grid_coords.y as int,
        ) && g[w[i].grid_coords.y as int][w[i].grid_coords.x as int] matches Some(
            (_, SokobanBlock::Dynamic),
        ))
}

/// The index of entity `e` in `world`, if it is there.
fn find_entity(world: &Vec<SokobanEntity>, e: u64) -> (r: Option<usize>)
    ensures
        r matches Some(i) ==> i < world.len() && world[i as int].entity == e,
        r is None ==> !holds_entity(world@, e),
{
    let mut i: usize = 0;
    while i < world.len()
        invariant
            0 <= i <= world.len(),
            forall|j: int| 0 <= j < i ==> world[j].entity != e,
        decreases world.len() - i,
    {
        if world[i].entity == e {
            return Some(i);
        }
        i = i + 1;
    }
    None
}

/// Whether some entity `e` of `world` tracks its pushes.
fn entity_tracks_pushes(world: &Vec<SokobanEntity>, e: u64) -> (r: bool)
    ensures
        r == tracks_pushes(world@, e),
{
    let mut i: usize = 0;
    while i < world.len()
        invariant
            0 <= i <= world.len(),
            forall|j: int| 0 <= j < i ==> !(world[j].entity == e && world[j].push_tracker),
        decreases world.len() - i,
    {
        if world[i].entity == e && world[i].push_tracker {
            return true;
        }
        i = i + 1;
    }
    false
}

/// Whether `v` holds `e`.
fn vec_holds(v: &Vec<u64>, e: u64) -> (r: bool)
    ensures
        r == v@.contains(e),
{
    let mut i: usize = 0;
    while i < v.len()
        invariant
            0 <= i <= v.len(),
            forall|j: int| 0 <= j < i ==> v[j] != e,
        decreases v.len() - i,
    {
        if v[i] == e {
            assert(v@[i as int] == e);
            return true;
        }
        i = i + 1;
    }
    false
}

/// `v` in reverse order.
fn reversed(v: &Vec<u64>) -> (r: Vec<u64>)
    ensures
        r@ == v@.reverse(),
{
    let mut r: Vec<u64> = Vec::new();
    let mut i: usize = v.len();
    while i > 0
        invariant
            0 <= i <= v.len(),
            r.len() == v.len() - i,
            forall|j: int| 0 <= j < r.len() ==> #[trigger] r[j] == v[v.len() - 1 - j],
        decreases i,
    {
        i = i - 1;
        r.push(v[i]);
    }
    assert(r@ =~= v@.reverse());
    r
}

/// The entries of `v` from index `start` on.
fn tail_from(v: &Vec<u64>, start: usize) -> (r: Vec<u64>)
    requires
        start <= v.len(),
    ensures
        r@ == v@.subrange(start as int, v.len() as int),
{
    let mut r: Vec<u64> = Vec::new();
    let mut i: usize = start;
    while i < v.len()
        invariant
            start <= i <= v.len(),
            r@ == v@.subrange(start as int, i as int),
        decreases v.len() - i,
    {
        r.push(v[i]);
        assert(v@.subrange(start as int, i + 1) =~= v@.subrange(start as int, i as int).push(v@[i as int]));
        i = i + 1;
    }
    r
}

/// `g` has `height` rows of `width` cells.
pub open spec fn grid_shape(g: Seq<Seq<Option<(u64, SokobanBlock)>>>, width: nat, height: nat) -> bool {
    &&& g.len() == height
    &&& forall|y: int| 0 <= y < g.len() ==> #[trigger] g[y].len() == width
}

/// A map of `height` rows of `width` empty cells.
fn empty_map(width: usize, height: usize) -> (map: CollisionMap)
    ensures
        grid_of(map@) == empty_grid(width as nat, height as nat),
{
    let mut map: CollisionMap = Vec::new();
    let mut y: usize = 0;
    while y < height
        invariant
            0 <= y <= height,
            map.len() == y,
            forall|j: int| 0 <= j < y ==> #[trigger] map[j]@ == Seq::new(
                width as nat,
                |x: int| None::<(u64, SokobanBlock)>,
            ),
        decreases height - y,
    {
        let mut row: Vec<Option<(u64, SokobanBlock)>> = Vec::new();
        let mut x: usize = 0;
        while x < width
            invariant
                0 <= x <= width,
                row.len() == x,
                forall|i: int| 0 <= i < x ==> #[trigger] row[i] == None::<(u64, SokobanBlock)>,
            decreases width - x,
        {
            row.push(None);
            x = x + 1;
        }
        assert(row@ =~= Seq::new(width as nat, |x: int| None::<(u64, SokobanBlock)>));
        map.push(row);
        y = y + 1;
    }
    assert(grid_of(map@) =~= empty_grid(width as nat, height as nat));
    map
}

/// The map of the entities of `world`, each in its cell.
fn build_map(world: &Vec<SokobanEntity>, width: usize, height: usize) -> (map: CollisionMap)
    requires
        forall|i: int|
            0 <= i < world.len() ==> 0 <= (#[trigger] world[i]).grid_coords.x < width && 0
                <= world[i].grid_coords.y < height,
    ensures
        grid_of(map@) == grid_with(world@, width as nat, height as nat),
        grid_shape(grid_of(map@), width as nat, height as nat),
{
    let mut map = empty_map(width, height);
    let mut i: usize = 0;
    while i < world.len()
        invariant
            0 <= i <= world.len(),
            forall|i: int|
                0 <= i < world.len() ==> 0 <= (#[trigger] world[i]).grid_coords.x < width && 0
                    <= world[i].grid_coords.y < height,
            grid_of(map@) == grid_with(world@.take(i as int), width as nat, height as nat),
            grid_shape(grid_of(map@), width as nat, height as nat),
        decreases world.len() - i,
    {
        let e = world[i];
        proof {
            assert(world@.take(i + 1).drop_last() =~= world@.take(i as int));
            assert(world@.take(i + 1).last() == e);
            assert(grid_of(map@)[e.grid_coords.y as int] == map@[e.grid_coords.y as int]@);
        }
        set_map_cell(
            &mut map,
            e.grid_coords.x as usize,
            e.grid_coords.y as usize,
            Some((e.entity, e.block)),
        );
        i = i + 1;
    }
    assert(world@.take(i as int) =~= world@);
    map
}

/// Performs one move command on the grid and the entities, returning the push events.
fn apply_grid_command(world: &mut Vec<SokobanEntity>, map: CollisionMap, command: SokobanCommand) -> (r: (
    CollisionMap,
    Vec<PushEvent>,
))
    requires
        distinct_entities(old(world)@),
        world_within(old(world)@, 1),
        rectangular(grid_of(map@)),
    ensures
        final(world)@ == grid_command(old(world)@, grid_of(map@), command).0,
        grid_of(r.0@) == grid_command(old(world)@, grid_of(map@), command).1,
        r.1@.map_values(|e: PushEvent| event_view(e)) == grid_command(
            old(world)@,
            grid_of(map@),
            command,
        ).2,
        rectangular(grid_of(r.0@)),
        grid_of(r.0@).len() == grid_of(map@).len(),
        grid_of(map@).len() > 0 ==> grid_of(r.0@)[0].len() == grid_of(map@)[0].len(),
{
    let ghost w = world@;
    let ghost g = grid_of(map@);
    let SokobanCommand::Move { entity, direction } = command;
    let mut events: Vec<PushEvent> = Vec::new();
    if direction == Direction::Zero {
        assert(events@.map_values(|e: PushEvent| event_view(e)) =~= Seq::empty());
        return (map, events);
    }
    let index = match find_entity(world, entity) {
        Some(i) => i,
        None => {
            assert(events@.map_values(|e: PushEvent| event_view(e)) =~= Seq::empty());
            return (map, events);
        },
    };
    proof {
        let c = choose|i: int| 0 <= i < w.len() && w[i].entity == entity;
        assert(w[index as int].entity == entity);
        if c != index {
            assert(w[c].entity != w[index as int].entity);
        }
    }
    let coords = world[index].grid_coords.to_ivec2();
    proof {
        lemma_grid_push_keeps_shape(g, coords.x as int, coords.y as int, direction);
    }
    let (new_map, pushed) = push_grid_coords_recursively(map, coords, direction);
    let list = match pushed {
        Some(list) => list,
        None => {
            assert(events@.map_values(|e: PushEvent| event_view(e)) =~= Seq::empty());
            return (new_map, events);
        },
    };
    let order = reversed(&list);
    let mut i: usize = 0;
    while i < order.len()
        invariant
            0 <= i <= order.len(),
            world@ == w,
            events@.map_values(|e: PushEvent| event_view(e)) == grid_push_events(
                w,
                order@,
                direction,
                i as int,
            ),
        decreases order.len() - i,
    {
        let pusher = order[i];
        if i + 1 < order.len() && entity_tracks_pushes(world, pusher) {
            let rest = tail_from(&order, i + 1);
            events.push(PushEvent { pusher, direction, pushed: rest });
        }
        assert(events@.map_values(|e: PushEvent| event_view(e)) =~= grid_push_events(
            w,
            order@,
            direction,
            i + 1,
        ));
        i = i + 1;
    }
    let step = direction.to_ivec2();
    let mut j: usize = 0;
    while j < world.len()
        invariant
            0 <= j <= world.len(),
            world.len() == w.len(),
            world_within(w, 1),
            step.x == dir_x(direction),
            step.y == dir_y(direction),
            forall|k: int| j <= k < world.len() ==> #[trigger] world[k] == w[k],
            forall|k: int| 0 <= k < j ==> #[trigger] world[k] == step_listed(w, list@, direction)[k],
        decreases world.len() - j,
    {
        let e = world[j];
        if vec_holds(&list, e.entity) {
            let moved = GridCoords::new(e.grid_coords.x + step.x, e.grid_coords.y + step.y);
            world.set(j, SokobanEntity { grid_coords: moved, ..e });
        }
        j = j + 1;
    }
    assert(world@ =~= step_listed(w, list@, direction));
    (new_map, events)
}

/// A command on the grid keeps the entity ids and moves each entity by at most one step.
proof fn lemma_grid_command_keeps(
    w: Seq<SokobanEntity>,
    g: Seq<Seq<Option<(u64, SokobanBlock)>>>,
    cmd: SokobanCommand,
    margin: int,
)
    requires
        distinct_entities(w),
        world_within(w, margin),
        margin >= 1,
    ensures
        grid_command(w, g, cmd).0.len() == w.len(),
        distinct_entities(grid_command(w, g, cmd).0),
        world_within(grid_command(w, g, cmd).0, margin - 1),
{
    let after = grid_command(w, g, cmd).0;
    assert forall|i: int, j: int|
        0 <= i < after.len() && 0 <= j < after.len() && i != j implies #[trigger] after[i].entity
        != #[trigger] after[j].entity by {
        assert(after[i].entity == w[i].entity);
        assert(after[j].entity == w[j].entity);
    }
    assert forall|i: int| 0 <= i < after.len() implies i32::MIN + (margin - 1) <= (
    #[trigger] after[i]).grid_coords.x <= i32::MAX - (margin - 1) && i32::MIN + (margin - 1)
        <= after[i].grid_coords.y <= i32::MAX - (margin - 1) by {
        assert(w[i].grid_coords.x - 1 <= after[i].grid_coords.x <= w[i].grid_coords.x + 1);
        assert(w[i].grid_coords.y - 1 <= after[i].grid_coords.y <= w[i].grid_coords.y + 1);
    }
}

/// Performs the move commands in order on a level of `width` by `height` cells: each command
/// pushes on the grid the commanded entity along its direction, moves every entity the push
/// moved, and has each pushing entity that tracks its pushes report the entities it pushed.
#[verifier::spinoff_prover]
pub fn flush_sokoban_commands(
    world: &mut Vec<SokobanEntity>,
    width: usize,
    height: usize,
    commands: &Vec<SokobanCommand>,
) -> (events: Vec<PushEvent>)
    requires
        width <= i32::MAX,
        height <= i32::MAX,
        distinct_entities(old(world)@),
        world_within(old(world)@, commands.len() + 1),
        forall|i: int|
            0 <= i < old(world).len() ==> 0 <= (#[trigger] old(world)[i]).grid_coords.x < width
                && 0 <= old(world)[i].grid_coords.y < height,
        forall|k: int|
            0 <= k < commands.len() ==> zero_move_ends(
                grid_flush(
                    old(world)@,
                    grid_with(old(world)@, width as nat, height as nat),
                    commands@.take(k),
                ).0,
                grid_flush(
                    old(world)@,
                    grid_with(old(world)@, width as nat, height as nat),
                    commands@.take(k),
                ).1,
                #[trigger] commands[k],
            ),
    ensures
        final(world)@ == grid_flush(
            old(world)@,
            grid_with(old(world)@, width as nat, height as nat),
            commands@,
        ).0,
        events@.map_values(|e: PushEvent| event_view(e)) == grid_flush(
            old(world)@,
            grid_with(old(world)@, width as nat, height as nat),
            commands@,
        ).2,
{
    let ghost w0 = world@;
    let ghost g0 = grid_with(w0, width as nat, height as nat);
    let mut map = build_map(world, width, height);
    let mut events: Vec<PushEvent> = Vec::new();
    let mut k: usize = 0;
    while k < commands.len()
        invariant
            0 <= k <= commands.len(),
            world@ == grid_flush(w0, g0, commands@.take(k as int)).0,
            grid_of(map@) == grid_flush(w0, g0, commands@.take(k as int)).1,
            events@.map_values(|e: PushEvent| event_view(e)) == grid_flush(
                w0,
                g0,
                commands@.take(k as int),
            ).2,
            rectangular(grid_of(map@)),
            distinct_entities(world@),
            world_within(world@, commands.len() + 1 - k),
        decreases commands.len() - k,
    {
        let command = commands[k];
        let ghost before = world@;
        proof {
            assert(commands@.take(k + 1).drop_last() =~= commands@.take(k as int));
            assert(commands@.take(k + 1).last() == command);
        }
        let ghost g = grid_of(map@);
        let (new_map, mut fired) = apply_grid_command(world, map, command);
        map = new_map;
        proof {
            lemma_grid_command_keeps(before, g, command, commands.len() + 1 - k);
        }
        let ghost old_events = events@;
        let ghost new_events = fired@;
        events.append(&mut fired);
        proof {
            assert(events@.map_values(|e: PushEvent| event_view(e)) =~= old_events.map_values(
                |e: PushEvent| event_view(e),
            ) + new_events.map_values(|e: PushEvent| event_view(e)));
        }
        k = k + 1;
    }
    assert(commands@.take(commands.len() as int) =~= commands@);
    events
}

} // verus!
