//! The movement table: a 4x4 table whose gravestone placements define Willo's grave actions.
//!
//! A gravestone on rank `r` and file `f` of the table makes its grave action move Willo first in
//! the direction of rank `r`, then in the direction of file `f`.
use crate::gravestone::{GraveId, Gravestone};
use crate::grid::GridCoords;
use crate::sokoban::Direction;
use crate::volatile::Volatile;
use crate::timer::{reset_timer, ticked};
use crate::willo::{MovementTimer, WilloAnimationState, WilloState};
use vstd::prelude::*;

verus! {

/// The direction of each rank and file of the table, in order.
pub const DIRECTION_ORDER: [Direction; 4] = [
    Direction::Up,
    Direction::Left,
    Direction::Down,
    Direction::Right,
];

/// The direction of rank or file `i`.
pub open spec fn order_direction(i: int) -> Direction {
    if i == 0 {
        Direction::Up
    } else if i == 1 {
        Direction::Left
    } else if i == 2 {
        Direction::Down
    } else {
        Direction::Right
    }
}

/// The current placement of gravestones on the table, by rank then file.
#[derive(Copy, Clone, Debug, PartialEq, Eq, Hash, Default)]
pub struct MovementTable {
    pub table: [[Option<GraveId>; 4]; 4],
}

/// Whether gravestone `g` stands on rank `r`, file `f` of the table at `t`: the table's cells
/// lie to the right of and below its anchor.
pub open spec fn on_cell(g: Gravestone, t: GridCoords, r: int, f: int) -> bool {
    g.volatile == Volatile::Solid && g.grid_coords.x - t.x - 1 == f && -1 - (g.grid_coords.y - t.y)
        == r
}

/// The grave on rank `r`, file `f`: the last solid gravestone standing there, if any.
pub open spec fn table_cell(gravestones: Seq<Gravestone>, t: GridCoords, r: int, f: int) -> Option<
    GraveId,
>
    decreases gravestones.len(),
{
    if gravestones.len() == 0 {
        None
    } else if on_cell(gravestones.last(), t, r, f) {
        Some(gravestones.last().grave_id)
    } else {
        table_cell(gravestones.drop_last(), t, r, f)
    }
}

/// Every one of the table's sixteen cells is read: a solid gravestone standing `f + 1` to the
/// right of and `r + 1` below the table's anchor, with `r` and `f` in `0..4`, puts its grave on
/// rank `r`, file `f`, unless a later solid gravestone stands there too.
pub proof fn lemma_table_reads_every_cell(
    gravestones: Seq<Gravestone>,
    t: GridCoords,
    i: int,
    r: int,
    f: int,
)
    requires
        0 <= i < gravestones.len(),
        0 <= r < 4,
        0 <= f < 4,
        gravestones[i].volatile == Volatile::Solid,
        gravestones[i].grid_coords.x - t.x == f + 1,
        gravestones[i].grid_coords.y - t.y == -1 - r,
        forall|j: int|
            i < j < gravestones.len() && (#[trigger] gravestones[j]).volatile == Volatile::Solid
                ==> !(gravestones[j].grid_coords.x - t.x == f + 1 && gravestones[j].grid_coords.y
                - t.y == -1 - r),
    ensures
        table_cell(gravestones, t, r, f) == Some(gravestones[i].grave_id),
    decreases gravestones.len(),
{
    if i < gravestones.len() - 1 {
        let pre = gravestones.drop_last();
        assert(gravestones.last() == gravestones[gravestones.len() - 1]);
        assert forall|j: int|
            i < j < pre.len() && (#[trigger] pre[j]).volatile == Volatile::Solid implies !(
            pre[j].grid_coords.x - t.x == f + 1 && pre[j].grid_coords.y - t.y == -1 - r) by {
            assert(pre[j] == gravestones[j]);
        }
        lemma_table_reads_every_cell(pre, t, i, r, f);
        assert(pre[i] == gravestones[i]);
    }
}

/// A cell holds no grave when no solid gravestone stands on it; and a grave a cell holds is that
/// of a solid gravestone standing on it.
pub proof fn lemma_table_cell_comes_from_a_gravestone(
    gravestones: Seq<Gravestone>,
    t: GridCoords,
    r: int,
    f: int,
)
    ensures
        table_cell(gravestones, t, r, f) matches Some(id) ==> exists|i: int|
            0 <= i < gravestones.len() && (#[trigger] gravestones[i]).volatile == Volatile::Solid
                && gravestones[i].grid_coords.x - t.x == f + 1 && gravestones[i].grid_coords.y - t.y
                == -1 - r && gravestones[i].grave_id == id,
    decreases gravestones.len(),
{
    if gravestones.len() > 0 {
        let pre = gravestones.drop_last();
        lemma_table_cell_comes_from_a_gravestone(pre, t, r, f);
        let n = gravestones.len() - 1;
        assert(gravestones.last() == gravestones[n]);
        if !on_cell(gravestones.last(), t, r, f) {
            if table_cell(gravestones, t, r, f) is Some {
                let i = choose|i: int|
                    0 <= i < pre.len() && (#[trigger] pre[i]).volatile == Volatile::Solid
                        && pre[i].grid_coords.x - t.x == f + 1 && pre[i].grid_coords.y - t.y == -1
                        - r && pre[i].grave_id == table_cell(gravestones, t, r, f).unwrap();
                assert(gravestones[i] == pre[i]);
            }
        }
    }
}

/// The differences of solid gravestone coordinates from the table fit in `i32`.
pub open spec fn offsets_fit(gravestones: Seq<Gravestone>, t: GridCoords) -> bool {
    forall|i: int|
        0 <= i < gravestones.len() && (#[trigger] gravestones[i]).volatile == Volatile::Solid
            ==> i32::MIN < gravestones[i].grid_coords.x - t.x <= i32::MAX && i32::MIN
            <= gravestones[i].grid_coords.y - t.y <= i32::MAX
}

fn set_table_cell(
    table: &mut [[Option<GraveId>; 4]; 4],
    r: usize,
    f: usize,
    v: Option<GraveId>,
)
    requires
        r < 4,
        f < 4,
    ensures
        forall|i: int, j: int|
            0 <= i < 4 && 0 <= j < 4 ==> #[trigger] final(table)@[i]@[j] == if i == r && j == f {
                v
            } else {
                old(table)@[i]@[j]
            },
{
    let mut row = table[r];
    row.set(f, v);
    table.set(r, row);
}

/// The table for the solid gravestones around a table anchored at `table_coords`.
pub fn movement_table_update(table_coords: GridCoords, gravestones: &Vec<Gravestone>) -> (m:
    MovementTable)
    requires
        offsets_fit(gravestones@, table_coords),
    ensures
        forall|r: int, f: int|
            0 <= r < 4 && 0 <= f < 4 ==> #[trigger] m.table@[r]@[f] == table_cell(
                gravestones@,
                table_coords,
                r,
                f,
            ),
{
    let mut new_table: [[Option<GraveId>; 4]; 4] = [[None; 4]; 4];
    let mut i: usize = 0;
    while i < gravestones.len()
        invariant
            0 <= i <= gravestones.len(),
            offsets_fit(gravestones@, table_coords),
            forall|r: int, f: int|
                0 <= r < 4 && 0 <= f < 4 ==> #[trigger] new_table@[r]@[f] == table_cell(
                    gravestones@.take(i as int),
                    table_coords,
                    r,
                    f,
                ),
        decreases gravestones.len() - i,
    {
        let g = gravestones[i];
        assert(gravestones@.take(i + 1).drop_last() =~= gravestones@.take(i as int));
        assert(gravestones@.take(i + 1).last() == g);
        if g.volatile.is_solid() {
            let diff_x = g.grid_coords.x - table_coords.x;
            let diff_y = g.grid_coords.y - table_coords.y;
            let x_index = diff_x - 1;
            let y_index = -1 - diff_y;
            if 0 <= x_index && x_index < 4 && 0 <= y_index && y_index < 4 {
                set_table_cell(&mut new_table, y_index as usize, x_index as usize, Some(g.grave_id));
            }
        }
        i += 1;
    }
    assert(gravestones@.take(gravestones.len() as int) =~= gravestones@);
    MovementTable { table: new_table }
}

/// The directions of the ranks (for a rank move) or files (for a file move) on which the grave
/// `key` stands, in table order.
pub open spec fn table_moves(table: Seq<Seq<Option<GraveId>>>, key: GraveId, by_rank: bool, n: int) -> Seq<
    Direction,
>
    decreases n,
{
    if n <= 0 {
        Seq::empty()
    } else {
        let cell = n - 1;
        let r = cell / 4;
        let f = cell % 4;
        table_moves(table, key, by_rank, n - 1) + if table[r][f] == Some(key) && (by_rank ==> (
        forall|g: int| 0 <= g < f ==> table[r][g] != Some(key))) {
            seq![if by_rank {
                order_direction(r)
            } else {
                order_direction(f)
            }]
        } else {
            Seq::empty()
        }
    }
}

/// The moves of a file move along one rank of the table: for each cell holding the grave, the
/// direction of its file (files go Up, Left, Down, Right).
pub open spec fn file_directions(row: Seq<Option<GraveId>>, key: GraveId) -> Seq<Direction> {
    (if row[0] == Some(key) {
        seq![Direction::Up]
    } else {
        Seq::empty()
    }) + (if row[1] == Some(key) {
        seq![Direction::Left]
    } else {
        Seq::empty()
    }) + (if row[2] == Some(key) {
        seq![Direction::Down]
    } else {
        Seq::empty()
    }) + (if row[3] == Some(key) {
        seq![Direction::Right]
    } else {
        Seq::empty()
    })
}

/// A rank move goes once in the direction of every rank that holds the grave, ranks in order:
/// rank 0 Up, rank 1 Left, rank 2 Down, rank 3 Right.
pub proof fn lemma_rank_move_follows_ranks(table: Seq<Seq<Option<GraveId>>>, key: GraveId)
    requires
        table.len() == 4,
        forall|r: int| 0 <= r < 4 ==> #[trigger] table[r].len() == 4,
    ensures
        table_moves(table, key, true, 16) == (if table[0].contains(Some(key)) {
            seq![Direction::Up]
        } else {
            Seq::empty()
        }) + (if table[1].contains(Some(key)) {
            seq![Direction::Left]
        } else {
            Seq::empty()
        }) + (if table[2].contains(Some(key)) {
            seq![Direction::Down]
        } else {
            Seq::empty()
        }) + (if table[3].contains(Some(key)) {
            seq![Direction::Right]
        } else {
            Seq::empty()
        }),
{
    lemma_rank_part(table, key, 0);
    lemma_rank_part(table, key, 1);
    lemma_rank_part(table, key, 2);
    lemma_rank_part(table, key, 3);
    assert(table_moves(table, key, true, 0) =~= Seq::<Direction>::empty());
    let e = Seq::<Direction>::empty();
    assert(e + (if table[0].contains(Some(key)) { seq![Direction::Up] } else { e }) =~= (
    if table[0].contains(Some(key)) {
        seq![Direction::Up]
    } else {
        e
    }));
}

/// A file move goes, rank by rank, in the direction of the file of every cell that holds the
/// grave: file 0 Up, file 1 Left, file 2 Down, file 3 Right.
pub proof fn lemma_file_move_follows_files(table: Seq<Seq<Option<GraveId>>>, key: GraveId)
    requires
        table.len() == 4,
        forall|r: int| 0 <= r < 4 ==> #[trigger] table[r].len() == 4,
    ensures
        table_moves(table, key, false, 16) == file_directions(table[0], key) + file_directions(
            table[1],
            key,
        ) + file_directions(table[2], key) + file_directions(table[3], key),
{
    lemma_file_part(table, key, 0);
    lemma_file_part(table, key, 1);
    lemma_file_part(table, key, 2);
    lemma_file_part(table, key, 3);
    assert(table_moves(table, key, false, 0) =~= Seq::<Direction>::empty());
    assert(Seq::<Direction>::empty() + file_directions(table[0], key) =~= file_directions(
        table[0],
        key,
    ));
}

/// The moves contributed by the cells of rank `r` on a file move.
proof fn lemma_file_part(table: Seq<Seq<Option<GraveId>>>, key: GraveId, r: int)
    requires
        table.len() == 4,
        forall|i: int| 0 <= i < 4 ==> #[trigger] table[i].len() == 4,
        0 <= r < 4,
    ensures
        table_moves(table, key, false, 4 * r + 4) == table_moves(table, key, false, 4 * r)
            + file_directions(table[r], key),
{
    let row = table[r];
    let k = Some(key);
    assert((4 * r + 0) / 4 == r && (4 * r + 0) % 4 == 0);
    assert((4 * r + 1) / 4 == r && (4 * r + 1) % 4 == 1);
    assert((4 * r + 2) / 4 == r && (4 * r + 2) % 4 == 2);
    assert((4 * r + 3) / 4 == r && (4 * r + 3) % 4 == 3);
    let base = table_moves(table, key, false, 4 * r);
    let m1 = table_moves(table, key, false, 4 * r + 1);
    let m2 = table_moves(table, key, false, 4 * r + 2);
    let m3 = table_moves(table, key, false, 4 * r + 3);
    let m4 = table_moves(table, key, false, 4 * r + 4);
    let e = Seq::<Direction>::empty();
    assert(m1 == base + if row[0] == k { seq![Direction::Up] } else { e });
    assert(m2 == m1 + if row[1] == k { seq![Direction::Left] } else { e });
    assert(m3 == m2 + if row[2] == k { seq![Direction::Down] } else { e });
    assert(m4 == m3 + if row[3] == k { seq![Direction::Right] } else { e });
    assert(m4 =~= base + file_directions(row, key));
}

/// The moves contributed by rank `r`: its direction once if it holds the grave.
proof fn lemma_rank_part(table: Seq<Seq<Option<GraveId>>>, key: GraveId, r: int)
    requires
        table.len() == 4,
        forall|i: int| 0 <= i < 4 ==> #[trigger] table[i].len() == 4,
        0 <= r < 4,
    ensures
        table_moves(table, key, true, 4 * r + 4) == table_moves(table, key, true, 4 * r) + if table[r].contains(
            Some(key),
        ) {
            seq![order_direction(r)]
        } else {
            Seq::empty()
        },
{
    let row = table[r];
    let k = Some(key);
    assert((4 * r + 0) / 4 == r && (4 * r + 0) % 4 == 0);
    assert((4 * r + 1) / 4 == r && (4 * r + 1) % 4 == 1);
    assert((4 * r + 2) / 4 == r && (4 * r + 2) % 4 == 2);
    assert((4 * r + 3) / 4 == r && (4 * r + 3) % 4 == 3);
    let base = table_moves(table, key, true, 4 * r);
    let m1 = table_moves(table, key, true, 4 * r + 1);
    let m2 = table_moves(table, key, true, 4 * r + 2);
    let m3 = table_moves(table, key, true, 4 * r + 3);
    let m4 = table_moves(table, key, true, 4 * r + 4);
    let d = seq![order_direction(r)];
    let e = Seq::<Direction>::empty();
    assert(m1 == base + if row[0] == k { d } else { e });
    assert(m2 == m1 + if row[1] == k && row[0] != k { d } else { e }) by {
        if row[1] == k && row[0] != k {
            assert(forall|g: int| 0 <= g < 1 ==> table[r][g] != k);
        } else if row[1] == k {
            assert(!(forall|g: int| 0 <= g < 1 ==> table[r][g] != k)) by {
                assert(table[r][0] == k);
            }
        }
    }
    assert(m3 == m2 + if row[2] == k && row[0] != k && row[1] != k { d } else { e }) by {
        if row[2] == k && row[0] != k && row[1] != k {
            assert(forall|g: int| 0 <= g < 2 ==> table[r][g] != k);
        } else if row[2] == k {
            assert(!(forall|g: int| 0 <= g < 2 ==> table[r][g] != k)) by {
                if row[0] == k {
                    assert(table[r][0] == k);
                } else {
                    assert(table[r][1] == k);
                }
            }
        }
    }
    assert(m4 == m3 + if row[3] == k && row[0] != k && row[1] != k && row[2] != k { d } else { e }) by {
        if row[3] == k && row[0] != k && row[1] != k && row[2] != k {
            assert(forall|g: int| 0 <= g < 3 ==> table[r][g] != k);
        } else if row[3] == k {
            assert(!(forall|g: int| 0 <= g < 3 ==> table[r][g] != k)) by {
                if row[0] == k {
                    assert(table[r][0] == k);
                } else if row[1] == k {
                    assert(table[r][1] == k);
                } else {
                    assert(table[r][2] == k);
                }
            }
        }
    }
    assert(row.contains(k) <==> (row[0] == k || row[1] == k || row[2] == k || row[3] == k)) by {
        if row.contains(k) {
            let i = choose|i: int| 0 <= i < row.len() && row[i] == k;
        }
        if row[0] == k {
            assert(row[0] == k);
        }
        if row[1] == k {
            assert(row[1] == k);
        }
        if row[2] == k {
            assert(row[2] == k);
        }
        if row[3] == k {
            assert(row[3] == k);
        }
    }
    assert(m4 =~= base + if row.contains(k) { d } else { e });
}

/// One step of a grave action by the table, when the movement timer finished.
fn table_step(
    table: &MovementTable,
    willo_state: WilloState,
    animation: WilloAnimationState,
    timer_finished: bool,
) -> (r: (Vec<Direction>, WilloState, WilloAnimationState, bool))
    ensures
        !timer_finished ==> r.0@.len() == 0 && r.1 == willo_state && r.2 == animation && !r.3,
        timer_finished ==> match willo_state {
            WilloState::RankMove(key) => r.0@ == table_moves(
                table.table@.map_values(|row: [Option<GraveId>; 4]| row@),
                key,
                true,
                16,
            ) && r.1 == WilloState::FileMove(key) && r.3,
            WilloState::FileMove(key) => r.0@ == table_moves(
                table.table@.map_values(|row: [Option<GraveId>; 4]| row@),
                key,
                false,
                16,
            ) && r.1 == WilloState::Waiting && r.3,
            _ => r.0@.len() == 0 && r.1 == willo_state && r.2 == animation && !r.3,
        },
        r.0@.len() > 0 ==> r.2 == WilloAnimationState::Idle(r.0@.last()),
        r.0@.len() == 0 ==> r.2 == animation,
{
    let mut moves: Vec<Direction> = Vec::new();
    if !timer_finished {
        return (moves, willo_state, animation, false);
    }
    let (key, by_rank) = match willo_state {
        WilloState::RankMove(key) => (key, true),
        WilloState::FileMove(key) => (key, false),
        _ => {
            return (moves, willo_state, animation, false);
        },
    };
    let ghost t = table.table@.map_values(|row: [Option<GraveId>; 4]| row@);
    let mut state_animation = animation;
    let mut cell: usize = 0;
    while cell < 16
        invariant
            0 <= cell <= 16,
            t == table.table@.map_values(|row: [Option<GraveId>; 4]| row@),
            moves@ == table_moves(t, key, by_rank, cell as int),
            moves@.len() > 0 ==> state_animation == WilloAnimationState::Idle(moves@.last()),
            moves@.len() == 0 ==> state_animation == animation,
        decreases 16 - cell,
    {
        let r = cell / 4;
        let f = cell % 4;
        let row = table.table[r];
        assert(t[r as int] == row@);
        if row[f] == Some(key) {
            let mut first_in_rank = true;
            let mut g: usize = 0;
            while g < f
                invariant
                    0 <= g <= f,
                    f < 4,
                    first_in_rank == (forall|h: int| 0 <= h < g ==> row@[h] != Some(key)),
                decreases f - g,
            {
                if row[g] == Some(key) {
                    first_in_rank = false;
                }
                g += 1;
            }
            if !by_rank || first_in_rank {
                let direction = if by_rank {
                    DIRECTION_ORDER[r]
                } else {
                    DIRECTION_ORDER[f]
                };
                assert(direction == if by_rank {
                    order_direction(r as int)
                } else {
                    order_direction(f as int)
                });
                moves.push(direction);
                state_animation = WilloAnimationState::Idle(direction);
            }
        }
        cell += 1;
    }
    let next_state = if by_rank {
        WilloState::FileMove(key)
    } else {
        WilloState::Waiting
    };
    (moves, next_state, state_animation, true)
}

/// Advances Willo's movement timer by `delta` nanoseconds and, once it finished, moves Willo by
/// the table: a rank move goes in the direction of every rank holding the grave, then becomes
/// the file move; a file move goes in the direction of every cell's file holding the grave,
/// then Willo waits again. Each step restarts the timer.
///
/// Returns the directions to move Willo in, the new state and the new animation state.
pub fn move_willo_by_table(
    table: &MovementTable,
    willo_state: WilloState,
    animation: WilloAnimationState,
    timer: &mut MovementTimer,
    delta: u64,
) -> (r: (Vec<Direction>, WilloState, WilloAnimationState))
    ensures
        !ticked(old(timer).0, delta).finished ==> r.0@.len() == 0 && r.1 == willo_state && r.2
            == animation && final(timer).0 == ticked(old(timer).0, delta),
        ticked(old(timer).0, delta).finished ==> match willo_state {
            WilloState::RankMove(key) => r.0@ == table_moves(
                table.table@.map_values(|row: [Option<GraveId>; 4]| row@),
                key,
                true,
                16,
            ) && r.1 == WilloState::FileMove(key) && final(timer).0 == reset_timer(
                ticked(old(timer).0, delta),
            ),
            WilloState::FileMove(key) => r.0@ == table_moves(
                table.table@.map_values(|row: [Option<GraveId>; 4]| row@),
                key,
                false,
                16,
            ) && r.1 == WilloState::Waiting && final(timer).0 == reset_timer(
                ticked(old(timer).0, delta),
            ),
            _ => r.0@.len() == 0 && r.1 == willo_state && r.2 == animation && final(timer).0
                == ticked(old(timer).0, delta),
        },
        r.0@.len() > 0 ==> r.2 == WilloAnimationState::Idle(r.0@.last()),
        r.0@.len() == 0 ==> r.2 == animation,
{
    timer.0.tick(delta);
    let (moves, state, next_animation, restart) = table_step(
        table,
        willo_state,
        animation,
        timer.0.finished(),
    );
    if restart {
        timer.0.reset();
    }
    (moves, state, next_animation)
}

} // verus!
