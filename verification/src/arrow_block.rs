//! Arrow blocks and movement tiles.
//!
//! Arrow blocks sit on rows and columns of the movement table; the directions of the blocks on a
//! row (or column) add up to that row's (or column's) movement. A movement tile pairs the
//! movement of a row with the movement of a column.
use crate::grid::GridCoords;
use crate::sokoban::{dir_index, dir_sum, Direction};
use crate::text::{has_substring, str_contains};
use bevy::platform::collections::HashMap;
use core::marker::PhantomData;
use vstd::prelude::*;

verus! {

/// A dimension of the grid that arrow blocks align along.
pub trait Dimension {
    /// The coordinate that identifies the line of `grid_coords` along this dimension.
    spec fn coordinate_of(grid_coords: GridCoords) -> i32;

    fn significant_coordinate(grid_coords: &GridCoords) -> (c: i32)
        ensures
            c == Self::coordinate_of(*grid_coords),
    ;
}

/// Rows are identified by their y coordinate.
#[derive(Copy, Clone, Debug, Default, PartialEq, Eq)]
pub struct Row;

impl Dimension for Row {
    open spec fn coordinate_of(grid_coords: GridCoords) -> i32 {
        grid_coords.y
    }

    fn significant_coordinate(grid_coords: &GridCoords) -> (c: i32) {
        grid_coords.y
    }
}

/// Columns are identified by their x coordinate.
#[derive(Copy, Clone, Debug, Default, PartialEq, Eq)]
pub struct Column;

impl Dimension for Column {
    open spec fn coordinate_of(grid_coords: GridCoords) -> i32 {
        grid_coords.x
    }

    fn significant_coordinate(grid_coords: &GridCoords) -> (c: i32) {
        grid_coords.x
    }
}

/// An arrow block on a line along dimension `D`, pointing in `direction`.
pub struct ArrowBlock<D: Dimension> {
    pub direction: Direction,
    pub phantom_data: PhantomData<D>,
}

/// What a direction map holds: line coordinate to the summed direction of that line.
pub uninterp spec fn direction_map_contents(m: HashMap<i32, Direction>) -> Map<i32, Direction>;

/// `HashMap::get`: the direction stored under `k`, if any (copied out).
#[verifier::external_body]
fn direction_map_get(m: &HashMap<i32, Direction>, k: i32) -> (r: Option<Direction>)
    ensures
        r == direction_map_contents(*m).get(k),
{
    m.get(&k).copied()
}

/// `HashMap::insert`: afterwards `k` maps to `v`, all other keys unchanged.
#[verifier::external_body]
fn direction_map_insert(m: &mut HashMap<i32, Direction>, k: i32, v: Direction)
    ensures
        direction_map_contents(*final(m)) == direction_map_contents(*old(m)).insert(k, v),
{
    m.insert(k, v);
}

/// The direction summed so far for line `k`, `Zero` when none.
pub open spec fn summed_direction(m: Map<i32, Direction>, k: i32) -> Direction {
    if m.dom().contains(k) {
        m[k]
    } else {
        Direction::Zero
    }
}

/// The direction an arrow block identifier names, checked in the order Up, Left, Down, Right.
pub open spec fn identifier_direction(id: Seq<char>) -> Option<Direction> {
    if has_substring(id, seq!['U', 'p']) {
        Some(Direction::Up)
    } else if has_substring(id, seq!['L', 'e', 'f', 't']) {
        Some(Direction::Left)
    } else if has_substring(id, seq!['D', 'o', 'w', 'n']) {
        Some(Direction::Down)
    } else if has_substring(id, seq!['R', 'i', 'g', 'h', 't']) {
        Some(Direction::Right)
    } else {
        None
    }
}

impl<D: Dimension> ArrowBlock<D> {
    /// Adds this block's direction to the entry of its line in `aggregate_directions`.
    pub fn fold_direction_into(
        &self,
        self_grid_coords: &GridCoords,
        aggregate_directions: HashMap<i32, Direction>,
    ) -> (r: HashMap<i32, Direction>)
        requires
            dir_sum(
                summed_direction(
                    direction_map_contents(aggregate_directions),
                    D::coordinate_of(*self_grid_coords),
                ),
                self.direction,
            ) is Some,
        ensures
            direction_map_contents(r) == direction_map_contents(aggregate_directions).insert(
                D::coordinate_of(*self_grid_coords),
                dir_sum(
                    summed_direction(
                        direction_map_contents(aggregate_directions),
                        D::coordinate_of(*self_grid_coords),
                    ),
                    self.direction,
                ).unwrap(),
            ),
    {
        let mut aggregate_directions = aggregate_directions;
        let key = D::significant_coordinate(self_grid_coords);
        let mut summed = match direction_map_get(&aggregate_directions, key) {
            Some(d) => d,
            None => Direction::Zero,
        };
        summed.add_assign(self.direction);
        direction_map_insert(&mut aggregate_directions, key, summed);
        aggregate_directions
    }

    /// Adds this block's direction to the entry of its line in `aggregate_directions` when the
    /// sum is still a direction (`Ok` with the new map); otherwise hands the map back unchanged
    /// (`Err`).
    pub fn try_fold_direction_into(
        &self,
        self_grid_coords: &GridCoords,
        aggregate_directions: HashMap<i32, Direction>,
    ) -> (r: Result<HashMap<i32, Direction>, HashMap<i32, Direction>>)
        ensures
            r is Ok <==> dir_sum(
                summed_direction(
                    direction_map_contents(aggregate_directions),
                    D::coordinate_of(*self_grid_coords),
                ),
                self.direction,
            ) is Some,
            r matches Ok(m) ==> direction_map_contents(m) == direction_map_contents(
                aggregate_directions,
            ).insert(
                D::coordinate_of(*self_grid_coords),
                dir_sum(
                    summed_direction(
                        direction_map_contents(aggregate_directions),
                        D::coordinate_of(*self_grid_coords),
                    ),
                    self.direction,
                ).unwrap(),
            ),
            r matches Err(m) ==> m == aggregate_directions,
    {
        let key = D::significant_coordinate(self_grid_coords);
        let summed = match direction_map_get(&aggregate_directions, key) {
            Some(d) => d,
            None => Direction::Zero,
        };
        match summed.try_add(self.direction) {
            Ok(_) => Ok(self.fold_direction_into(self_grid_coords, aggregate_directions)),
            Err(_) => Err(aggregate_directions),
        }
    }

    /// The arrow block named by an identifier containing "Up", "Left", "Down" or "Right".
    pub fn from_identifier(identifier: &str) -> (a: ArrowBlock<D>)
        requires
            identifier_direction(identifier@) is Some,
        ensures
            Some(a.direction) == identifier_direction(identifier@),
    {
        proof {
            reveal_strlit("Up");
            reveal_strlit("Left");
            reveal_strlit("Down");
            reveal_strlit("Right");
            assert("Up"@ =~= seq!['U', 'p']);
            assert("Left"@ =~= seq!['L', 'e', 'f', 't']);
            assert("Down"@ =~= seq!['D', 'o', 'w', 'n']);
            assert("Right"@ =~= seq!['R', 'i', 'g', 'h', 't']);
        }
        let direction = if str_contains(identifier, "Up") {
            Direction::Up
        } else if str_contains(identifier, "Left") {
            Direction::Left
        } else if str_contains(identifier, "Down") {
            Direction::Down
        } else {
            Direction::Right
        };
        ArrowBlock { direction, phantom_data: PhantomData }
    }
}

/// The movement of a table cell: first along the row's direction, then along the column's.
#[derive(Copy, Clone, Debug, PartialEq, Eq, Hash, Structural)]
pub struct MovementTile {
    pub row_move: Direction,
    pub column_move: Direction,
}

impl Default for MovementTile {
    fn default() -> (t: MovementTile)
        ensures
            t.row_move == Direction::Zero,
            t.column_move == Direction::Zero,
    {
        MovementTile { row_move: Direction::Zero, column_move: Direction::Zero }
    }
}

/// The tileset index of the movement with the given row and column moves.
pub open spec fn tileset_index_of(row_move: Direction, column_move: Direction) -> nat {
    dir_index(row_move) * 9 + dir_index(column_move)
}

impl MovementTile {
    pub fn new(row_move: Direction, column_move: Direction) -> (t: MovementTile)
        ensures
            t.row_move == row_move,
            t.column_move == column_move,
    {
        MovementTile { row_move, column_move }
    }

    pub fn row_move(&self) -> (d: &Direction)
        ensures
            *d == self.row_move,
    {
        &self.row_move
    }

    pub fn column_move(&self) -> (d: &Direction)
        ensures
            *d == self.column_move,
    {
        &self.column_move
    }

    /// Index of this movement's icon in the 9x9 movement tileset: the row move picks the row,
    /// the column move the column.
    pub fn tileset_index(&self) -> (i: usize)
        ensures
            i == tileset_index_of(self.row_move, self.column_move),
    {
        self.row_move.variant_index() * 9 + self.column_move.variant_index()
    }
}

/// Distinct movements have distinct tileset indices, all inside the 81-tile set.
pub proof fn lemma_tileset_index_injective(a: MovementTile, b: MovementTile)
    ensures
        tileset_index_of(a.row_move, a.column_move) < 81,
        tileset_index_of(a.row_move, a.column_move) == tileset_index_of(b.row_move, b.column_move)
            ==> a == b,
{
}

} // verus!
