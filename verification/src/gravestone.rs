//! Gravestones: the pushable blocks that trigger Willo's moves, and how a gravestone finds its
//! movement.
use crate::arrow_block::MovementTile;
use crate::grid::GridCoords;
use crate::history::HistoryCommands;
use crate::text::str_eq;
use crate::volatile::Volatile;
use crate::willo::WilloState;
use rand::distributions::{Distribution, WeightedIndex};
use crate::ui::{find_first_key, first_key, InputBinding};
use vstd::prelude::*;

verus! {

/// Marks gravestones and associates them with an action; also names the action itself.
#[derive(Copy, Clone, Debug, PartialEq, Eq, Hash, Structural)]
pub enum GraveId {
    Northwest,
    /// Gravestone/action that applies to "northy" buttons like W and Triangle.
    North,
    Northeast,
    /// Gravestone/action that applies to "westy" buttons like A and Square.
    West,
    /// Gravestone/action that applies to "southy" buttons like S and X/Cross.
    South,
    /// Gravestone/action that applies to "eastern" buttons like D and Circle.
    East,
}

/// The gravestone named by a level identifier.
pub open spec fn identifier_grave(id: Seq<char>) -> Option<GraveId> {
    if id == seq!['W'] {
        Some(GraveId::North)
    } else if id == seq!['A'] {
        Some(GraveId::West)
    } else if id == seq!['S'] {
        Some(GraveId::South)
    } else if id == seq!['D'] {
        Some(GraveId::East)
    } else {
        None
    }
}

impl GraveId {
    /// The gravestone named by identifier "W", "A", "S" or "D".
    pub fn from_identifier(identifier: &str) -> (g: GraveId)
        requires
            identifier_grave(identifier@) is Some,
        ensures
            Some(g) == identifier_grave(identifier@),
    {
        proof {
            reveal_strlit("W");
            reveal_strlit("A");
            reveal_strlit("S");
            assert("W"@ =~= seq!['W']);
            assert("A"@ =~= seq!['A']);
            assert("S"@ =~= seq!['S']);
        }
        if str_eq(identifier, "W") {
            GraveId::North
        } else if str_eq(identifier, "A") {
            GraveId::West
        } else if str_eq(identifier, "S") {
            GraveId::South
        } else {
            GraveId::East
        }
    }
}

/// A gravestone as the engine holds it.
#[derive(Copy, Clone, Debug, PartialEq, Eq, Structural)]
pub struct Gravestone {
    pub grid_coords: GridCoords,
    pub grave_id: GraveId,
    pub volatile: Volatile,
}

/// A movement tile as the engine holds it.
#[derive(Copy, Clone, Debug, PartialEq, Eq, Structural)]
pub struct PlacedMovementTile {
    pub grid_coords: GridCoords,
    pub movement_tile: MovementTile,
}

/// Index of the first solid gravestone with id `g`, if any.
pub open spec fn first_solid_grave(gravestones: Seq<Gravestone>, g: GraveId) -> Option<int>
    decreases gravestones.len(),
{
    if gravestones.len() == 0 {
        None
    } else {
        match first_solid_grave(gravestones.drop_last(), g) {
            Some(i) => Some(i),
            None => if gravestones.last().volatile == Volatile::Solid && gravestones.last().grave_id
                == g {
                Some(gravestones.len() - 1)
            } else {
                None
            },
        }
    }
}

/// Index of the first movement tile at `c`, if any.
pub open spec fn first_tile_at(tiles: Seq<PlacedMovementTile>, c: GridCoords) -> Option<int>
    decreases tiles.len(),
{
    if tiles.len() == 0 {
        None
    } else {
        match first_tile_at(tiles.drop_last(), c) {
            Some(i) => Some(i),
            None => if tiles.last().grid_coords == c {
                Some(tiles.len() - 1)
            } else {
                None
            },
        }
    }
}

/// The movement of gravestone `g`: the movement tile under the first solid gravestone with id `g`.
pub open spec fn movement_of(
    gravestones: Seq<Gravestone>,
    tiles: Seq<PlacedMovementTile>,
    g: GraveId,
) -> Option<MovementTile> {
    match first_solid_grave(gravestones, g) {
        Some(i) => match first_tile_at(tiles, gravestones[i].grid_coords) {
            Some(j) => Some(tiles[j].movement_tile),
            None => None,
        },
        None => None,
    }
}

/// Queries of gravestones and movement tiles, as the engine provides them.
pub struct GravestoneMovementQueries {
    pub gravestones: Vec<Gravestone>,
    pub movement_tiles: Vec<PlacedMovementTile>,
}

proof fn lemma_first_solid_grave_prefix(gravestones: Seq<Gravestone>, g: GraveId, i: int)
    requires
        0 <= i < gravestones.len(),
    ensures
        first_solid_grave(gravestones.take(i + 1), g) == (match first_solid_grave(
            gravestones.take(i),
            g,
        ) {
            Some(k) => Some(k),
            None => if gravestones[i].volatile == Volatile::Solid && gravestones[i].grave_id == g {
                Some(i)
            } else {
                None
            },
        }),
{
    assert(gravestones.take(i + 1).drop_last() =~= gravestones.take(i));
}

proof fn lemma_first_tile_at_prefix(tiles: Seq<PlacedMovementTile>, c: GridCoords, i: int)
    requires
        0 <= i < tiles.len(),
    ensures
        first_tile_at(tiles.take(i + 1), c) == (match first_tile_at(tiles.take(i), c) {
            Some(k) => Some(k),
            None => if tiles[i].grid_coords == c {
                Some(i)
            } else {
                None
            },
        }),
{
    assert(tiles.take(i + 1).drop_last() =~= tiles.take(i));
}

impl GravestoneMovementQueries {
    /// The movement tile under the first solid gravestone with id `grave_id`, if any.
    pub fn find_movement(&self, grave_id: &GraveId) -> (r: Option<MovementTile>)
        ensures
            r == movement_of(self.gravestones@, self.movement_tiles@, *grave_id),
    {
        let ghost gs = self.gravestones@;
        let ghost ts = self.movement_tiles@;
        let mut i: usize = 0;
        let mut found: Option<GridCoords> = None;
        while i < self.gravestones.len()
            invariant
                0 <= i <= gs.len(),
                gs == self.gravestones@,
                found == (match first_solid_grave(gs.take(i as int), *grave_id) {
                    Some(k) => Some(gs[k].grid_coords),
                    None => None::<GridCoords>,
                }),
                forall|k: int|
                    #![trigger first_solid_grave(gs.take(k), *grave_id)]
                    0 <= k <= i ==> (first_solid_grave(gs.take(k), *grave_id) matches Some(j) ==> 0
                        <= j < k),
            decreases gs.len() - i,
        {
            proof {
                lemma_first_solid_grave_prefix(gs, *grave_id, i as int);
            }
            if found.is_none() {
                let g = self.gravestones[i];
                if g.volatile == Volatile::Solid && g.grave_id == *grave_id {
                    found = Some(g.grid_coords);
                }
            }
            i += 1;
        }
        assert(gs.take(gs.len() as int) =~= gs);
        let coords = match found {
            Some(c) => c,
            None => {
                return None;
            },
        };
        let mut j: usize = 0;
        while j < self.movement_tiles.len()
            invariant
                0 <= j <= ts.len(),
                ts == self.movement_tiles@,
                gs == self.gravestones@,
                first_tile_at(ts.take(j as int), coords) is None,
                match first_solid_grave(gs, *grave_id) {
                    Some(k) => gs[k].grid_coords == coords,
                    None => false,
                },
                forall|k: int|
                    #![trigger first_tile_at(ts.take(k), coords)]
                    0 <= k <= j ==> (first_tile_at(ts.take(k), coords) matches Some(q) ==> 0 <= q
                        < k),
            decreases ts.len() - j,
        {
            proof {
                lemma_first_tile_at_prefix(ts, coords, j as int);
            }
            let t = self.movement_tiles[j];
            if t.grid_coords == coords {
                assert(ts.take(ts.len() as int) =~= ts);
                proof {
                    assert(t == ts[j as int]);
                    assert(first_tile_at(ts.take(j + 1), coords) == Some(j as int));
                    lemma_first_tile_at_extends(ts, coords, j + 1);
                    assert(first_tile_at(ts, coords) == Some(j as int));
                    let k = first_solid_grave(gs, *grave_id).unwrap();
                    assert(gs[k].grid_coords == coords);
                    assert(movement_of(gs, ts, *grave_id) == Some(ts[j as int].movement_tile));
                }
                return Some(t.movement_tile);
            }
            j += 1;
        }
        assert(ts.take(ts.len() as int) =~= ts);
        None
    }
}

/// Once the first tile at `c` appears in a prefix, longer sequences agree.
proof fn lemma_first_tile_at_extends(tiles: Seq<PlacedMovementTile>, c: GridCoords, k: int)
    requires
        0 <= k <= tiles.len(),
        first_tile_at(tiles.take(k), c) is Some,
    ensures
        first_tile_at(tiles, c) == first_tile_at(tiles.take(k), c),
    decreases tiles.len() - k,
{
    if k < tiles.len() {
        lemma_first_tile_at_prefix(tiles, c, k);
        lemma_first_tile_at_extends(tiles, c, k + 1);
    } else {
        assert(tiles.take(k) =~= tiles);
    }
}

/// Decides Willo's reaction to the grave actions pressed this frame: while waiting, the first
/// pressed of North, West, South, East (in that order) records history and starts that grave's
/// move.
pub fn gravestone_input(willo: WilloState, just_pressed: &Vec<GraveId>) -> (r: (
    WilloState,
    Option<HistoryCommands>,
))
    ensures
        r == (if willo == WilloState::Waiting {
            if just_pressed@.contains(GraveId::North) {
                (WilloState::RankMove(GraveId::North), Some(HistoryCommands::Record))
            } else if just_pressed@.contains(GraveId::West) {
                (WilloState::RankMove(GraveId::West), Some(HistoryCommands::Record))
            } else if just_pressed@.contains(GraveId::South) {
                (WilloState::RankMove(GraveId::South), Some(HistoryCommands::Record))
            } else if just_pressed@.contains(GraveId::East) {
                (WilloState::RankMove(GraveId::East), Some(HistoryCommands::Record))
            } else {
                (willo, None)
            }
        } else {
            (willo, None)
        }),
{
    if willo == WilloState::Waiting {
        if vec_contains_grave(just_pressed, GraveId::North) {
            (WilloState::RankMove(GraveId::North), Some(HistoryCommands::Record))
        } else if vec_contains_grave(just_pressed, GraveId::West) {
            (WilloState::RankMove(GraveId::West), Some(HistoryCommands::Record))
        } else if vec_contains_grave(just_pressed, GraveId::South) {
            (WilloState::RankMove(GraveId::South), Some(HistoryCommands::Record))
        } else if vec_contains_grave(just_pressed, GraveId::East) {
            (WilloState::RankMove(GraveId::East), Some(HistoryCommands::Record))
        } else {
            (willo, None)
        }
    } else {
        (willo, None)
    }
}

fn vec_contains_grave(v: &Vec<GraveId>, g: GraveId) -> (r: bool)
    ensures
        r == v@.contains(g),
{
    let mut i: usize = 0;
    while i < v.len()
        invariant
            0 <= i <= v.len(),
            forall|j: int| 0 <= j < i ==> v@[j] != g,
        decreases v.len() - i,
    {
        if v[i] == g {
            return true;
        }
        i += 1;
    }
    false
}

/// Sum of the squares `1 * 1 + ... + n * n`.
pub open spec fn sum_of_squares(n: nat) -> nat
    decreases n,
{
    if n == 0 {
        0
    } else {
        sum_of_squares((n - 1) as nat) + n * n
    }
}

/// Sum of a sequence of weights.
pub open spec fn weight_sum(w: Seq<usize>) -> nat
    decreases w.len(),
{
    if w.len() == 0 {
        0
    } else {
        weight_sum(w.drop_last()) + w.last() as nat
    }
}

/// Weights favouring the first body: body `i` of `count` gets weight `(count - i)^2`.
pub fn gravestone_body_weights(count: usize) -> (w: Vec<usize>)
    requires
        sum_of_squares(count as nat) <= usize::MAX,
    ensures
        w.len() == count,
        forall|i: int| 0 <= i < count ==> #[trigger] w[i] == (count - i) * (count - i),
        weight_sum(w@) == sum_of_squares(count as nat),
{
    let mut w: Vec<usize> = Vec::new();
    let mut x: usize = count;
    while x > 0
        invariant
            0 <= x <= count,
            sum_of_squares(count as nat) <= usize::MAX,
            w.len() == count - x,
            forall|i: int| 0 <= i < w.len() ==> #[trigger] w[i] == (count - i) * (count - i),
            weight_sum(w@) + sum_of_squares(x as nat) == sum_of_squares(count as nat),
        decreases x,
    {
        proof {
            lemma_sum_of_squares_monotone(x as nat, count as nat);
            assert(x * x <= sum_of_squares(x as nat));
        }
        let sq = x * x;
        let ghost before = w@;
        w.push(sq);
        assert(w@.drop_last() == before);
        x -= 1;
    }
    w
}

proof fn lemma_sum_of_squares_monotone(a: nat, b: nat)
    requires
        a <= b,
    ensures
        sum_of_squares(a) <= sum_of_squares(b),
    decreases b,
{
    if a < b {
        lemma_sum_of_squares_monotone(a, (b - 1) as nat);
    }
}

/// `WeightedIndex::new(weights)` sampled once with `rand::thread_rng()`: a random index below
/// `weights.len()` (the sampler type cannot be named in a verified signature, so building and
/// sampling happen in one call). Which index comes out depends on chance: the sampler draws a
/// value below the total weight and returns the first index whose running total exceeds it, so
/// the contract states only that the index is in range and carries a positive weight; how often
/// each index comes out is left unsaid.
#[verifier::external_body]
fn sample_weighted_index(weights: &Vec<usize>) -> (i: usize)
    requires
        weights.len() > 0,
        weight_sum(weights@) > 0,
        weight_sum(weights@) <= usize::MAX,
    ensures
        i < weights.len(),
        weights@[i as int] > 0,
{
    WeightedIndex::new(weights).unwrap().sample(&mut rand::thread_rng())
}

/// Picks a random gravestone body sprite among `start..end`, favouring the first ones: body
/// `start + i` has weight `(count - i)^2`.
pub fn choose_gravestone_body(start: usize, end: usize) -> (index: usize)
    requires
        start < end,
        sum_of_squares((end - start) as nat) <= usize::MAX,
    ensures
        start <= index < end,
{
    let count = end - start;
    let weights = gravestone_body_weights(count);
    proof {
        assert(weights[0] == count * count);
        assert(count * count >= count) by (nonlinear_arith)
            requires
                count >= 1,
        ;
        lemma_weight_sum_positive(weights@);
    }
    let i = sample_weighted_index(&weights);
    gravestone_body_at(start, end, i)
}

/// The body sprite that a sample `sample` of the body weights picks among `start..end`: the
/// weights are listed in the order of the sprites.
pub fn gravestone_body_at(start: usize, end: usize, sample: usize) -> (index: usize)
    requires
        start <= end,
        sample < end - start,
    ensures
        index == start + sample,
{
    start + sample
}

proof fn lemma_weight_sum_positive(w: Seq<usize>)
    requires
        w.len() > 0,
        w[0] > 0,
    ensures
        weight_sum(w) > 0,
    decreases w.len(),
{
    if w.len() > 1 {
        lemma_weight_sum_positive(w.drop_last());
    }
}

/// The sprites of a freshly placed gravestone: its body, among the `start..end` body sprites,
/// and the icon of the first keyboard key bound to its grave action, if any.
pub fn spawn_gravestone_body(start: usize, end: usize, bindings: &Vec<InputBinding>) -> (r: (
    usize,
    Option<usize>,
))
    requires
        start < end,
        sum_of_squares((end - start) as nat) <= usize::MAX,
    ensures
        start <= r.0 < end,
        r.1 == first_key(bindings@),
{
    let body = choose_gravestone_body(start, end);
    (body, find_first_key(bindings))
}

} // verus!
