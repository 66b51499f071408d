//! Collision map of sokoban entities and the simulation of a push.
//!
//! The map indexes entities both by entity id and by grid coordinates, and answers what a move
//! command would do: whether the mover is blocked, which entities move, and which entities pushed
//! others.
use crate::grid::{GridCoords, IVec2};
use crate::sokoban::{
    dir_x, dir_y, event_view, push_spec, Direction, Push, PushEvent, PusheeResult, PusherResult, SokobanBlock,
    SokobanCommand,
};
use bevy::platform::collections::{HashMap, HashSet};
use bevy::platform::hash::FixedHasher;
use vstd::prelude::*;

verus! {

/// The fixed-state hasher that the platform collections use by default.
#[verifier::external_type_specification]
#[verifier::external_body]
pub struct ExFixedHasher(FixedHasher);

/// The hash map of the engine's platform layer.
#[verifier::external_type_specification]
#[verifier::external_body]
#[verifier::reject_recursive_types(K)]
#[verifier::reject_recursive_types(V)]
#[verifier::reject_recursive_types(S)]
pub struct ExPlatformHashMap<K, V, S>(HashMap<K, V, S>);

/// The hash set of the engine's platform layer.
#[verifier::external_type_specification]
#[verifier::external_body]
#[verifier::reject_recursive_types(T)]
#[verifier::reject_recursive_types(S)]
pub struct ExPlatformHashSet<T, S>(HashSet<T, S>);

/// Table from entity id to the entity's coordinates and block kind.
pub type EntityTable = HashMap<u64, (GridCoords, SokobanBlock)>;

/// Table from coordinates to the ids of the entities there.
pub type CoordinateTable = HashMap<(i32, i32), HashSet<u64>>;

/// What an entity table holds: entity id to its coordinates and block kind.
pub uninterp spec fn entity_table_contents(
    m: EntityTable,
) -> Map<u64, (GridCoords, SokobanBlock)>;

/// What a coordinate table holds: coordinates to the set of entity ids there.
pub uninterp spec fn coordinate_table_contents(
    m: CoordinateTable,
) -> Map<(i32, i32), Set<u64>>;

/// What a set of entity ids holds.
pub uninterp spec fn entity_set_contents(s: HashSet<u64>) -> Set<u64>;

/// `HashMap::new`: an empty entity table.
#[verifier::external_body]
fn entity_table_new() -> (table: EntityTable)
    ensures
        entity_table_contents(table).dom() == Set::<u64>::empty(),
{
    HashMap::new()
}

/// `HashMap::insert`: afterwards `k` maps to `v`, all other keys unchanged.
#[verifier::external_body]
fn entity_table_insert(
    m: &mut EntityTable,
    k: u64,
    v: (GridCoords, SokobanBlock),
)
    ensures
        entity_table_contents(*final(m)) == entity_table_contents(*old(m)).insert(k, v),
{
    m.insert(k, v);
}

/// `HashMap::get`: the value stored under `k`, if any (copied out).
#[verifier::external_body]
fn entity_table_get(m: &EntityTable, k: u64) -> (r: Option<
    (GridCoords, SokobanBlock),
>)
    ensures
        r == entity_table_contents(*m).get(k),
{
    m.get(&k).copied()
}

/// `HashMap::new`: an empty coordinate table.
#[verifier::external_body]
fn coordinate_table_new() -> (table: CoordinateTable)
    ensures
        forall|k: (i32, i32)| !coordinate_table_contents(table).dom().contains(k),
{
    HashMap::new()
}

/// `HashMap::insert`: afterwards `k` maps to the contents of `s`, all other keys unchanged.
#[verifier::external_body]
fn coordinate_table_insert(m: &mut CoordinateTable, k: (i32, i32), s: HashSet<
    u64,
>)
    ensures
        coordinate_table_contents(*final(m)) == coordinate_table_contents(*old(m)).insert(
            k,
            entity_set_contents(s),
        ),
{
    m.insert(k, s);
}

/// `HashMap::remove`: takes the set stored under `k` out of the table, if any.
#[verifier::external_body]
fn coordinate_table_remove(m: &mut CoordinateTable, k: (i32, i32)) -> (r: Option<
    HashSet<u64>,
>)
    ensures
        coordinate_table_contents(*final(m)) == coordinate_table_contents(*old(m)).remove(k),
        r is Some <==> coordinate_table_contents(*old(m)).dom().contains(k),
        r matches Some(s) ==> entity_set_contents(s) == coordinate_table_contents(*old(m))[k],
{
    m.remove(&k)
}

/// `HashMap::get`: the set stored under `k`, if any.
#[verifier::external_body]
fn coordinate_table_get(m: &CoordinateTable, k: (i32, i32)) -> (r: Option<
    &HashSet<u64>,
>)
    ensures
        r is Some <==> coordinate_table_contents(*m).dom().contains(k),
        r matches Some(s) ==> entity_set_contents(*s) == coordinate_table_contents(*m)[k],
{
    m.get(&k)
}

/// `HashSet::new`: an empty set.
#[verifier::external_body]
fn entity_set_new() -> (s: HashSet<u64>)
    ensures
        entity_set_contents(s) == Set::<u64>::empty(),
{
    HashSet::new()
}

/// `HashSet::insert`: afterwards the set also holds `e`.
#[verifier::external_body]
fn entity_set_insert(s: &mut HashSet<u64>, e: u64)
    ensures
        entity_set_contents(*final(s)) == entity_set_contents(*old(s)).insert(e),
{
    s.insert(e);
}

/// `Extend::extend` of a set by another set: afterwards it holds the union.
#[verifier::external_body]
fn entity_set_extend(s: &mut HashSet<u64>, other: HashSet<u64>)
    ensures
        entity_set_contents(*final(s)) == entity_set_contents(*old(s)).union(
            entity_set_contents(other),
        ),
{
    s.extend(other);
}

/// `HashSet::is_empty`.
#[verifier::external_body]
fn entity_set_is_empty(s: &HashSet<u64>) -> (r: bool)
    ensures
        r <==> entity_set_contents(*s) == Set::<u64>::empty(),
{
    s.is_empty()
}

/// `HashSet::contains`.
#[verifier::external_body]
pub(crate) fn entity_set_contains(s: &HashSet<u64>, e: u64) -> (r: bool)
    ensures
        r == entity_set_contents(*s).contains(e),
{
    s.contains(&e)
}

/// `HashSet::iter`, collected: each member exactly once, in the set's iteration order.
#[verifier::external_body]
fn entity_set_members(s: &HashSet<u64>) -> (v: Vec<u64>)
    ensures
        v@.to_set() == entity_set_contents(*s),
        v@.no_duplicates(),
{
    s.iter().copied().collect()
}

} // verus!

verus! {

/// The entities of `p` at coordinates `(x, y)`.
pub open spec fn entities_at(p: Map<u64, (GridCoords, SokobanBlock)>, x: int, y: int) -> Set<u64> {
    p.dom().filter(|e: u64| p[e].0.x == x && p[e].0.y == y)
}

/// The dynamic entities of `p` at coordinates `(x, y)`.
pub open spec fn dynamic_at(p: Map<u64, (GridCoords, SokobanBlock)>, x: int, y: int) -> Set<u64> {
    entities_at(p, x, y).filter(|e: u64| p[e].1 == SokobanBlock::Dynamic)
}

/// Whether a static entity of `p` stands at coordinates `(x, y)`.
pub open spec fn static_at(p: Map<u64, (GridCoords, SokobanBlock)>, x: int, y: int) -> bool {
    exists|e: u64| #[trigger] entities_at(p, x, y).contains(e) && p[e].1 == SokobanBlock::Static
}

/// Whether a set has a member.
pub open spec fn is_nonempty(s: Set<u64>) -> bool {
    exists|e: u64| s.contains(e)
}

/// How far `(x, y)` lies along direction `d`.
pub open spec fn proj(x: int, y: int, d: Direction) -> int {
    (if dir_x(d) == 1 {
        x
    } else if dir_x(d) == -1 {
        -x
    } else {
        0
    }) + (if dir_y(d) == 1 {
        y
    } else if dir_y(d) == -1 {
        -y
    } else {
        0
    })
}

/// The entities of `p` that lie strictly further along `d` than `(x, y)`.
pub open spec fn ahead(p: Map<u64, (GridCoords, SokobanBlock)>, x: int, y: int, d: Direction) -> Set<
    u64,
> {
    p.dom().filter(|e: u64| proj(p[e].0.x as int, p[e].0.y as int, d) > proj(x, y, d))
}

/// Stepping onto a cell holding an entity leaves fewer entities ahead.
pub proof fn lemma_ahead_shrinks(
    p: Map<u64, (GridCoords, SokobanBlock)>,
    x: int,
    y: int,
    d: Direction,
    e: u64,
)
    requires
        p.dom().finite(),
        d != Direction::Zero,
        entities_at(p, x + dir_x(d), y + dir_y(d)).contains(e),
    ensures
        ahead(p, x + dir_x(d), y + dir_y(d), d).len() < ahead(p, x, y, d).len(),
{
    let a1 = ahead(p, x, y, d);
    let a2 = ahead(p, x + dir_x(d), y + dir_y(d), d);
    p.dom().lemma_len_filter(|f: u64| proj(p[f].0.x as int, p[f].0.y as int, d) > proj(x, y, d));
    assert(a2.subset_of(a1.remove(e)));
    vstd::set_lib::lemma_len_subset(a2, a1.remove(e));
}

/// The outcome of a dynamic block at `(x, y)` pushing into the next cell along `d`, apart from
/// the pusher itself: whether the pusher is free to move, which entities further along move,
/// and which of them push others.
///
/// Every static entity in the next cell blocks; every dynamic entity there is pushed on, and is
/// free to move exactly when the cell after it lets it.
pub open spec fn chain(p: Map<u64, (GridCoords, SokobanBlock)>, x: int, y: int, d: Direction) -> (
    bool,
    Set<u64>,
    Set<u64>,
)
    decreases ahead(p, x, y, d).len(),
    when p.dom().finite() && d != Direction::Zero
{
    let nx = x + dir_x(d);
    let ny = y + dir_y(d);
    let dy = dynamic_at(p, nx, ny);
    if !is_nonempty(dy) {
        (!static_at(p, nx, ny), Set::empty(), Set::empty())
    } else {
        proof {
            lemma_ahead_shrinks(p, x, y, d, choose|e: u64| dy.contains(e));
        }
        let r = chain(p, nx, ny, d);
        (
            !static_at(p, nx, ny) && r.0,
            if r.0 {
                r.1.union(dy)
            } else {
                r.1
            },
            if is_nonempty(r.1) {
                r.2.union(dy)
            } else {
                r.2
            },
        )
    }
}

/// What moving `pusher` in direction `d` does on the placements `p`: whether the pusher is
/// blocked, which entities move one step along `d`, and which entities pushed another.
///
/// A static pusher cannot move or push: it is blocked and nothing moves.
pub open spec fn simulate_spec(p: Map<u64, (GridCoords, SokobanBlock)>, pusher: u64, d: Direction) -> (
    PusherResult,
    Set<u64>,
    Set<u64>,
) {
    if !p.dom().contains(pusher) {
        (PusherResult::NotBlocked, Set::empty(), Set::empty())
    } else if d == Direction::Zero || p[pusher].1 == SokobanBlock::Static {
        (PusherResult::Blocked, Set::empty(), Set::empty())
    } else {
        let c = p[pusher].0;
        let r = chain(p, c.x as int, c.y as int, d);
        let free = r.0;
        (
            if free {
                PusherResult::NotBlocked
            } else {
                PusherResult::Blocked
            },
            if free {
                r.1.insert(pusher)
            } else {
                r.1
            },
            if is_nonempty(r.1) {
                r.2.insert(pusher)
            } else {
                r.2
            },
        )
    }
}

/// A move in direction `Zero` terminates only when the pusher is absent or static (a dynamic
/// pusher keeps pushing itself).
pub open spec fn move_terminates(p: Map<u64, (GridCoords, SokobanBlock)>, pusher: u64, d: Direction) -> bool {
    d != Direction::Zero || !p.dom().contains(pusher) || p[pusher].1 == SokobanBlock::Static
}

/// Every entity lies strictly inside the `i32` range, so one step in any direction fits.
pub open spec fn placements_bounded(p: Map<u64, (GridCoords, SokobanBlock)>) -> bool {
    forall|e: u64|
        #[trigger] p.dom().contains(e) ==> i32::MIN < p[e].0.x < i32::MAX && i32::MIN < p[e].0.y
            < i32::MAX
}

/// Entities indexed both by id and by grid coordinates.
pub struct EntityCollisionGeographicMap {
    coordinate_table: CoordinateTable,
    entity_table: EntityTable,
}

impl EntityCollisionGeographicMap {
    /// The coordinates and block kind of every entity in the map.
    pub closed spec fn placements(&self) -> Map<u64, (GridCoords, SokobanBlock)> {
        entity_table_contents(self.entity_table)
    }

    /// The coordinate index agrees with the entity index, and the map is finite.
    pub closed spec fn wf(&self) -> bool {
        let p = entity_table_contents(self.entity_table);
        let ct = coordinate_table_contents(self.coordinate_table);
        &&& p.dom().finite()
        &&& forall|k: (i32, i32)| #[trigger]
            ct.dom().contains(k) ==> ct[k] == entities_at(p, k.0 as int, k.1 as int)
        &&& forall|e: u64| #[trigger]
            p.dom().contains(e) ==> ct.dom().contains((p[e].0.x, p[e].0.y))
    }

    /// Builds the map from `(entity, coordinates, block)` entries with distinct entities.
    pub fn from_entries(entries: &Vec<(u64, GridCoords, SokobanBlock)>) -> (m: Self)
        requires
            forall|i: int, j: int|
                0 <= i < j < entries.len() ==> #[trigger] entries[i].0 != #[trigger] entries[j].0,
        ensures
            m.wf(),
            forall|e: u64|
                m.placements().dom().contains(e) <==> exists|i: int|
                    0 <= i < entries.len() && #[trigger] entries[i].0 == e,
            forall|i: int|
                0 <= i < entries.len() ==> m.placements()[#[trigger] entries[i].0] == (
                    entries[i].1,
                    entries[i].2,
                ),
    {
        let mut coordinate_table = coordinate_table_new();
        let mut entity_table = entity_table_new();
        let mut i: usize = 0;
        while i < entries.len()
            invariant
                0 <= i <= entries.len(),
                forall|a: int, b: int|
                    0 <= a < b < entries.len() ==> #[trigger] entries[a].0 != #[trigger] entries[b].0,
                (EntityCollisionGeographicMap { coordinate_table, entity_table }).wf(),
                forall|e: u64|
                    entity_table_contents(entity_table).dom().contains(e) <==> exists|j: int|
                        0 <= j < i && #[trigger] entries[j].0 == e,
                forall|j: int|
                    0 <= j < i ==> entity_table_contents(entity_table)[#[trigger] entries[j].0] == (
                        entries[j].1,
                        entries[j].2,
                    ),
            decreases entries.len() - i,
        {
            let (entity, coordinate, block) = entries[i];
            let ghost p0 = entity_table_contents(entity_table);
            let ghost ct0 = coordinate_table_contents(coordinate_table);
            assert(!p0.dom().contains(entity)) by {
                if p0.dom().contains(entity) {
                    let j = choose|j: int| 0 <= j < i && #[trigger] entries[j].0 == entity;
                    assert(entries[j].0 != entries[i as int].0);
                }
            }
            let key = (coordinate.x, coordinate.y);
            let ghost m0 = EntityCollisionGeographicMap { coordinate_table, entity_table };
            assert(m0.wf());
            assert(coordinate_table_contents(m0.coordinate_table) == ct0);
            assert(forall|k: (i32, i32)| #[trigger]
                ct0.dom().contains(k) ==> ct0[k] == entities_at(p0, k.0 as int, k.1 as int));
            assert(forall|f: u64| #[trigger]
                p0.dom().contains(f) ==> ct0.dom().contains((p0[f].0.x, p0[f].0.y)));
            let mut at_key = match coordinate_table_remove(&mut coordinate_table, key) {
                Some(s) => s,
                None => entity_set_new(),
            };
            let ghost before = if ct0.dom().contains(key) {
                ct0[key]
            } else {
                Set::<u64>::empty()
            };
            let ghost ct_removed = coordinate_table_contents(coordinate_table);
            assert(entity_set_contents(at_key) == before);
            entity_set_insert(&mut at_key, entity);
            let ghost added = entity_set_contents(at_key);
            assert(added == before.insert(entity));
            coordinate_table_insert(&mut coordinate_table, key, at_key);
            assert(coordinate_table_contents(coordinate_table) == ct_removed.insert(key, added));
            assert(ct_removed == ct0.remove(key));
            entity_table_insert(&mut entity_table, entity, (coordinate, block));
            proof {
                let p1 = entity_table_contents(entity_table);
                let ct1 = coordinate_table_contents(coordinate_table);
                assert(p1 == p0.insert(entity, (coordinate, block)));
                assert(ct1[key] =~= entities_at(p1, key.0 as int, key.1 as int)) by {
                    if ct0.dom().contains(key) {
                        assert(entities_at(p1, key.0 as int, key.1 as int) =~= entities_at(
                            p0,
                            key.0 as int,
                            key.1 as int,
                        ).insert(entity));
                    } else {
                        assert forall|f: u64| #[trigger] p0.dom().contains(f) implies !(p0[f].0.x
                            == key.0 && p0[f].0.y == key.1) by {
                            assert(ct0.dom().contains((p0[f].0.x, p0[f].0.y)));
                        }
                        assert(entities_at(p1, key.0 as int, key.1 as int) =~= Set::empty().insert(
                            entity,
                        ));
                    }
                }
                assert forall|k: (i32, i32)| #[trigger] ct1.dom().contains(k) implies ct1[k]
                    == entities_at(p1, k.0 as int, k.1 as int) by {
                    if k != key {
                        assert(ct0.dom().contains(k) && ct1[k] == ct0[k]);
                        assert(entities_at(p1, k.0 as int, k.1 as int) =~= entities_at(
                            p0,
                            k.0 as int,
                            k.1 as int,
                        ));
                    }
                }
                assert forall|e: u64| #[trigger] entity_table_contents(entity_table).dom().contains(
                    e,
                ) implies (exists|j: int| 0 <= j < i + 1 && #[trigger] entries[j].0 == e) by {
                    if e == entity {
                        assert(entries[i as int].0 == e);
                    } else {
                        let j = choose|j: int| 0 <= j < i && #[trigger] entries[j].0 == e;
                        assert(0 <= j < i + 1 && entries[j].0 == e);
                    }
                }
                assert forall|e: u64|
                    (exists|j: int| 0 <= j < i + 1 && #[trigger] entries[j].0 == e) implies #[trigger] entity_table_contents(
                    entity_table,
                ).dom().contains(e) by {
                    let j = choose|j: int| 0 <= j < i + 1 && #[trigger] entries[j].0 == e;
                    if j < i {
                        assert(p0.dom().contains(e));
                    }
                }
                assert forall|j: int| 0 <= j < i + 1 implies entity_table_contents(entity_table)[#[trigger] entries[j].0] == (
                    entries[j].1,
                    entries[j].2,
                ) by {
                    if j < i {
                        assert(entries[j].0 != entries[i as int].0);
                    }
                }
            }
            i += 1;
        }
        EntityCollisionGeographicMap { coordinate_table, entity_table }
    }
}

impl EntityCollisionGeographicMap {
    /// The coordinates and block kind of `entity`, if it is in the map.
    pub fn get_coordinate_and_block(&self, entity: u64) -> (r: Option<(GridCoords, SokobanBlock)>)
        ensures
            r == self.placements().get(entity),
    {
        entity_table_get(&self.entity_table, entity)
    }

    /// The coordinates of `entity`, if it is in the map.
    pub fn get_coordinate(&self, entity: u64) -> (r: Option<GridCoords>)
        ensures
            r == (match self.placements().get(entity) {
                Some(v) => Some(v.0),
                None => None::<GridCoords>,
            }),
    {
        match self.get_coordinate_and_block(entity) {
            Some((coordinate, _)) => Some(coordinate),
            None => None,
        }
    }

    /// The block kind of `entity`, if it is in the map.
    pub fn get_block(&self, entity: u64) -> (r: Option<SokobanBlock>)
        ensures
            r == (match self.placements().get(entity) {
                Some(v) => Some(v.1),
                None => None::<SokobanBlock>,
            }),
    {
        match self.get_coordinate_and_block(entity) {
            Some((_, block)) => Some(block),
            None => None,
        }
    }

    /// The entities at `coordinate`, or `None` when there are none.
    pub fn get_entities_at_coords(&self, coordinate: GridCoords) -> (r: Option<&HashSet<u64>>)
        requires
            self.wf(),
        ensures
            r is None ==> !is_nonempty(
                entities_at(self.placements(), coordinate.x as int, coordinate.y as int),
            ),
            r matches Some(s) ==> entity_set_contents(*s) == entities_at(
                self.placements(),
                coordinate.x as int,
                coordinate.y as int,
            ),
    {
        let r = coordinate_table_get(&self.coordinate_table, (coordinate.x, coordinate.y));
        proof {
            let p = self.placements();
            let ct = coordinate_table_contents(self.coordinate_table);
            let k = (coordinate.x, coordinate.y);
            let at = entities_at(p, coordinate.x as int, coordinate.y as int);
            if ct.dom().contains(k) {
                assert(ct[k] == at);
            } else {
                assert forall|f: u64| !at.contains(f) by {
                    if at.contains(f) {
                        assert(p.dom().contains(f));
                        assert(ct.dom().contains((p[f].0.x, p[f].0.y)));
                    }
                }
            }
        }
        r
    }
}

/// Termination measure of a simulated move: the entities ahead of the pusher.
pub open spec fn simulate_measure(p: Map<u64, (GridCoords, SokobanBlock)>, pusher: u64, d: Direction) -> nat {
    if p.dom().contains(pusher) {
        ahead(p, p[pusher].0.x as int, p[pusher].0.y as int, d).len()
    } else {
        0
    }
}

/// The dynamic entities among the first `i` entries of `v`.
pub open spec fn dynamic_prefix(p: Map<u64, (GridCoords, SokobanBlock)>, v: Seq<u64>, i: int) -> Set<
    u64,
> {
    Set::new(|e: u64| exists|j: int| 0 <= j < i && v[j] == e && p[e].1 == SokobanBlock::Dynamic)
}

impl EntityCollisionGeographicMap {
    /// Simulates moving `pusher_entity` one step in `direction` without changing the map.
    ///
    /// Returns whether the pusher is blocked, the entities that would move, and the entities that
    /// would push another (so fire a push event).
    pub fn simulate_move_entity(&self, pusher_entity: u64, direction: Direction) -> (r: (
        PusherResult,
        HashSet<u64>,
        HashSet<u64>,
    ))
        requires
            self.wf(),
            placements_bounded(self.placements()),
            move_terminates(self.placements(), pusher_entity, direction),
        ensures
            r.0 == simulate_spec(self.placements(), pusher_entity, direction).0,
            entity_set_contents(r.1) == simulate_spec(self.placements(), pusher_entity, direction).1,
            entity_set_contents(r.2) == simulate_spec(self.placements(), pusher_entity, direction).2,
        decreases simulate_measure(self.placements(), pusher_entity, direction),
    {
        let ghost p = self.placements();
        let (pusher_coordinate, pusher_block) = match self.get_coordinate_and_block(pusher_entity) {
            Some(v) => v,
            None => {
                return (PusherResult::NotBlocked, entity_set_new(), entity_set_new());
            },
        };
        assert(p.dom().contains(pusher_entity));
        if pusher_block == SokobanBlock::Static {
            return (PusherResult::Blocked, entity_set_new(), entity_set_new());
        }
        assert(direction != Direction::Zero);
        let destination = pusher_coordinate.to_ivec2().add(direction.to_ivec2());
        let dest = GridCoords::from_ivec2(destination);
        let ghost nx = dest.x as int;
        let ghost ny = dest.y as int;
        let ghost r2 = chain(p, nx, ny, direction);
        let ghost at = entities_at(p, nx, ny);
        let mut pusher_result = PusherResult::NotBlocked;
        let mut moved = entity_set_new();
        let mut pushers = entity_set_new();
        let mut seen: usize = 0;
        let ghost mut v: Seq<u64> = Seq::empty();
        match self.get_entities_at_coords(dest) {
            Some(set) => {
                let pushees = entity_set_members(set);
                proof {
                    v = pushees@;
                }
                let mut i: usize = 0;
                while i < pushees.len()
                    invariant
                        self.wf(),
                        p == self.placements(),
                        placements_bounded(p),
                        move_terminates(p, pusher_entity, direction),
                        p.dom().contains(pusher_entity),
                        p[pusher_entity] == (pusher_coordinate, pusher_block),
                        pusher_block == SokobanBlock::Dynamic,
                        direction != Direction::Zero,
                        nx == pusher_coordinate.x + dir_x(direction),
                        ny == pusher_coordinate.y + dir_y(direction),
                        r2 == chain(p, nx, ny, direction),
                        at == entities_at(p, nx, ny),
                        v == pushees@,
                        v.to_set() == at,
                        0 <= i <= pushees.len(),
                        (pusher_result == PusherResult::NotBlocked) <==> (forall|j: int|
                            0 <= j < i ==> p[#[trigger] v[j]].1 == SokobanBlock::Dynamic
                                && pusher_block == SokobanBlock::Dynamic && r2.0),
                        entity_set_contents(moved) == (if is_nonempty(dynamic_prefix(p, v, i as int)) {
                            if r2.0 {
                                r2.1.union(dynamic_prefix(p, v, i as int))
                            } else {
                                r2.1
                            }
                        } else {
                            Set::empty()
                        }),
                        entity_set_contents(pushers) == (if is_nonempty(dynamic_prefix(p, v, i as int)) {
                            if is_nonempty(r2.1) {
                                r2.2.union(dynamic_prefix(p, v, i as int))
                            } else {
                                r2.2
                            }
                        } else {
                            Set::empty()
                        }),
                    decreases pushees.len() - i,
                {
                    let pushee = pushees[i];
                    assert(v.to_set().contains(pushee));
                    assert(p.dom().contains(pushee));
                    let pushee_block = match self.get_block(pushee) {
                        Some(b) => b,
                        None => SokobanBlock::Static,
                    };
                    let (our_pusher_result, pushee_result) = pusher_block.push(&pushee_block);
                    let (their_pusher_result, pushee_moved, pushee_pushers) = match pushee_result {
                        PusheeResult::Pushed => {
                            proof {
                                assert(pushee_block == SokobanBlock::Dynamic);
                                assert(dynamic_at(p, nx, ny).contains(pushee));
                                if direction == Direction::Zero {
                                    assert(is_nonempty(
                                        dynamic_at(
                                            p,
                                            p[pusher_entity].0.x as int,
                                            p[pusher_entity].0.y as int,
                                        ),
                                    ));
                                }
                                assert(direction != Direction::Zero);
                                lemma_ahead_shrinks(
                                    p,
                                    pusher_coordinate.x as int,
                                    pusher_coordinate.y as int,
                                    direction,
                                    pushee,
                                );
                            }
                            self.simulate_move_entity(pushee, direction)
                        },
                        PusheeResult::NotPushed => (
                            PusherResult::NotBlocked,
                            entity_set_new(),
                            entity_set_new(),
                        ),
                    };
                    let combined = our_pusher_result.reduce(&their_pusher_result);
                    let ghost old_moved = entity_set_contents(moved);
                    let ghost old_pushers = entity_set_contents(pushers);
                    let ghost q_moved = entity_set_contents(pushee_moved);
                    let ghost q_pushers = entity_set_contents(pushee_pushers);
                    pusher_result = pusher_result.reduce(&combined);
                    entity_set_extend(&mut moved, pushee_moved);
                    entity_set_extend(&mut pushers, pushee_pushers);
                    proof {
                        let d0 = dynamic_prefix(p, v, i as int);
                        let d1 = dynamic_prefix(p, v, i + 1);
                        if pushee_block == SokobanBlock::Dynamic {
                            assert(p[pushee].1 == SokobanBlock::Dynamic);
                            assert(p[pushee].0.x == nx && p[pushee].0.y == ny);
                            assert(d1 =~= d0.insert(pushee));
                            assert(d1.contains(pushee));
                            assert(q_moved == (if r2.0 { r2.1.insert(pushee) } else { r2.1 }));
                            assert(q_pushers == (if is_nonempty(r2.1) { r2.2.insert(pushee) } else { r2.2 }));
                            if is_nonempty(d0) {
                                assert(entity_set_contents(moved) =~= (if r2.0 {
                                    r2.1.union(d1)
                                } else {
                                    r2.1
                                }));
                                assert(entity_set_contents(pushers) =~= (if is_nonempty(r2.1) {
                                    r2.2.union(d1)
                                } else {
                                    r2.2
                                }));
                            } else {
                                assert(d0 =~= Set::<u64>::empty());
                                assert(entity_set_contents(moved) =~= (if r2.0 {
                                    r2.1.union(d1)
                                } else {
                                    r2.1
                                }));
                                assert(entity_set_contents(pushers) =~= (if is_nonempty(r2.1) {
                                    r2.2.union(d1)
                                } else {
                                    r2.2
                                }));
                            }
                        } else {
                            assert(d1 =~= d0);
                            assert(q_moved =~= Set::<u64>::empty());
                            assert(q_pushers =~= Set::<u64>::empty());
                            assert(entity_set_contents(moved) =~= old_moved);
                            assert(entity_set_contents(pushers) =~= old_pushers);
                        }
                    }
                    i += 1;
                }
                seen = pushees.len();
            },
            None => {},
        }
        proof {
            assert(v.len() == seen);
            assert(v.to_set() =~= at) by {
                if seen == 0 {
                    assert(!is_nonempty(at));
                }
            }
            let dk = dynamic_at(p, nx, ny);
            assert(dynamic_prefix(p, v, v.len() as int) =~= dk) by {
                assert forall|e: u64| #[trigger] dk.contains(e) implies dynamic_prefix(
                    p,
                    v,
                    v.len() as int,
                ).contains(e) by {
                    assert(v.to_set().contains(e));
                    let j = choose|j: int| 0 <= j < v.len() && v[j] == e;
                }
                assert forall|e: u64| #[trigger] dynamic_prefix(p, v, v.len() as int).contains(
                    e,
                ) implies dk.contains(e) by {
                    let j = choose|j: int| 0 <= j < v.len() && v[j] == e && p[e].1 == SokobanBlock::Dynamic;
                    assert(v.to_set().contains(v[j]));
                }
            }
        }
        proof {
            let px = pusher_coordinate.x as int;
            let py = pusher_coordinate.y as int;
            let dk = dynamic_at(p, nx, ny);
            let all_dyn = forall|j: int|
                0 <= j < v.len() ==> p[#[trigger] v[j]].1 == SokobanBlock::Dynamic;
            if direction == Direction::Zero {
                assert(at.contains(pusher_entity));
                assert(v.to_set().contains(pusher_entity));
                let j = choose|j: int| 0 <= j < v.len() && v[j] == pusher_entity;
                assert(pusher_result == PusherResult::Blocked);
                assert(!dk.contains(pusher_entity));
                assert(!is_nonempty(dk));
                assert(entity_set_contents(moved) =~= Set::<u64>::empty());
                assert(entity_set_contents(pushers) =~= Set::<u64>::empty());
            } else {
                let rc = chain(p, px, py, direction);
                if is_nonempty(dk) {
                    assert(rc == (
                        !static_at(p, nx, ny) && r2.0,
                        if r2.0 {
                            r2.1.union(dk)
                        } else {
                            r2.1
                        },
                        if is_nonempty(r2.1) {
                            r2.2.union(dk)
                        } else {
                            r2.2
                        },
                    ));
                } else {
                    assert(rc == (!static_at(p, nx, ny), Set::<u64>::empty(), Set::<u64>::empty()));
                }
                assert(static_at(p, nx, ny) <==> !all_dyn) by {
                    if static_at(p, nx, ny) {
                        let e = choose|e: u64| #[trigger] at.contains(e) && p[e].1 == SokobanBlock::Static;
                        let j = choose|j: int| 0 <= j < v.len() && v[j] == e;
                    }
                    if !all_dyn {
                        let j = choose|j: int| 0 <= j < v.len() && p[#[trigger] v[j]].1 != SokobanBlock::Dynamic;
                        assert(v.to_set().contains(v[j]));
                        assert(at.contains(v[j]));
                    }
                }
                if v.len() > 0 && all_dyn {
                    assert(v.to_set().contains(v[0]));
                    assert(dk.contains(v[0]));
                }
                if is_nonempty(dk) {
                    let e = choose|e: u64| dk.contains(e);
                    assert(v.to_set().contains(e));
                    let j = choose|j: int| 0 <= j < v.len() && v[j] == e;
                }
                if v.len() > 0 {
                    assert(v.to_set().contains(v[0]));
                    assert(is_nonempty(at));
                } else {
                    assert forall|e: u64| !at.contains(e) by {
                        if at.contains(e) {
                            assert(v.to_set().contains(e));
                        }
                    }
                }
            }
        }
        let no_pushes = entity_set_is_empty(&moved);
        proof {
            if !is_nonempty(entity_set_contents(moved)) {
                assert(entity_set_contents(moved) =~= Set::<u64>::empty());
            }
        }
        if !no_pushes {
            entity_set_insert(&mut pushers, pusher_entity);
        }
        if pusher_result == PusherResult::NotBlocked {
            entity_set_insert(&mut moved, pusher_entity);
        }
        (pusher_result, moved, pushers)
    }
}

/// Every entity a chain of pushes moves is dynamic and lies further along the push than where
/// the chain starts.
proof fn lemma_chain_moves_dynamic_ahead(
    p: Map<u64, (GridCoords, SokobanBlock)>,
    x: int,
    y: int,
    d: Direction,
)
    requires
        p.dom().finite(),
        d != Direction::Zero,
    ensures
        forall|e: u64|
            #[trigger] chain(p, x, y, d).1.contains(e) ==> p.dom().contains(e) && p[e].1
                == SokobanBlock::Dynamic && ahead(p, x, y, d).contains(e),
    decreases ahead(p, x, y, d).len(),
{
    let nx = x + dir_x(d);
    let ny = y + dir_y(d);
    let dy = dynamic_at(p, nx, ny);
    if is_nonempty(dy) {
        lemma_ahead_shrinks(p, x, y, d, choose|e: u64| dy.contains(e));
        lemma_chain_moves_dynamic_ahead(p, nx, ny, d);
        assert(proj(nx, ny, d) > proj(x, y, d));
        let r = chain(p, nx, ny, d);
        assert forall|e: u64| #[trigger] chain(p, x, y, d).1.contains(e) implies p.dom().contains(e)
            && p[e].1 == SokobanBlock::Dynamic && ahead(p, x, y, d).contains(e) by {
            if r.1.contains(e) {
                assert(ahead(p, nx, ny, d).contains(e));
            } else {
                assert(dy.contains(e));
                assert(entities_at(p, nx, ny).contains(e));
            }
        }
    }
}

/// Static entities never move: every entity a move moves, the mover included, is dynamic.
pub proof fn lemma_static_entities_never_pushed(
    p: Map<u64, (GridCoords, SokobanBlock)>,
    pusher: u64,
    d: Direction,
    e: u64,
)
    requires
        p.dom().finite(),
        simulate_spec(p, pusher, d).1.contains(e),
    ensures
        p.dom().contains(e),
        p[e].1 == SokobanBlock::Dynamic,
{
    let c = p[pusher].0;
    lemma_chain_moves_dynamic_ahead(p, c.x as int, c.y as int, d);
}

/// A blocked mover does not move.
pub proof fn lemma_blocked_mover_stays(p: Map<u64, (GridCoords, SokobanBlock)>, pusher: u64, d: Direction)
    requires
        p.dom().finite(),
        simulate_spec(p, pusher, d).0 == PusherResult::Blocked,
    ensures
        !simulate_spec(p, pusher, d).1.contains(pusher),
{
    if p.dom().contains(pusher) && d != Direction::Zero {
        let c = p[pusher].0;
        lemma_chain_moves_dynamic_ahead(p, c.x as int, c.y as int, d);
    }
}

/// A static block cannot move or push: moving it is blocked, nothing moves, and no push event
/// fires.
pub proof fn lemma_static_pusher_moves_nothing(
    p: Map<u64, (GridCoords, SokobanBlock)>,
    pusher: u64,
    d: Direction,
)
    requires
        p.dom().contains(pusher),
        p[pusher].1 == SokobanBlock::Static,
    ensures
        simulate_spec(p, pusher, d).0 == PusherResult::Blocked,
        simulate_spec(p, pusher, d).1 == Set::<u64>::empty(),
        simulate_spec(p, pusher, d).2 == Set::<u64>::empty(),
{
}

/// A mover that is not blocked moves.
pub proof fn lemma_free_mover_moves(p: Map<u64, (GridCoords, SokobanBlock)>, pusher: u64, d: Direction)
    requires
        p.dom().contains(pusher),
        simulate_spec(p, pusher, d).0 == PusherResult::NotBlocked,
    ensures
        simulate_spec(p, pusher, d).1.contains(pusher),
{
}

/// Column of the cell `i` steps from column `x` along `d`.
pub open spec fn along_x(x: int, d: Direction, i: int) -> int {
    x + i * dir_x(d)
}

/// Row of the cell `i` steps from row `y` along `d`.
pub open spec fn along_y(y: int, d: Direction, i: int) -> int {
    y + i * dir_y(d)
}

/// One step further from the next cell is one step more from the cell before it.
proof fn lemma_along_shift(x: int, y: int, d: Direction, i: int)
    ensures
        along_x(x + dir_x(d), d, i) == along_x(x, d, i + 1),
        along_y(y + dir_y(d), d, i) == along_y(y, d, i + 1),
        along_x(x, d, 1) == x + dir_x(d),
        along_y(y, d, 1) == y + dir_y(d),
{
    let dx = dir_x(d);
    let dy = dir_y(d);
    assert((i + 1) * dx == i * dx + dx) by (nonlinear_arith);
    assert((i + 1) * dy == i * dy + dy) by (nonlinear_arith);
}

/// The entities of `p` standing `1..=k` cells from `(x, y)` along `d`.
pub open spec fn entities_in_run(
    p: Map<u64, (GridCoords, SokobanBlock)>,
    x: int,
    y: int,
    d: Direction,
    k: int,
) -> Set<u64> {
    p.dom().filter(
        |e: u64|
            exists|i: int|
                1 <= i <= k && p[e].0.x == #[trigger] along_x(x, d, i) && p[e].0.y == along_y(
                    y,
                    d,
                    i,
                ),
    )
}

/// Whether cells `1..=k` from `(x, y)` along `d` each hold at least one entity, all of them
/// dynamic, and cell `k + 1` holds none.
pub open spec fn dynamic_run_then_gap(
    p: Map<u64, (GridCoords, SokobanBlock)>,
    x: int,
    y: int,
    d: Direction,
    k: int,
) -> bool {
    &&& forall|i: int|
        1 <= i <= k ==> is_nonempty(
            #[trigger] entities_at(p, along_x(x, d, i), along_y(y, d, i)),
        )
    &&& forall|e: u64|
        #[trigger] entities_in_run(p, x, y, d, k).contains(e) ==> p[e].1 == SokobanBlock::Dynamic
    &&& !is_nonempty(entities_at(p, along_x(x, d, k + 1), along_y(y, d, k + 1)))
}

/// A dynamic block pushing a run of dynamic blocks goes through when an empty cell follows the
/// run, however long it is: the pusher is not blocked and it moves together with every entity of
/// the run, and nothing else moves.
pub proof fn lemma_dynamic_run_moves(
    p: Map<u64, (GridCoords, SokobanBlock)>,
    pusher: u64,
    d: Direction,
    k: int,
)
    requires
        p.dom().finite(),
        d != Direction::Zero,
        p.dom().contains(pusher),
        p[pusher].1 == SokobanBlock::Dynamic,
        k >= 0,
        dynamic_run_then_gap(p, p[pusher].0.x as int, p[pusher].0.y as int, d, k),
    ensures
        simulate_spec(p, pusher, d).0 == PusherResult::NotBlocked,
        simulate_spec(p, pusher, d).1 == entities_in_run(
            p,
            p[pusher].0.x as int,
            p[pusher].0.y as int,
            d,
            k,
        ).insert(pusher),
{
    lemma_chain_run(p, p[pusher].0.x as int, p[pusher].0.y as int, d, k);
}

/// The chain of pushes from `(x, y)` through a run of dynamic entities followed by an empty cell
/// is free and moves exactly the run.
proof fn lemma_chain_run(
    p: Map<u64, (GridCoords, SokobanBlock)>,
    x: int,
    y: int,
    d: Direction,
    k: int,
)
    requires
        p.dom().finite(),
        d != Direction::Zero,
        k >= 0,
        dynamic_run_then_gap(p, x, y, d, k),
    ensures
        chain(p, x, y, d).0,
        chain(p, x, y, d).1 == entities_in_run(p, x, y, d, k),
    decreases k,
{
    let nx = x + dir_x(d);
    let ny = y + dir_y(d);
    lemma_along_shift(x, y, d, 0);
    let first = entities_at(p, nx, ny);
    if k == 0 {
        assert(!is_nonempty(first));
        assert(!is_nonempty(dynamic_at(p, nx, ny))) by {
            if is_nonempty(dynamic_at(p, nx, ny)) {
                let e = choose|e: u64| dynamic_at(p, nx, ny).contains(e);
                assert(first.contains(e));
            }
        }
        assert(!static_at(p, nx, ny)) by {
            if static_at(p, nx, ny) {
                let e = choose|e: u64| #[trigger] entities_at(p, nx, ny).contains(e) && p[e].1
                    == SokobanBlock::Static;
                assert(first.contains(e));
            }
        }
        assert(entities_in_run(p, x, y, d, 0) =~= Set::<u64>::empty());
    } else {
        assert(is_nonempty(entities_at(p, along_x(x, d, 1), along_y(y, d, 1))));
        assert forall|e: u64| first.contains(e) implies entities_in_run(p, x, y, d, k).contains(e)
            by {
            assert(p[e].0.x == along_x(x, d, 1) && p[e].0.y == along_y(y, d, 1));
        }
        assert(dynamic_at(p, nx, ny) =~= first);
        assert(is_nonempty(dynamic_at(p, nx, ny))) by {
            let e = choose|e: u64| first.contains(e);
            assert(dynamic_at(p, nx, ny).contains(e));
        }
        assert(!static_at(p, nx, ny)) by {
            if static_at(p, nx, ny) {
                let e = choose|e: u64| #[trigger] entities_at(p, nx, ny).contains(e) && p[e].1
                    == SokobanBlock::Static;
                assert(entities_in_run(p, x, y, d, k).contains(e));
            }
        }
        assert(dynamic_run_then_gap(p, nx, ny, d, k - 1)) by {
            assert forall|i: int| 1 <= i <= k - 1 implies is_nonempty(
                #[trigger] entities_at(p, along_x(nx, d, i), along_y(ny, d, i)),
            ) by {
                lemma_along_shift(x, y, d, i);
                assert(is_nonempty(entities_at(p, along_x(x, d, i + 1), along_y(y, d, i + 1))));
            }
            assert forall|e: u64| #[trigger]
                entities_in_run(p, nx, ny, d, k - 1).contains(e) implies p[e].1
                == SokobanBlock::Dynamic by {
                let i = choose|i: int|
                    1 <= i <= k - 1 && p[e].0.x == #[trigger] along_x(nx, d, i) && p[e].0.y
                        == along_y(ny, d, i);
                lemma_along_shift(x, y, d, i);
                assert(p[e].0.x == along_x(x, d, i + 1) && p[e].0.y == along_y(y, d, i + 1));
                assert(entities_in_run(p, x, y, d, k).contains(e));
            }
            lemma_along_shift(x, y, d, k);
        }
        lemma_chain_run(p, nx, ny, d, k - 1);
        let r = chain(p, nx, ny, d);
        assert(r.1.union(first) =~= entities_in_run(p, x, y, d, k)) by {
            assert forall|e: u64| entities_in_run(p, x, y, d, k).contains(e) implies r.1.union(
                first,
            ).contains(e) by {
                let i = choose|i: int|
                    1 <= i <= k && p[e].0.x == #[trigger] along_x(x, d, i) && p[e].0.y == along_y(
                        y,
                        d,
                        i,
                    );
                if i == 1 {
                    assert(first.contains(e));
                } else {
                    lemma_along_shift(x, y, d, i - 1);
                    assert(p[e].0.x == along_x(nx, d, i - 1) && p[e].0.y == along_y(ny, d, i - 1));
                    assert(entities_in_run(p, nx, ny, d, k - 1).contains(e));
                }
            }
            assert forall|e: u64| r.1.union(first).contains(e) implies entities_in_run(
                p,
                x,
                y,
                d,
                k,
            ).contains(e) by {
                if !first.contains(e) {
                    let i = choose|i: int|
                        1 <= i <= k - 1 && p[e].0.x == #[trigger] along_x(nx, d, i) && p[e].0.y
                            == along_y(ny, d, i);
                    lemma_along_shift(x, y, d, i);
                    assert(p[e].0.x == along_x(x, d, i + 1) && p[e].0.y == along_y(y, d, i + 1));
                }
            }
        }
    }
}

/// A sokoban entity as the engine holds it: id, grid coordinates, block kind, and whether it
/// reports the pushes it performs.
#[derive(Copy, Clone, Debug, PartialEq, Eq, Structural)]
pub struct SokobanEntity {
    pub entity: u64,
    pub grid_coords: GridCoords,
    pub block: SokobanBlock,
    pub push_tracker: bool,
}

/// Entity ids are distinct.
pub open spec fn distinct_entities(w: Seq<SokobanEntity>) -> bool {
    forall|i: int, j: int|
        0 <= i < w.len() && 0 <= j < w.len() && i != j ==> #[trigger] w[i].entity != #[trigger] w[j].entity
}

/// The placements of the entities of `w`.
pub open spec fn placements_of(w: Seq<SokobanEntity>) -> Map<u64, (GridCoords, SokobanBlock)> {
    Map::new(
        |e: u64| exists|i: int| 0 <= i < w.len() && w[i].entity == e,
        |e: u64|
            {
                let i = choose|i: int| 0 <= i < w.len() && w[i].entity == e;
                (w[i].grid_coords, w[i].block)
            },
    )
}

/// `c` moved one step along `d`.
pub open spec fn moved_coords(c: GridCoords, d: Direction) -> GridCoords {
    GridCoords { x: (c.x + dir_x(d)) as i32, y: (c.y + dir_y(d)) as i32 }
}

/// The ids of the entities of `w` that belong to `s`, in the order of `w`.
pub open spec fn ids_in(w: Seq<SokobanEntity>, s: Set<u64>) -> Seq<u64>
    decreases w.len(),
{
    if w.len() == 0 {
        Seq::empty()
    } else {
        ids_in(w.drop_last(), s) + if s.contains(w.last().entity) {
            seq![w.last().entity]
        } else {
            Seq::empty()
        }
    }
}

/// The entities that `pusher` pushes when it moves along `d`: those that move with it.
pub open spec fn pushed_by(p: Map<u64, (GridCoords, SokobanBlock)>, pusher: u64, d: Direction) -> Set<
    u64,
> {
    simulate_spec(p, pusher, d).1.remove(pusher)
}

/// The push events, as plain values, reported by the entities of `w` that pushed (members of
/// `pushers`) and that track their pushes, in the order of `w`; each lists the entities of `all`
/// that it pushes, in the order of `all`.
pub open spec fn tracked_push_events(
    w: Seq<SokobanEntity>,
    all: Seq<SokobanEntity>,
    pushers: Set<u64>,
    d: Direction,
) -> Seq<(u64, Direction, Seq<u64>)>
    decreases w.len(),
{
    if w.len() == 0 {
        Seq::empty()
    } else {
        let last = w.last();
        tracked_push_events(w.drop_last(), all, pushers, d) + if last.push_tracker && pushers.contains(
            last.entity,
        ) {
            seq![(last.entity, d, ids_in(all, pushed_by(placements_of(all), last.entity, d)))]
        } else {
            Seq::empty()
        }
    }
}

/// The entities after performing `cmd`, and the push events it fires.
pub open spec fn command_outcome(w: Seq<SokobanEntity>, cmd: SokobanCommand) -> (
    Seq<SokobanEntity>,
    Seq<(u64, Direction, Seq<u64>)>,
) {
    let SokobanCommand::Move { entity, direction } = cmd;
    let r = simulate_spec(placements_of(w), entity, direction);
    (
        Seq::new(
            w.len(),
            |i: int|
                if r.1.contains(w[i].entity) {
                    SokobanEntity { grid_coords: moved_coords(w[i].grid_coords, direction), ..w[i] }
                } else {
                    w[i]
                },
        ),
        tracked_push_events(w, w, r.2, direction),
    )
}

/// The entities after performing `cmds` in order.
pub open spec fn world_after(w: Seq<SokobanEntity>, cmds: Seq<SokobanCommand>) -> Seq<SokobanEntity>
    decreases cmds.len(),
{
    if cmds.len() == 0 {
        w
    } else {
        command_outcome(world_after(w, cmds.drop_last()), cmds.last()).0
    }
}

/// The push events fired by performing `cmds` in order.
pub open spec fn events_after(w: Seq<SokobanEntity>, cmds: Seq<SokobanCommand>) -> Seq<
    (u64, Direction, Seq<u64>),
>
    decreases cmds.len(),
{
    if cmds.len() == 0 {
        Seq::empty()
    } else {
        events_after(w, cmds.drop_last()) + command_outcome(
            world_after(w, cmds.drop_last()),
            cmds.last(),
        ).1
    }
}

/// Every coordinate lies at least `margin` away from the ends of the `i32` range.
pub open spec fn world_within(w: Seq<SokobanEntity>, margin: int) -> bool {
    forall|i: int|
        0 <= i < w.len() ==> i32::MIN + margin <= (#[trigger] w[i]).grid_coords.x <= i32::MAX
            - margin && i32::MIN + margin <= w[i].grid_coords.y <= i32::MAX - margin
}

proof fn lemma_placements_of_facts(w: Seq<SokobanEntity>)
    requires
        distinct_entities(w),
    ensures
        forall|i: int|
            0 <= i < w.len() ==> #[trigger] placements_of(w)[w[i].entity] == (
                w[i].grid_coords,
                w[i].block,
            ) && placements_of(w).dom().contains(w[i].entity),
        forall|e: u64|
            placements_of(w).dom().contains(e) <==> exists|i: int|
                0 <= i < w.len() && #[trigger] w[i].entity == e,
{
    assert forall|i: int| 0 <= i < w.len() implies #[trigger] placements_of(w)[w[i].entity] == (
        w[i].grid_coords,
        w[i].block,
    ) && placements_of(w).dom().contains(w[i].entity) by {
        let e = w[i].entity;
        assert(placements_of(w).dom().contains(e));
        let k = choose|k: int| 0 <= k < w.len() && w[k].entity == e;
        assert(k == i);
    }
}

/// Performs one move command on the entities: moves every entity the push simulation moves,
/// and returns the push events of the pushing entities that track their pushes.
pub fn apply_sokoban_command(world: &mut Vec<SokobanEntity>, command: SokobanCommand) -> (events: Vec<
    PushEvent,
>)
    requires
        distinct_entities(old(world)@),
        world_within(old(world)@, 1),
        move_terminates(placements_of(old(world)@), command->entity, command->direction),
    ensures
        final(world)@ == command_outcome(old(world)@, command).0,
        events@.map_values(|e: PushEvent| event_view(e)) == command_outcome(old(world)@, command).1,
{
    let SokobanCommand::Move { entity, direction } = command;
    let ghost w0 = world@;
    proof {
        lemma_placements_of_facts(w0);
    }
    let mut entries: Vec<(u64, GridCoords, SokobanBlock)> = Vec::new();
    let mut i: usize = 0;
    while i < world.len()
        invariant
            world@ == w0,
            0 <= i <= world.len(),
            entries.len() == i,
            forall|j: int|
                0 <= j < i ==> #[trigger] entries[j] == (
                    w0[j].entity,
                    w0[j].grid_coords,
                    w0[j].block,
                ),
        decreases world.len() - i,
    {
        let e = world[i];
        entries.push((e.entity, e.grid_coords, e.block));
        i += 1;
    }
    let map = EntityCollisionGeographicMap::from_entries(&entries);
    let ghost p = placements_of(w0);
    assert(map.placements() =~= p) by {
        assert forall|e: u64| map.placements().dom().contains(e) <==> p.dom().contains(e) by {
            if map.placements().dom().contains(e) {
                let j = choose|j: int| 0 <= j < entries.len() && #[trigger] entries[j].0 == e;
                assert(w0[j].entity == e);
            }
            if p.dom().contains(e) {
                let j = choose|j: int| 0 <= j < w0.len() && #[trigger] w0[j].entity == e;
                assert(entries[j].0 == e);
            }
        }
        assert forall|e: u64| #[trigger] map.placements().dom().contains(e) implies map.placements()[e]
            == p[e] by {
            let j = choose|j: int| 0 <= j < entries.len() && #[trigger] entries[j].0 == e;
            assert(w0[j].entity == e);
        }
    }
    assert(placements_bounded(p)) by {
        assert forall|e: u64| #[trigger] p.dom().contains(e) implies i32::MIN < p[e].0.x < i32::MAX
            && i32::MIN < p[e].0.y < i32::MAX by {
            let j = choose|j: int| 0 <= j < w0.len() && #[trigger] w0[j].entity == e;
            assert(p[w0[j].entity] == (w0[j].grid_coords, w0[j].block));
        }
    }
    let (_, entities_to_move, push_events_to_send) = map.simulate_move_entity(entity, direction);
    let ghost r = simulate_spec(p, entity, direction);
    let mut events: Vec<PushEvent> = Vec::new();
    let mut i: usize = 0;
    while i < world.len()
        invariant
            world@ == w0,
            0 <= i <= world.len(),
            map.wf(),
            map.placements() == p,
            p == placements_of(w0),
            placements_bounded(p),
            move_terminates(p, entity, direction),
            entity_set_contents(push_events_to_send) == r.2,
            r == simulate_spec(p, entity, direction),
            events@.map_values(|e: PushEvent| event_view(e)) == tracked_push_events(
                w0.take(i as int),
                w0,
                r.2,
                direction,
            ),
        decreases world.len() - i,
    {
        let e = world[i];
        let ghost before = events@;
        assert(w0.take(i + 1).drop_last() =~= w0.take(i as int));
        assert(w0.take(i + 1).last() == e);
        if e.push_tracker && entity_set_contains(&push_events_to_send, e.entity) {
            assert(direction != Direction::Zero);
            let (_, moved_by_it, _) = map.simulate_move_entity(e.entity, direction);
            let pushed = ids_in_set(world, &moved_by_it, e.entity);
            events.push(PushEvent { pusher: e.entity, direction, pushed });
            assert(events@.map_values(|e: PushEvent| event_view(e)) =~= before.map_values(
                |e: PushEvent| event_view(e),
            ).push((e.entity, direction, ids_in(w0, pushed_by(p, e.entity, direction)))));
        } else {
            assert(events@ == before);
            assert(tracked_push_events(w0.take(i + 1), w0, r.2, direction) =~= tracked_push_events(
                w0.take(i as int),
                w0,
                r.2,
                direction,
            ));
        }
        i += 1;
    }
    assert(w0.take(w0.len() as int) =~= w0);
    let step = direction.to_ivec2();
    let mut i: usize = 0;
    while i < world.len()
        invariant
            world.len() == w0.len(),
            0 <= i <= world.len(),
            world_within(w0, 1),
            step.x == dir_x(direction),
            step.y == dir_y(direction),
            command == (SokobanCommand::Move { entity, direction }),
            r == simulate_spec(placements_of(w0), entity, direction),
            entity_set_contents(entities_to_move) == r.1,
            forall|j: int| i <= j < world.len() ==> #[trigger] world[j] == w0[j],
            forall|j: int|
                0 <= j < i ==> #[trigger] world[j] == command_outcome(w0, command).0[j],
        decreases world.len() - i,
    {
        let e = world[i];
        let ghost expected = command_outcome(w0, command).0[i as int];
        assert(e == w0[i as int]);
        assert(command->entity == entity && command->direction == direction);
        assert(simulate_spec(placements_of(w0), command->entity, command->direction) == r);
        assert(expected == (if r.1.contains(w0[i as int].entity) {
            SokobanEntity { grid_coords: moved_coords(w0[i as int].grid_coords, direction), ..w0[i as int] }
        } else {
            w0[i as int]
        }));
        if entity_set_contains(&entities_to_move, e.entity) {
            let moved = e.grid_coords.to_ivec2().add(step);
            world.set(i, SokobanEntity { grid_coords: GridCoords::from_ivec2(moved), ..e });
            assert(world[i as int] == expected);
        } else {
            assert(world[i as int] == expected);
        }
        i += 1;
    }
    assert(world@ =~= command_outcome(w0, command).0);
    events
}

/// The ids of the entities of `world` in `s`, other than `except`, in the order of `world`.
fn ids_in_set(world: &Vec<SokobanEntity>, s: &HashSet<u64>, except: u64) -> (ids: Vec<u64>)
    ensures
        ids@ == ids_in(world@, entity_set_contents(*s).remove(except)),
{
    let ghost set = entity_set_contents(*s).remove(except);
    let mut ids: Vec<u64> = Vec::new();
    let mut i: usize = 0;
    while i < world.len()
        invariant
            0 <= i <= world.len(),
            set == entity_set_contents(*s).remove(except),
            ids@ == ids_in(world@.take(i as int), set),
        decreases world.len() - i,
    {
        assert(world@.take(i + 1).drop_last() =~= world@.take(i as int));
        assert(world@.take(i + 1).last() == world[i as int]);
        let id = world[i].entity;
        if id != except && entity_set_contains(s, id) {
            ids.push(id);
        }
        i += 1;
    }
    assert(world@.take(world.len() as int) =~= world@);
    ids
}

/// One command keeps entity ids and moves each entity by at most one step.
proof fn lemma_command_outcome_keeps(w: Seq<SokobanEntity>, cmd: SokobanCommand, margin: int)
    requires
        distinct_entities(w),
        world_within(w, margin),
        margin >= 1,
    ensures
        command_outcome(w, cmd).0.len() == w.len(),
        distinct_entities(command_outcome(w, cmd).0),
        world_within(command_outcome(w, cmd).0, margin - 1),
{
    let after = command_outcome(w, cmd).0;
    assert forall|i: int, j: int|
        0 <= i < after.len() && 0 <= j < after.len() && i != j implies #[trigger] after[i].entity
        != #[trigger] after[j].entity by {
        assert(after[i].entity == w[i].entity);
        assert(after[j].entity == w[j].entity);
    }
}

/// Performs the move commands in order; each command sees the moves of the ones before it.
#[verifier::spinoff_prover]
#[verifier::rlimit(40)]
pub fn flush_sokoban_commands(world: &mut Vec<SokobanEntity>, commands: &Vec<SokobanCommand>) -> (events: Vec<
    PushEvent,
>)
    requires
        distinct_entities(old(world)@),
        world_within(old(world)@, commands.len() + 1),
        forall|k: int|
            0 <= k < commands.len() ==> move_terminates(
                placements_of(world_after(old(world)@, commands@.take(k))),
                (#[trigger] commands[k])->entity,
                commands[k]->direction,
            ),
    ensures
        final(world)@ == world_after(old(world)@, commands@),
        events@.map_values(|e: PushEvent| event_view(e)) == events_after(old(world)@, commands@),
{
    let ghost w0 = world@;
    let mut events: Vec<PushEvent> = Vec::new();
    let mut k: usize = 0;
    while k < commands.len()
        invariant
            0 <= k <= commands.len(),
            world@ == world_after(w0, commands@.take(k as int)),
            events@.map_values(|e: PushEvent| event_view(e)) == events_after(
                w0,
                commands@.take(k as int),
            ),
            distinct_entities(world@),
            world_within(world@, commands.len() + 1 - k),
            forall|j: int|
                0 <= j < commands.len() ==> move_terminates(
                    placements_of(world_after(w0, commands@.take(j))),
                    (#[trigger] commands[j])->entity,
                    commands[j]->direction,
                ),
        decreases commands.len() - k,
    {
        let ghost before = world@;
        let command = commands[k];
        proof {
            assert(world_within(before, 1));
            assert(move_terminates(
                placements_of(world_after(w0, commands@.take(k as int))),
                commands[k as int]->entity,
                commands[k as int]->direction,
            ));
            lemma_command_outcome_keeps(before, command, commands.len() + 1 - k);
        }
        let mut fired = apply_sokoban_command(world, command);
        proof {
            assert(commands@.take(k + 1).drop_last() =~= commands@.take(k as int));
            assert(commands@.take(k + 1).last() == command);
        }
        let ghost old_events = events@;
        let ghost new_events = fired@;
        events.append(&mut fired);
        assert(events@.map_values(|e: PushEvent| event_view(e)) =~= old_events.map_values(
            |e: PushEvent| event_view(e),
        ) + new_events.map_values(|e: PushEvent| event_view(e)));
        k += 1;
    }
    assert(commands@.take(commands.len() as int) =~= commands@);
    events
}

} // verus!



