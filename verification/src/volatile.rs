//! Volatile entities: solid at first, and sublimated once they meet another volatile solid.
use crate::grid::GridCoords;
use vstd::prelude::*;

verus! {

/// The volatility of an entity and its volatile state.
///
/// If two volatile solids share the same grid space, they both are sublimated.
#[derive(Copy, Clone, Debug, PartialEq, Eq, Hash, Structural)]
pub enum Volatile {
    /// The entity is still a volatile solid.
    Solid,
    /// The entity has collided with another volatile solid, and has been sublimated.
    Sublimated,
}

impl Default for Volatile {
    fn default() -> (v: Volatile)
        ensures
            v == Volatile::Solid,
    {
        Volatile::Solid
    }
}

impl Volatile {
    /// Returns `true` if this instance is [`Volatile::Solid`].
    pub fn is_solid(&self) -> (r: bool)
        ensures
            r <==> *self == Volatile::Solid,
    {
        matches!(self, Volatile::Solid)
    }

    /// Sets this instance to [`Volatile::Sublimated`].
    pub fn sublimate(&mut self)
        ensures
            *final(self) == Volatile::Sublimated,
    {
        *self = Volatile::Sublimated;
    }
}

/// A volatile entity: its id, grid coordinates, volatile state, and whether its coordinates
/// changed since the last check.
#[derive(Copy, Clone, Debug, PartialEq, Eq, Structural)]
pub struct VolatileEntity {
    pub entity: u64,
    pub grid_coords: GridCoords,
    pub volatile: Volatile,
    pub moved: bool,
}

/// Whether entry `i` of `w` is a solid.
pub open spec fn solid(w: Seq<VolatileEntity>, i: int) -> bool {
    w[i].volatile == Volatile::Solid
}

/// Whether entry `i` of `w` is a solid that moved.
pub open spec fn moved_solid(w: Seq<VolatileEntity>, i: int) -> bool {
    w[i].moved && w[i].volatile == Volatile::Solid
}

/// The state of entry `i` after sublimation.
///
/// A moved solid sublimates when any other solid shares its space. A solid that did not move
/// sublimates when exactly one moved solid lands on it (two moved solids landing together
/// sublimate each other first). Sublimated entries stay sublimated.
pub open spec fn sublimation_result(w: Seq<VolatileEntity>, i: int) -> Volatile {
    if !solid(w, i) {
        Volatile::Sublimated
    } else if w[i].moved {
        if exists|j: int|
            0 <= j < w.len() && j != i && #[trigger] solid(w, j) && w[j].grid_coords
                == w[i].grid_coords {
            Volatile::Sublimated
        } else {
            Volatile::Solid
        }
    } else {
        if exists|m: int|
            0 <= m < w.len() && #[trigger] moved_solid(w, m) && w[m].grid_coords == w[i].grid_coords
                && (forall|k: int|
                0 <= k < w.len() && #[trigger] moved_solid(w, k) && w[k].grid_coords
                    == w[i].grid_coords ==> k == m) {
            Volatile::Sublimated
        } else {
            Volatile::Solid
        }
    }
}

/// After the first `a` moved entries were compared with the moved entries after them: whether
/// moved solid `t` met another moved solid among those pairs.
pub open spec fn met_moved(w: Seq<VolatileEntity>, t: int, a: int) -> bool {
    exists|u: int|
        0 <= u < w.len() && u != t && #[trigger] moved_solid(w, u) && w[u].grid_coords
            == w[t].grid_coords && (u < a || t < a)
}

/// The state after comparing the first `a` entries with the moved entries after them.
pub open spec fn first_pass_state(w: Seq<VolatileEntity>, t: int, a: int) -> Volatile {
    if !solid(w, t) || (w[t].moved && met_moved(w, t, a)) {
        Volatile::Sublimated
    } else {
        Volatile::Solid
    }
}

/// A moved solid that met no other moved solid.
pub open spec fn lone_mover(w: Seq<VolatileEntity>, m: int) -> bool {
    moved_solid(w, m) && !met_moved(w, m, w.len() as int)
}

/// The state after the still-solid moved entries among the first `a` were compared with the
/// entries that did not move.
pub open spec fn second_pass_state(w: Seq<VolatileEntity>, t: int, a: int) -> Volatile {
    if first_pass_state(w, t, w.len() as int) == Volatile::Sublimated {
        Volatile::Sublimated
    } else if w[t].moved {
        if t < a && exists|s: int|
            0 <= s < w.len() && !w[s].moved && #[trigger] solid(w, s) && w[s].grid_coords
                == w[t].grid_coords {
            Volatile::Sublimated
        } else {
            Volatile::Solid
        }
    } else {
        if exists|m: int|
            0 <= m < a && #[trigger] lone_mover(w, m) && w[m].grid_coords == w[t].grid_coords {
            Volatile::Sublimated
        } else {
            Volatile::Solid
        }
    }
}

/// The entries keep their ids, coordinates and moved flags.
pub open spec fn same_entities(w: Seq<VolatileEntity>, v: Seq<VolatileEntity>) -> bool {
    &&& v.len() == w.len()
    &&& forall|t: int|
        0 <= t < w.len() ==> (#[trigger] v[t]).entity == w[t].entity && v[t].grid_coords
            == w[t].grid_coords && v[t].moved == w[t].moved
}

fn set_volatile(volatiles: &mut Vec<VolatileEntity>, i: usize, state: Volatile)
    requires
        i < old(volatiles).len(),
    ensures
        final(volatiles)@ == old(volatiles)@.update(
            i as int,
            VolatileEntity { volatile: state, ..old(volatiles)@[i as int] },
        ),
{
    let e = volatiles[i];
    volatiles.set(i, VolatileEntity { volatile: state, ..e });
}

/// Compares every moved volatile with the moved volatiles after it, then every still-solid moved
/// volatile with the volatiles that did not move; solids sharing a space are sublimated.
pub fn sublimation(volatiles: &mut Vec<VolatileEntity>)
    requires
        exists|i: int| 0 <= i < old(volatiles).len() && (#[trigger] old(volatiles)[i]).moved,
    ensures
        same_entities(old(volatiles)@, final(volatiles)@),
        forall|i: int|
            0 <= i < old(volatiles).len() ==> (#[trigger] final(volatiles)[i]).volatile
                == sublimation_result(old(volatiles)@, i),
{
    let ghost w = volatiles@;
    let n = volatiles.len();
    // Collisions between moved volatiles.
    let mut a: usize = 0;
    while a < n
        invariant
            n == w.len(),
            0 <= a <= n,
            same_entities(w, volatiles@),
            forall|t: int|
                0 <= t < n ==> (#[trigger] volatiles[t]).volatile == first_pass_state(w, t, a as int),
        decreases n - a,
    {
        let ghost before = volatiles@;
        let a_entry = volatiles[a];
        if a_entry.moved && a_entry.volatile.is_solid() {
            assert(!met_moved(w, a as int, a as int));
            let mut b: usize = a + 1;
            let mut met = false;
            while b < n
                invariant
                    n == w.len(),
                    a < n,
                    a + 1 <= b <= n,
                    same_entities(w, volatiles@),
                    a_entry.moved,
                    a_entry.volatile == Volatile::Solid,
                    moved_solid(w, a as int),
                    a_entry.grid_coords == w[a as int].grid_coords,
                    !met_moved(w, a as int, a as int),
                    before.len() == n,
                    forall|t: int| 0 <= t < n ==> (#[trigger] before[t]).volatile == first_pass_state(w, t, a as int),
                    met <==> exists|u: int|
                        a < u < b && #[trigger] moved_solid(w, u) && w[u].grid_coords
                            == w[a as int].grid_coords,
                    forall|t: int|
                        0 <= t < n && t != a && !(a < t < b) ==> (#[trigger] volatiles[t]).volatile
                            == before[t].volatile,
                    forall|t: int|
                        a < t < b ==> (#[trigger] volatiles[t]).volatile == (if before[t].volatile
                            == Volatile::Sublimated || (moved_solid(w, t) && w[t].grid_coords
                            == w[a as int].grid_coords) {
                            Volatile::Sublimated
                        } else {
                            Volatile::Solid
                        }),
                    volatiles[a as int].volatile == (if met {
                        Volatile::Sublimated
                    } else {
                        Volatile::Solid
                    }),
                decreases n - b,
            {
                let b_entry = volatiles[b];
                assert(b_entry.moved == w[b as int].moved);
                if b_entry.moved && b_entry.volatile.is_solid() && b_entry.grid_coords
                    == a_entry.grid_coords {
                    proof {
                        assert(b_entry.volatile == before[b as int].volatile);
                        assert(moved_solid(w, b as int));
                    }
                    set_volatile(volatiles, a, Volatile::Sublimated);
                    set_volatile(volatiles, b, Volatile::Sublimated);
                    met = true;
                } else {
                    proof {
                        if moved_solid(w, b as int) && w[b as int].grid_coords == w[a as int].grid_coords {
                            assert(before[b as int].volatile == Volatile::Sublimated);
                        }
                    }
                }
                b += 1;
            }
            proof {
                assert forall|t: int| 0 <= t < n implies (#[trigger] volatiles[t]).volatile
                    == first_pass_state(w, t, a + 1) by {
                    if t == a {
                        if met {
                            let u = choose|u: int|
                                a < u < b && #[trigger] moved_solid(w, u) && w[u].grid_coords
                                    == w[a as int].grid_coords;
                            assert(met_moved(w, t, a + 1));
                        } else {
                            if met_moved(w, t, a + 1) {
                                let u = choose|u: int|
                                    0 <= u < w.len() && u != t && #[trigger] moved_solid(w, u)
                                        && w[u].grid_coords == w[t].grid_coords && (u < a + 1 || t
                                        < a + 1);
                                if u < a {
                                    assert(met_moved(w, t, a as int));
                                }
                            }
                        }
                    } else if a < t {
                        if moved_solid(w, t) && w[t].grid_coords == w[a as int].grid_coords {
                            assert(met_moved(w, t, a + 1));
                        } else if solid(w, t) && w[t].moved && met_moved(w, t, a + 1) {
                            let u = choose|u: int|
                                0 <= u < w.len() && u != t && #[trigger] moved_solid(w, u)
                                    && w[u].grid_coords == w[t].grid_coords && (u < a + 1 || t
                                    < a + 1);
                            assert(u != a);
                            assert(met_moved(w, t, a as int));
                        }
                    } else {
                        if solid(w, t) && w[t].moved && met_moved(w, t, a + 1) {
                            assert(met_moved(w, t, a as int));
                        }
                    }
                }
            }
        } else {
            proof {
                assert forall|t: int| 0 <= t < n implies (#[trigger] volatiles[t]).volatile
                    == first_pass_state(w, t, a + 1) by {
                    if solid(w, t) && w[t].moved && met_moved(w, t, a + 1) && !met_moved(w, t, a as int) {
                        let u = choose|u: int|
                            0 <= u < w.len() && u != t && #[trigger] moved_solid(w, u)
                                && w[u].grid_coords == w[t].grid_coords && (u < a + 1 || t < a + 1);
                        if u == a {
                            assert(a_entry.volatile == first_pass_state(w, a as int, a as int));
                            assert(met_moved(w, u, a as int)) by {
                                let v = choose|v: int|
                                    0 <= v < w.len() && v != u && #[trigger] moved_solid(w, v)
                                        && w[v].grid_coords == w[u].grid_coords && (v < a as int
                                        || u < a as int);
                                assert(v < a);
                            }
                            let v = choose|v: int|
                                0 <= v < w.len() && v != u && #[trigger] moved_solid(w, v)
                                    && w[v].grid_coords == w[u].grid_coords && (v < a as int
                                    || u < a as int);
                            if v == t {
                                assert(t < a);
                            } else {
                                assert(false);
                            }
                        } else {
                            assert(t == a);
                            assert(!a_entry.moved || a_entry.volatile == Volatile::Sublimated);
                        }
                    }
                }
            }
        }
        a += 1;
    }
    // Collisions between moved volatiles and volatiles that did not move.
    let mut a: usize = 0;
    while a < n
        invariant
            n == w.len(),
            0 <= a <= n,
            same_entities(w, volatiles@),
            forall|t: int|
                0 <= t < n ==> (#[trigger] volatiles[t]).volatile == second_pass_state(w, t, a as int),
        decreases n - a,
    {
        let ghost before = volatiles@;
        let a_entry = volatiles[a];
        if a_entry.moved && a_entry.volatile.is_solid() {
            proof {
                assert(lone_mover(w, a as int));
            }
            let mut b: usize = 0;
            let mut hit = false;
            while b < n
                invariant
                    n == w.len(),
                    a < n,
                    0 <= b <= n,
                    same_entities(w, volatiles@),
                    before.len() == n,
                    lone_mover(w, a as int),
                    a_entry.grid_coords == w[a as int].grid_coords,
                    forall|t: int| 0 <= t < n ==> (#[trigger] before[t]).volatile == second_pass_state(w, t, a as int),
                    hit <==> exists|s: int|
                        0 <= s < b && !w[s].moved && #[trigger] solid(w, s) && w[s].grid_coords
                            == w[a as int].grid_coords,
                    forall|t: int|
                        0 <= t < n && t != a && !(0 <= t < b && !w[t].moved && w[t].grid_coords
                            == w[a as int].grid_coords) ==> (#[trigger] volatiles[t]).volatile
                            == before[t].volatile,
                    forall|t: int|
                        0 <= t < b && !w[t].moved && w[t].grid_coords == w[a as int].grid_coords ==> (
                        #[trigger] volatiles[t]).volatile == Volatile::Sublimated,
                    volatiles[a as int].volatile == (if hit {
                        Volatile::Sublimated
                    } else {
                        Volatile::Solid
                    }),
                decreases n - b,
            {
                let b_entry = volatiles[b];
                assert(b_entry.moved == w[b as int].moved);
                proof {
                    if !w[b as int].moved && w[b as int].grid_coords == w[a as int].grid_coords {
                        if solid(w, b as int) {
                            assert(second_pass_state(w, b as int, a as int) == Volatile::Solid) by {
                                if exists|m: int|
                                    0 <= m < a && #[trigger] lone_mover(w, m) && w[m].grid_coords
                                        == w[b as int].grid_coords {
                                    let m = choose|m: int|
                                        0 <= m < a && #[trigger] lone_mover(w, m)
                                            && w[m].grid_coords == w[b as int].grid_coords;
                                    assert(met_moved(w, a as int, w.len() as int));
                                }
                            }
                        }
                    }
                }
                if !b_entry.moved && b_entry.volatile.is_solid() && b_entry.grid_coords
                    == a_entry.grid_coords {
                    set_volatile(volatiles, a, Volatile::Sublimated);
                    set_volatile(volatiles, b, Volatile::Sublimated);
                    hit = true;
                }
                b += 1;
            }
            proof {
                assert forall|t: int| 0 <= t < n implies (#[trigger] volatiles[t]).volatile
                    == second_pass_state(w, t, a + 1) by {
                    if t != a && !w[t].moved && w[t].grid_coords == w[a as int].grid_coords {
                        assert(lone_mover(w, a as int) && 0 <= a < a + 1);
                    } else if t != a && !w[t].moved {
                        if exists|m: int|
                            0 <= m < a + 1 && #[trigger] lone_mover(w, m) && w[m].grid_coords
                                == w[t].grid_coords {
                            let m = choose|m: int|
                                0 <= m < a + 1 && #[trigger] lone_mover(w, m) && w[m].grid_coords
                                    == w[t].grid_coords;
                            assert(m != a);
                        }
                    }
                }
            }
        } else {
            proof {
                assert forall|t: int| 0 <= t < n implies (#[trigger] volatiles[t]).volatile
                    == second_pass_state(w, t, a + 1) by {
                    if !w[t].moved {
                        if exists|m: int|
                            0 <= m < a + 1 && #[trigger] lone_mover(w, m) && w[m].grid_coords
                                == w[t].grid_coords {
                            let m = choose|m: int|
                                0 <= m < a + 1 && #[trigger] lone_mover(w, m) && w[m].grid_coords
                                    == w[t].grid_coords;
                            if m == a {
                                assert(a_entry.volatile == second_pass_state(w, a as int, a as int));
                            }
                        }
                    }
                }
            }
        }
        a += 1;
    }
    proof {
        assert forall|i: int| 0 <= i < n implies (#[trigger] volatiles[i]).volatile
            == sublimation_result(w, i) by {
            if solid(w, i) && w[i].moved {
                if exists|j: int|
                    0 <= j < w.len() && j != i && #[trigger] solid(w, j) && w[j].grid_coords
                        == w[i].grid_coords {
                    let j = choose|j: int|
                        0 <= j < w.len() && j != i && #[trigger] solid(w, j) && w[j].grid_coords
                            == w[i].grid_coords;
                    if w[j].moved {
                        assert(moved_solid(w, j));
                        assert(met_moved(w, i, n as int));
                    }
                } else {
                    if met_moved(w, i, n as int) {
                        let u = choose|u: int|
                            0 <= u < w.len() && u != i && #[trigger] moved_solid(w, u)
                                && w[u].grid_coords == w[i].grid_coords && (u < n || i < n);
                        assert(solid(w, u));
                    }
                }
            } else if solid(w, i) {
                if exists|m: int|
                    0 <= m < n && #[trigger] lone_mover(w, m) && w[m].grid_coords == w[i].grid_coords {
                    let m = choose|m: int|
                        0 <= m < n && #[trigger] lone_mover(w, m) && w[m].grid_coords
                            == w[i].grid_coords;
                    assert forall|k: int|
                        0 <= k < w.len() && #[trigger] moved_solid(w, k) && w[k].grid_coords
                            == w[i].grid_coords implies k == m by {
                        if k != m {
                            assert(met_moved(w, m, n as int));
                        }
                    }
                } else {
                    if exists|m: int|
                        0 <= m < w.len() && #[trigger] moved_solid(w, m) && w[m].grid_coords
                            == w[i].grid_coords && (forall|k: int|
                            0 <= k < w.len() && #[trigger] moved_solid(w, k) && w[k].grid_coords
                                == w[i].grid_coords ==> k == m) {
                        let m = choose|m: int|
                            0 <= m < w.len() && #[trigger] moved_solid(w, m) && w[m].grid_coords
                                == w[i].grid_coords && (forall|k: int|
                                0 <= k < w.len() && #[trigger] moved_solid(w, k)
                                    && w[k].grid_coords == w[i].grid_coords ==> k == m);
                        assert(!lone_mover(w, m));
                        let u = choose|u: int|
                            0 <= u < w.len() && u != m && #[trigger] moved_solid(w, u)
                                && w[u].grid_coords == w[m].grid_coords && (u < n || m < n);
                    }
                }
            }
        }
    }
}

/// Two volatile solids that share a space both sublimate when one of them moved there, unless a
/// third moved solid landed on the same space too.
pub proof fn lemma_sharing_solids_sublimate(w: Seq<VolatileEntity>, i: int, j: int)
    requires
        0 <= i < w.len(),
        0 <= j < w.len(),
        i != j,
        solid(w, i),
        solid(w, j),
        w[i].grid_coords == w[j].grid_coords,
        w[i].moved,
        forall|k: int|
            0 <= k < w.len() && #[trigger] moved_solid(w, k) && w[k].grid_coords == w[i].grid_coords
                ==> k == i || k == j,
    ensures
        sublimation_result(w, i) == Volatile::Sublimated,
        sublimation_result(w, j) == Volatile::Sublimated,
{
    assert(solid(w, j));
    if !w[j].moved {
        assert(moved_solid(w, i));
        assert forall|k: int|
            0 <= k < w.len() && #[trigger] moved_solid(w, k) && w[k].grid_coords
                == w[j].grid_coords implies k == i by {}
    } else {
        assert(solid(w, i));
    }
}

/// Sublimation never turns a sublimated volatile back into a solid.
pub proof fn lemma_sublimation_is_monotone(w: Seq<VolatileEntity>, i: int)
    requires
        0 <= i < w.len(),
        w[i].volatile == Volatile::Sublimated,
    ensures
        sublimation_result(w, i) == Volatile::Sublimated,
{
}

/// A solid only sublimates when another solid shares its space.
pub proof fn lemma_sublimation_needs_company(w: Seq<VolatileEntity>, i: int)
    requires
        0 <= i < w.len(),
        solid(w, i),
        sublimation_result(w, i) == Volatile::Sublimated,
    ensures
        exists|j: int|
            0 <= j < w.len() && j != i && #[trigger] solid(w, j) && w[j].grid_coords
                == w[i].grid_coords,
{
    if !w[i].moved {
        let m = choose|m: int|
            0 <= m < w.len() && #[trigger] moved_solid(w, m) && w[m].grid_coords
                == w[i].grid_coords && (forall|k: int|
                0 <= k < w.len() && #[trigger] moved_solid(w, k) && w[k].grid_coords
                    == w[i].grid_coords ==> k == m);
        assert(solid(w, m));
    }
}

/// A solid that nobody shares a space with stays solid.
pub proof fn lemma_lone_solid_stays(w: Seq<VolatileEntity>, i: int)
    requires
        0 <= i < w.len(),
        solid(w, i),
        forall|j: int| 0 <= j < w.len() && j != i ==> w[j].grid_coords != w[i].grid_coords,
    ensures
        sublimation_result(w, i) == Volatile::Solid,
{
    if sublimation_result(w, i) == Volatile::Sublimated {
        lemma_sublimation_needs_company(w, i);
    }
}

} // verus!
