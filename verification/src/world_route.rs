//! Sending a pawn somewhere: finding a path for it and setting its route.
use vstd::prelude::*;
use crate::entity::Base;
use crate::geom::{TilePos, has_neighbors, spec_distance_squared};
use crate::pathfinder::{
    fits_region, is_route, is_step, is_walk, lemma_near_has_neighbors, lemma_step_back, lemma_walk_len_bound, region_fits,
    reverse_tiles, reversed, weighted_path_to,
};
use crate::pawn::Pawn;
use crate::pawn_typ::{PawnTyp, spec_can_move, spec_can_walk_on};
use crate::route::route_set;
use crate::tilemap::Tilemap;
use crate::world::{ui_kept, G, buildings_kept, lemma_pawn_replaced};

verus! {

/// How far (in tiles) from its destination a pawn's path may lead.
pub const MAX_PATH_DIST: u16 = 42;

/// `path` leads from `start` to `goal` by steps to neighbouring tiles, each tile
/// before the last lying strictly within `max_dist` of `goal` and walkable for a
/// pawn of kind `typ` on `map`.
pub open spec fn is_pawn_walk(path: Seq<TilePos>, start: TilePos, goal: TilePos, max_dist: u16, typ: PawnTyp, map: Tilemap) -> bool {
    &&& path.len() >= 1
    &&& path[0] == start
    &&& path.last() == goal
    &&& forall|i: int| 0 <= i < path.len() - 1 ==> {
        &&& is_step(path[i], #[trigger] path[i + 1])
        &&& spec_distance_squared(goal, path[i]) < max_dist * max_dist
        &&& spec_can_walk_on(typ, map.spec_at(path[i]))
    }
}

/// Whether pawn `p` is owed a route to `dest` on `map`: it can move, the search area
/// around `dest` fits in the coordinate range, and some walk within
/// `MAX_PATH_DIST` of `dest` leads it there.
pub open spec fn path_owed(p: Pawn, dest: TilePos, map: Tilemap) -> bool {
    &&& spec_can_move(p.typ)
    &&& region_fits(dest, MAX_PATH_DIST)
    &&& exists|path: Seq<TilePos>| #[trigger] is_pawn_walk(path, p.base.tile, dest, MAX_PATH_DIST, p.typ, map)
}

/// `p2` is `p1` with a new, well formed route.
pub open spec fn pawn_with_route(p1: Pawn, p2: Pawn) -> bool {
    &&& p2.base == p1.base
    &&& p2.typ == p1.typ
    &&& p2.home == p1.home
    &&& p2.cargo == p1.cargo
    &&& p2.target == p1.target
    &&& p2.task == p1.task
    &&& p2.route.wf()
}

/// The route of `p2` leads pawn `p1` from where it stands to `dest` on `map`.
pub open spec fn route_leads_to(p1: Pawn, p2: Pawn, dest: TilePos, map: Tilemap) -> bool {
    exists|path: Seq<TilePos>| #[trigger] is_pawn_walk(path, p1.base.tile, dest, MAX_PATH_DIST, p1.typ, map)
        && p2.route@ == route_set(path)
}

/// `p2` is `p1`, except that its route may have been set towards `dest` (when a
/// path was found).
pub open spec fn maybe_routed(p1: Pawn, p2: Pawn, dest: TilePos, map: Tilemap) -> bool {
    ||| p2 == p1
    ||| pawn_with_route(p1, p2) && route_leads_to(p1, p2, dest, map)
}

/// `g1` is `g0` except for the pawn in slot `pi` (which is still there).
pub open spec fn only_pawn_changed(g0: G, g1: G, pi: int) -> bool {
    &&& g1.pawns@.len() == g0.pawns@.len()
    &&& g1.pawns@[pi] is Some
    &&& forall|j: int| 0 <= j < g0.pawns@.len() && j != pi ==> #[trigger] g1.pawns@[j] == g0.pawns@[j]
    &&& g1.buildings@ == g0.buildings@
    &&& g1.tilemap == g0.tilemap
    &&& g1.resources@ == g0.resources@
    &&& g1.effects@ == g0.effects@
    &&& g1.tick == g0.tick
}

/// A walk found from `dest` to `start` over tiles that `walkable` accepted, read
/// backwards, leads a pawn from `start` to `dest` (when `walkable` accepts exactly
/// the tiles the pawn can walk on).
proof fn lemma_reversed_walk<W: Fn(TilePos) -> bool>(q: Seq<TilePos>, start: TilePos, dest: TilePos, typ: PawnTyp, map: Tilemap, walkable: W)
    requires
        is_walk(q, dest, start, MAX_PATH_DIST, walkable),
        region_fits(dest, MAX_PATH_DIST),
        forall|t: TilePos, b: bool| call_ensures(walkable, (t,), b) ==> b == spec_can_walk_on(typ, map.spec_at(t)),
    ensures
        is_pawn_walk(reversed(q), start, dest, MAX_PATH_DIST, typ, map),
{
    let n = q.len();
    let path = reversed(q);
    assert forall|i: int| 0 <= i < path.len() - 1 implies {
        &&& is_step(path[i], #[trigger] path[i + 1])
        &&& spec_distance_squared(dest, path[i]) < MAX_PATH_DIST * MAX_PATH_DIST
        &&& spec_can_walk_on(typ, map.spec_at(path[i]))
    } by {
        let k = n - 2 - i;
        assert(path[i] == q[k + 1] && path[i + 1] == q[k]);
        assert(call_ensures(walkable, (q[k + 1],), true));
        if k == 0 {
            assert(has_neighbors(dest));
        } else {
            assert(q[(k - 1) + 1] == q[k]);
            lemma_near_has_neighbors(dest, q[k], MAX_PATH_DIST);
        }
        lemma_step_back(q[k], q[k + 1]);
    }
    assert(path[0] == q[n - 1]);
    assert(path[n - 1] == q[0]);
}

impl G {
    /// Send the pawn in slot `pi` to `dest`: its route becomes a path from its tile
    /// to `dest` over tiles within `MAX_PATH_DIST` of `dest` (searched from `dest`
    /// outwards). `None` (and nothing changes) when the pawn cannot move, when `dest`
    /// lies so close to the end of the coordinate range that the search area does
    /// not fit in it, or when no such path exists.
    pub fn set_destination(&mut self, pi: usize, dest: TilePos) -> (r: Option<()>)
        requires
            old(self).wf(),
            pi < old(self).pawns@.len(),
            old(self).pawns@[pi as int] is Some,
        ensures
            ui_kept(*old(self), *final(self)),
            final(self).selected_entity_ids@ == old(self).selected_entity_ids@,
            buildings_kept(*old(self), *final(self)),
            final(self).wf(),
            only_pawn_changed(*old(self), *final(self), pi as int),
            ({
                let p = old(self).pawns@[pi as int].unwrap();
                let p2 = final(self).pawns@[pi as int].unwrap();
                &&& r is None ==> p2 == p
                &&& r is Some ==> spec_can_move(p.typ) && pawn_with_route(p, p2) && route_leads_to(p, p2, dest, old(self).tilemap)
                &&& !spec_can_move(p.typ) ==> r is None
                &&& r is None ==> !path_owed(p, dest, old(self).tilemap)
                &&& (spec_can_move(p.typ) && region_fits(dest, MAX_PATH_DIST) && p.base.tile == dest) ==> (r is Some
                    && p2.route@ == route_set(seq![dest]))
                &&& maybe_routed(p, p2, dest, old(self).tilemap)
            }),
    {
        let (tile, typ) = match &self.pawns[pi] {
            Some(p) => (p.base.tile, p.typ),
            None => ((0, 0), PawnTyp::Kitten),
        };
        if !typ.can_move() {
            return None;
        }
        if !fits_region(dest, MAX_PATH_DIST) {
            return None;
        }
        let map = &self.tilemap;
        let walkable = |t: TilePos| -> (b: bool)
            requires
                map.wf(),
            ensures
                b == spec_can_walk_on(typ, map.spec_at(t)),
            { typ.can_walk_on(map.at(t)) };
        let cost = |t: TilePos| -> (c: u8)
            ensures
                c == 1,
            { 1 };
        let found = weighted_path_to(dest, tile, MAX_PATH_DIST, walkable, cost);
        let back = match found {
            Some(back) => back,
            None => {
                proof {
                    assert forall|path: Seq<TilePos>| !#[trigger] is_pawn_walk(path, tile, dest, MAX_PATH_DIST, typ, self.tilemap) by {
                        if is_pawn_walk(path, tile, dest, MAX_PATH_DIST, typ, self.tilemap) {
                            let n = path.len();
                            let r = reversed(path);
                            assert forall|i: int| 0 <= i < r.len() - 1 implies {
                                &&& is_step(r[i], #[trigger] r[i + 1])
                                &&& spec_distance_squared(dest, r[i + 1]) < MAX_PATH_DIST * MAX_PATH_DIST
                            } by {
                                let j = n - 2 - i;
                                assert(path[j + 1] == r[i] && path[j] == r[i + 1]);
                                lemma_near_has_neighbors(dest, path[j], MAX_PATH_DIST);
                                lemma_step_back(path[j], path[j + 1]);
                            }
                            assert(is_route(r, dest, tile, MAX_PATH_DIST));
                            let i = choose|i: int| 1 <= i < r.len() && call_ensures(walkable, (#[trigger] r[i],), false);
                            let j = n - 1 - i;
                            assert(r[i] == path[j]);
                            assert(is_step(path[j], path[j + 1]));
                            assert(spec_can_walk_on(typ, self.tilemap.spec_at(path[j])));
                        }
                    }
                }
                return None;
            },
        };
        proof {
            lemma_walk_len_bound(back@, dest, tile, MAX_PATH_DIST, walkable);
            assert((2 * MAX_PATH_DIST + 1) * (2 * MAX_PATH_DIST + 1) == 7225) by (nonlinear_arith);
        }
        let path = reverse_tiles(&back);
        proof {
            lemma_reversed_walk(back@, tile, dest, typ, self.tilemap, walkable);
            if tile == dest {
                assert(path@ =~= seq![dest]);
            }
        }
        let ghost path_s = path@;
        let ghost g0 = *self;
        let mut p = self.take_pawn(pi);
        p.route.set(path);
        self.put_pawn(pi, p);
        proof {
            lemma_pawn_replaced(g0, *self, pi as int);
            let p2 = self.pawns@[pi as int].unwrap();
            assert(is_pawn_walk(path_s, tile, dest, MAX_PATH_DIST, typ, g0.tilemap) && p2.route@ == route_set(path_s));
        }
        Some(())
    }
}

} // verus!
