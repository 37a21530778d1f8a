//! Internal consistency checks of the game state, run after each tick in debug builds.
use vstd::prelude::*;
use crate::entity::Id;
use crate::geom::TilePos;
use crate::pawn_typ::spec_can_walk_on;
use crate::world::G;

verus! {

/// What a failed consistency check found.
#[derive(Clone, Copy, Debug)]
pub enum SanityError {
    /// A pawn stands on a tile it cannot walk on.
    NotWalkable { pawn: Id, tile: TilePos },
    /// A pawn's home building does not exist.
    HomeMissing { pawn: Id, home: Id },
    /// A pawn's home building does not list it among its workers.
    NotAWorker { pawn: Id, home: Id },
    /// A building lists a worker that does not exist.
    WorkerMissing { building: Id, worker: Id },
    /// A building lists a worker whose home is another building (or none).
    WrongHome { pawn: Id, building: Id },
}

/// Every pawn stands on a tile it can walk on.
pub open spec fn all_walkable(g: G) -> bool {
    forall|i: int| 0 <= i < g.pawns@.len() && (#[trigger] g.pawns@[i]) is Some
        ==> spec_can_walk_on(g.pawns@[i].unwrap().typ, g.tilemap.spec_at(g.pawns@[i].unwrap().base.tile))
}

/// A pawn's home exists and lists the pawn among its workers.
pub open spec fn pawn_homes_ok(g: G) -> bool {
    forall|i: int| 0 <= i < g.pawns@.len() && (#[trigger] g.pawns@[i]) is Some && g.pawns@[i].unwrap().home is Some
        ==> (g.get_building(g.pawns@[i].unwrap().home.unwrap()) matches Some(b) && b.workers@.contains(g.pawns@[i].unwrap().base.id))
}

/// Which inconsistency `e` reports, described over `g`.
pub open spec fn reports(g: G, e: SanityError) -> bool {
    match e {
        SanityError::NotWalkable { pawn, tile } => exists|i: int| 0 <= i < g.pawns@.len() && (#[trigger] g.pawns@[i]) is Some && {
            let p = g.pawns@[i].unwrap();
            p.base.id == pawn && p.base.tile == tile && !spec_can_walk_on(p.typ, g.tilemap.spec_at(tile))
        },
        SanityError::HomeMissing { pawn, home } => exists|i: int| 0 <= i < g.pawns@.len() && (#[trigger] g.pawns@[i]) is Some && {
            let p = g.pawns@[i].unwrap();
            p.base.id == pawn && p.home == Some(home) && g.get_building(home) is None
        },
        SanityError::NotAWorker { pawn, home } => exists|i: int| 0 <= i < g.pawns@.len() && (#[trigger] g.pawns@[i]) is Some && {
            let p = g.pawns@[i].unwrap();
            p.base.id == pawn && p.home == Some(home) && g.get_building(home) is Some && !g.get_building(home).unwrap().workers@.contains(pawn)
        },
        SanityError::WorkerMissing { building, worker } => exists|j: int| 0 <= j < g.buildings@.len() && (#[trigger] g.buildings@[j]) is Some && {
            let b = g.buildings@[j].unwrap();
            b.base.id == building && b.workers@.contains(worker) && g.get_pawn(worker) is None
        },
        SanityError::WrongHome { pawn, building } => exists|j: int| 0 <= j < g.buildings@.len() && (#[trigger] g.buildings@[j]) is Some && {
            let b = g.buildings@[j].unwrap();
            b.base.id == building && b.workers@.contains(pawn) && g.get_pawn(pawn) is Some && g.get_pawn(pawn).unwrap().home != Some(building)
        },
    }
}

/// Whether `e` reports that a pawn stands where it cannot walk.
pub open spec fn is_walk_error(e: SanityError) -> bool {
    e is NotWalkable
}

/// Whether `e` reports a pawn whose home is missing or does not list it.
pub open spec fn is_pawn_home_error(e: SanityError) -> bool {
    e is HomeMissing || e is NotAWorker
}

/// Check that every pawn stands on a tile it can walk on, then that homes and
/// workers agree: a pawn's home exists and lists it, and every worker a building
/// lists exists and has that building as its home. The first failure found is
/// reported (pawns in storage order, then buildings and their workers in order).
pub fn sanity_check(g: &G) -> (r: Result<(), SanityError>)
    requires
        g.tilemap.wf(),
    ensures
        r is Ok <==> (all_walkable(*g) && g.homes_consistent()),
        r matches Err(e) ==> reports(*g, e),
        r matches Err(e) && !is_walk_error(e) ==> all_walkable(*g),
        r matches Err(e) && !is_walk_error(e) && !is_pawn_home_error(e) ==> pawn_homes_ok(*g),
{
    match check_pawns_on_walkable_tile(g) {
        Err(e) => {
            return Err(e);
        },
        Ok(()) => {},
    }
    check_pawns_home_consistency(g)
}

/// Check that every pawn stands on a tile it can walk on; report the first pawn
/// (in storage order) that does not.
pub fn check_pawns_on_walkable_tile(g: &G) -> (r: Result<(), SanityError>)
    requires
        g.tilemap.wf(),
    ensures
        r is Ok <==> all_walkable(*g),
        r matches Err(e) ==> reports(*g, e) && is_walk_error(e),
{
    let mut i: usize = 0;
    while i < g.pawns.len()
        invariant
            g.tilemap.wf(),
            i <= g.pawns@.len(),
            forall|k: int| 0 <= k < i && (#[trigger] g.pawns@[k]) is Some
                ==> spec_can_walk_on(g.pawns@[k].unwrap().typ, g.tilemap.spec_at(g.pawns@[k].unwrap().base.tile)),
        decreases g.pawns.len() - i,
    {
        match &g.pawns[i] {
            Some(p) => {
                if !p.can_walk_on_tile(g.tilemap.at(p.base.tile)) {
                    proof { assert(reports(*g, SanityError::NotWalkable { pawn: p.base.id, tile: p.base.tile })); }
                    return Err(SanityError::NotWalkable { pawn: p.base.id, tile: p.base.tile });
                }
            },
            None => {},
        }
        i = i + 1;
    }
    Ok(())
}

/// Check that homes and workers agree: a pawn's home exists and lists it (pawns
/// in storage order), then that every worker a building lists exists and has that
/// building as its home (buildings and their workers in order). The first failure
/// found is reported.
pub fn check_pawns_home_consistency(g: &G) -> (r: Result<(), SanityError>)
    ensures
        r is Ok <==> g.homes_consistent(),
        r matches Err(e) ==> reports(*g, e) && !is_walk_error(e),
        r matches Err(e) && !is_pawn_home_error(e) ==> pawn_homes_ok(*g),
{
    let mut i: usize = 0;
    while i < g.pawns.len()
        invariant
            i <= g.pawns@.len(),
            forall|k: int| 0 <= k < i && (#[trigger] g.pawns@[k]) is Some && g.pawns@[k].unwrap().home is Some
                ==> (g.get_building(g.pawns@[k].unwrap().home.unwrap()) matches Some(b) && b.workers@.contains(g.pawns@[k].unwrap().base.id)),
        decreases g.pawns.len() - i,
    {
        match &g.pawns[i] {
            Some(p) => {
                match p.home {
                    Some(h) => {
                        match g.building(h) {
                            None => {
                                proof { assert(reports(*g, SanityError::HomeMissing { pawn: p.base.id, home: h })); }
                                return Err(SanityError::HomeMissing { pawn: p.base.id, home: h });
                            },
                            Some(b) => {
                                if !crate::ids::contains_id(&b.workers, p.base.id) {
                                    proof { assert(reports(*g, SanityError::NotAWorker { pawn: p.base.id, home: h })); }
                                    return Err(SanityError::NotAWorker { pawn: p.base.id, home: h });
                                }
                            },
                        }
                    },
                    None => {},
                }
            },
            None => {},
        }
        i = i + 1;
    }
    let mut j: usize = 0;
    while j < g.buildings.len()
        invariant
            pawn_homes_ok(*g),
            j <= g.buildings@.len(),
            forall|k: int, w: Id| 0 <= k < j && g.buildings@[k] is Some && (#[trigger] g.buildings@[k].unwrap().workers@.contains(w))
                ==> (g.get_pawn(w) matches Some(q) && q.home == Some(g.buildings@[k].unwrap().base.id)),
        decreases g.buildings.len() - j,
    {
        match &g.buildings[j] {
            Some(b) => {
                let mut k: usize = 0;
                while k < b.workers.len()
                    invariant
                        pawn_homes_ok(*g),
                        j < g.buildings@.len(),
                        g.buildings@[j as int] == Some(*b),
                        forall|kk: int, w: Id| 0 <= kk < j && g.buildings@[kk] is Some && (#[trigger] g.buildings@[kk].unwrap().workers@.contains(w))
                            ==> (g.get_pawn(w) matches Some(q) && q.home == Some(g.buildings@[kk].unwrap().base.id)),
                        k <= b.workers@.len(),
                        forall|m: int| 0 <= m < k ==> (g.get_pawn(#[trigger] b.workers@[m]) matches Some(q) && q.home == Some(b.base.id)),
                    decreases b.workers.len() - k,
                {
                    let w = b.workers[k];
                    match g.pawn(w) {
                        None => {
                            proof {
                                assert(b.workers@.contains(w));
                                assert(reports(*g, SanityError::WorkerMissing { building: b.base.id, worker: w }));
                            }
                            return Err(SanityError::WorkerMissing { building: b.base.id, worker: w });
                        },
                        Some(q) => {
                            let same = match q.home {
                                Some(hid) => hid.index == b.base.id.index && hid.type_id == b.base.id.type_id,
                                None => false,
                            };
                            if !same {
                                proof {
                                    assert(b.workers@.contains(w));
                                    assert(reports(*g, SanityError::WrongHome { pawn: w, building: b.base.id }));
                                }
                                return Err(SanityError::WrongHome { pawn: w, building: b.base.id });
                            }
                        },
                    }
                    k = k + 1;
                }
                proof {
                    assert forall|w: Id| (#[trigger] b.workers@.contains(w)) implies (g.get_pawn(w) matches Some(q) && q.home == Some(b.base.id)) by {
                        let m = choose|m: int| 0 <= m < b.workers@.len() && b.workers@[m] == w;
                        assert(g.get_pawn(b.workers@[m]) is Some);
                    }
                }
            },
            None => {},
        }
        j = j + 1;
    }
    Ok(())
}

} // verus!
