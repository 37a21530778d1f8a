//! Placing buildings on the map (with their default workers).
use vstd::prelude::*;
use crate::building::{Building, spec_footprint};
use crate::building_typ::{BuildingTyp, spec_can_build_on, spec_default_workers};
use crate::entity::{Base, EntityType, Id};
use crate::geom::{TilePos, spec_contains};
use crate::ids::{with_id, without_id};
use crate::pawn::Pawn;
use crate::pawn_typ::PawnTyp;
use crate::world::{ui_kept, G, building_with_workers, pawn_same_plan};

verus! {

/// Identifiers of `n` pawns stored from slot `first` on.
pub open spec fn new_pawn_ids(first: nat, n: nat) -> Seq<Id> {
    Seq::new(n, |m: int| Id { index: (first + m) as u32, type_id: EntityType::Pawn })
}

/// `p` is a freshly spawned pawn `id` of kind `ptyp` on `tile` of `team`, working at `home`.
pub open spec fn is_new_worker(p: Option<Pawn>, id: Id, ptyp: PawnTyp, tile: TilePos, team: crate::team::Team, home: Id) -> bool {
    p matches Some(p) && {
        &&& p.typ == ptyp
        &&& p.base == (Base { id, ..Base::new_spec(tile, team, crate::pawn_typ::spec_pawn_health(ptyp)) })
        &&& p.home == Some(home)
        &&& p.cargo is None
        &&& p.task == crate::pawn::Task::Idle
        &&& p.route@ == crate::route::route_set(Seq::empty())
    }
}

impl G {
    /// Whether a building of kind `typ` may cover `tile`: the terrain suits it and no
    /// building covers the tile yet.
    pub open spec fn spec_is_buildable(&self, tile: TilePos, typ: BuildingTyp) -> bool {
        &&& spec_can_build_on(typ, self.tilemap.spec_at(tile))
        &&& forall|i: int| 0 <= i < self.buildings@.len() && (#[trigger] self.buildings@[i]) is Some
            ==> !spec_contains(self.buildings@[i].unwrap().spec_bounds(), tile)
    }

    /// Whether a building of kind `typ` with top left tile `tile` can be placed: every
    /// tile of its footprint is buildable.
    pub open spec fn footprint_buildable(&self, tile: TilePos, typ: BuildingTyp) -> bool {
        forall|p: TilePos| spec_contains(spec_footprint(tile, typ), p) ==> #[trigger] self.spec_is_buildable(p, typ)
    }

    /// Whether a building of kind `typ` may cover `tile`.
    pub fn is_buildable(&self, tile: TilePos, typ: BuildingTyp) -> (r: bool)
        requires
            self.wf(),
        ensures
            r == self.spec_is_buildable(tile, typ),
    {
        if !typ.can_build_on(self.tilemap.at(tile)) {
            return false;
        }
        let mut i: usize = 0;
        while i < self.buildings.len()
            invariant
                self.wf(),
                i <= self.buildings@.len(),
                forall|j: int| 0 <= j < i && (#[trigger] self.buildings@[j]) is Some ==> !spec_contains(self.buildings@[j].unwrap().spec_bounds(), tile),
            decreases self.buildings.len() - i,
        {
            match &self.buildings[i] {
                Some(b) => {
                    if b.bounds().contains(tile) {
                        return false;
                    }
                },
                None => {},
            }
            i = i + 1;
        }
        true
    }

    /// Whether a building of kind `typ` with top left tile `tile` can be placed.
    pub fn can_build(&self, tile: TilePos, typ: BuildingTyp) -> (r: bool)
        requires
            self.wf(),
            crate::building::footprint_fits(tile, typ),
        ensures
            r == self.footprint_buildable(tile, typ),
    {
        let size = typ.size();
        let x_end: i16 = tile.0 + size.0 as i16;
        let y_end: i16 = tile.1 + size.1 as i16;
        let mut x: i16 = tile.0;
        while x < x_end
            invariant
                self.wf(),
                tile.0 <= x <= x_end,
                x_end == tile.0 + crate::building_typ::spec_size(typ).0,
                y_end == tile.1 + crate::building_typ::spec_size(typ).1,
                forall|p: TilePos| spec_contains(spec_footprint(tile, typ), p) && p.0 < x ==> #[trigger] self.spec_is_buildable(p, typ),
            decreases x_end - x,
        {
            let mut y: i16 = tile.1;
            while y < y_end
                invariant
                    self.wf(),
                    tile.0 <= x < x_end,
                    tile.1 <= y <= y_end,
                    x_end == tile.0 + crate::building_typ::spec_size(typ).0,
                    y_end == tile.1 + crate::building_typ::spec_size(typ).1,
                    forall|p: TilePos| spec_contains(spec_footprint(tile, typ), p) && (p.0 < x || (p.0 == x && p.1 < y))
                        ==> #[trigger] self.spec_is_buildable(p, typ),
                decreases y_end - y,
            {
                if !self.is_buildable((x, y), typ) {
                    assert(spec_contains(spec_footprint(tile, typ), (x, y)));
                    return false;
                }
                y = y + 1;
            }
            x = x + 1;
        }
        true
    }

    /// Spawn the default workers of building `bid` on its tile, one after the other,
    /// each assigned to the building (they join the end of its workers).
    pub fn spawn_default_workers(&mut self, bid: Id)
        requires
            old(self).wf(),
            old(self).get_building(bid) is Some,
            old(self).pawns@.len() + 12 < u32::MAX,
        ensures
            ui_kept(*old(self), *final(self)),
            final(self).wf(),
            ({
                let b = old(self).get_building(bid).unwrap();
                let (ptyp, n) = spec_default_workers(b.typ);
                let ids = new_pawn_ids(old(self).pawns@.len(), n as nat);
                &&& final(self).get_building(bid) matches Some(b2) && building_with_workers(b, b2, b.workers@ + ids)
                &&& final(self).pawns@.len() == old(self).pawns@.len() + n
                &&& forall|m: int| 0 <= m < n ==> is_new_worker(#[trigger] final(self).get_pawn(ids[m]), ids[m], ptyp,
                    b.base.tile, b.base.team, bid)
            }),
            forall|i: int| 0 <= i < old(self).pawns@.len() ==> #[trigger] final(self).pawns@[i] == old(self).pawns@[i],
            forall|c: Id| c != bid ==> #[trigger] final(self).get_building(c) == old(self).get_building(c),
            final(self).buildings@.len() == old(self).buildings@.len(),
            final(self).tilemap == old(self).tilemap,
            final(self).resources@ == old(self).resources@,
            final(self).effects@ == old(self).effects@,
            final(self).tick == old(self).tick,
    {
        let bi = bid.index as usize;
        let (tile, team, typ) = match &self.buildings[bi] {
            Some(b) => (b.base.tile, b.base.team, b.typ),
            None => {
                proof { assert(false); }
                return;
            },
        };
        let ghost g0 = *self;
        let ghost b0 = g0.get_building(bid).unwrap();
        let (ptyp, n) = typ.default_workers();
        proof { assert(b0.workers@ + new_pawn_ids(g0.pawns@.len(), 0) =~= b0.workers@); }
        let mut k: usize = 0;
        while k < n
            invariant
                g0.wf(),
                self.wf(),
                ui_kept(g0, *self),
                0 <= k <= n,
                g0.get_building(bid) == Some(b0),
                b0.base.tile == tile,
                b0.base.team == team,
                b0.typ == typ,
                (ptyp, n) == spec_default_workers(typ),
                self.pawns@.len() == g0.pawns@.len() + k,
                g0.pawns@.len() + 12 < u32::MAX,
                self.buildings@.len() == g0.buildings@.len(),
                self.get_building(bid) matches Some(b) && building_with_workers(b0, b, b0.workers@ + new_pawn_ids(g0.pawns@.len(), k as nat)),
                forall|m: int| 0 <= m < k ==> is_new_worker(#[trigger] self.get_pawn(new_pawn_ids(g0.pawns@.len(), n as nat)[m]),
                    new_pawn_ids(g0.pawns@.len(), n as nat)[m], ptyp, tile, team, bid),
                forall|i: int| 0 <= i < g0.pawns@.len() ==> #[trigger] self.pawns@[i] == g0.pawns@[i],
                forall|c: Id| c != bid ==> #[trigger] self.get_building(c) == g0.get_building(c),
                self.tilemap == g0.tilemap,
                self.resources@ == g0.resources@,
                self.effects@ == g0.effects@,
                self.tick == g0.tick,
            decreases n - k,
        {
            let ghost before = *self;
            let newp = Pawn::new(ptyp, tile, team);
            let ghost newp_g = newp;
            let pid = self.spawn_pawn(newp);
            let ghost mid = *self;
            proof {
                assert(spec_default_workers(typ).0 == PawnTyp::Cat || spec_default_workers(typ).0 == PawnTyp::Starfish);
                assert(crate::pawn_typ::spec_is_worker(ptyp));
                assert(self.get_building(bid) == before.get_building(bid));
                assert(self.get_building(bid).unwrap().base.team == team);
                assert(self.get_pawn(pid).unwrap().base.team == team);
                assert(self.get_pawn(pid).unwrap().typ == ptyp);
                assert(self.get_pawn(pid).unwrap().home is None);
            }
            self.assign_to(pid, bid);
            proof {
                let ids_k = new_pawn_ids(g0.pawns@.len(), k as nat);
                let ids_k1 = new_pawn_ids(g0.pawns@.len(), (k + 1) as nat);
                let ids_n = new_pawn_ids(g0.pawns@.len(), n as nat);
                let w0 = b0.workers@;
                assert(!(w0 + ids_k).contains(pid)) by {
                    if (w0 + ids_k).contains(pid) {
                        let m = choose|m: int| 0 <= m < (w0 + ids_k).len() && (w0 + ids_k)[m] == pid;
                        if m < w0.len() {
                            assert(g0.buildings@[bid.index as int].unwrap().workers@.contains(w0[m]));
                            assert(g0.get_pawn(w0[m]) is Some);
                        } else {
                            assert(ids_k[m - w0.len()].index == g0.pawns@.len() + m - w0.len());
                        }
                    }
                }
                assert(with_id(w0 + ids_k, pid) =~= w0 + ids_k1);
                assert(ids_n[k as int] == pid);
                assert forall|m: int| 0 <= m < k + 1 implies is_new_worker(#[trigger] self.get_pawn(ids_n[m]), ids_n[m], ptyp, tile, team, bid) by {
                    if m == k {
                        let p1 = mid.get_pawn(pid).unwrap();
                        let p2 = self.get_pawn(pid).unwrap();
                        assert(pawn_same_plan(newp_g, p1));
                        assert(crate::world::pawn_with_home(p1, p2, Some(bid)));
                        assert(p2.base == (Base { id: pid, ..Base::new_spec(tile, team, crate::pawn_typ::spec_pawn_health(ptyp)) }));
                    } else {
                        assert(before.get_pawn(ids_n[m]) is Some);
                        assert(ids_n[m] != pid);
                        assert(self.get_pawn(ids_n[m]) == mid.get_pawn(ids_n[m]));
                        assert(ids_n[m].index < before.pawns@.len());
                        assert(mid.pawns@[ids_n[m].index as int] == before.pawns@[ids_n[m].index as int]);
                    }
                }
                assert forall|i: int| 0 <= i < g0.pawns@.len() implies #[trigger] self.pawns@[i] == g0.pawns@[i] by {
                    let q = Id { index: i as u32, type_id: EntityType::Pawn };
                    assert(q != pid);
                    assert(self.get_pawn(q) == mid.get_pawn(q));
                    assert(mid.pawns@[i] == before.pawns@[i]);
                }
                assert forall|c: Id| c != bid implies #[trigger] self.get_building(c) == g0.get_building(c) by {
                    assert(self.get_building(c) == mid.get_building(c));
                    assert(mid.get_building(c) == before.get_building(c));
                }
            }
            k = k + 1;
        }
    }

    fn insert_building(&mut self, building: Building) -> (id: Id)
        requires
            old(self).wf(),
            old(self).buildings@.len() + 1 < u32::MAX,
            building.wf(),
            building.workers@.len() == 0,
        ensures
            ui_kept(*old(self), *final(self)),
            final(self).wf(),
            id == (Id { index: old(self).buildings@.len() as u32, type_id: EntityType::Building }),
            final(self).buildings@.len() == old(self).buildings@.len() + 1,
            forall|i: int| 0 <= i < old(self).buildings@.len() ==> #[trigger] final(self).buildings@[i] == old(self).buildings@[i],
            final(self).get_building(id) matches Some(b) && building_with_workers(
                Building { base: Base { id, ..building.base }, ..building }, b, Seq::empty()),
            final(self).pawns@ == old(self).pawns@,
            final(self).tilemap == old(self).tilemap,
            final(self).resources@ == old(self).resources@,
            final(self).effects@ == old(self).effects@,
            final(self).tick == old(self).tick,
    {
        let mut building = building;
        let id = Id { index: self.buildings.len() as u32, type_id: EntityType::Building };
        building.base.id = id;
        let ghost old_g = *self;
        proof { assert(building.workers@ =~= Seq::<Id>::empty()); }
        self.buildings.push(Some(building));
        proof {
            assert forall|j: int| 0 <= j < self.buildings@.len() && (#[trigger] self.buildings@[j]) is Some implies {
                &&& self.buildings@[j].unwrap().wf()
                &&& self.buildings@[j].unwrap().base.id == (Id { index: j as u32, type_id: EntityType::Building })
            } by {
                if j < old_g.buildings@.len() {
                    assert(self.buildings@[j] == old_g.buildings@[j]);
                }
            }
            assert forall|i: int| 0 <= i < self.pawns@.len() && (#[trigger] self.pawns@[i]) is Some && self.pawns@[i].unwrap().home is Some
                implies (self.get_building(self.pawns@[i].unwrap().home.unwrap()) matches Some(b)
                    && b.workers@.contains(self.pawns@[i].unwrap().base.id)) by {
                let h = self.pawns@[i].unwrap().home.unwrap();
                assert(old_g.get_building(h) is Some);
                assert(self.buildings@[h.index as int] == old_g.buildings@[h.index as int]);
            }
            assert forall|i: int, w: Id| 0 <= i < self.buildings@.len() && self.buildings@[i] is Some
                && (#[trigger] self.buildings@[i].unwrap().workers@.contains(w))
                implies (self.get_pawn(w) matches Some(p) && p.home == Some(self.buildings@[i].unwrap().base.id)) by {
                if i == old_g.buildings@.len() {
                    assert(self.buildings@[i].unwrap().workers@ =~= Seq::<Id>::empty());
                    assert(!self.buildings@[i].unwrap().workers@.contains(w));
                } else {
                    assert(self.buildings@[i] == old_g.buildings@[i]);
                    assert(old_g.buildings@[i].unwrap().workers@.contains(w));
                    assert(old_g.get_pawn(w) == self.get_pawn(w));
                }
            }
        }
        id
    }

    /// Place a building, if its whole footprint is buildable (otherwise nothing
    /// changes and `None` is returned). The building gets the next building
    /// identifier, and spawns its default workers on its tile, all assigned to it.
    pub fn spawn_building(&mut self, building: Building) -> (r: Option<Id>)
        requires
            old(self).wf(),
            old(self).buildings@.len() + 1 < u32::MAX,
            old(self).pawns@.len() + 12 < u32::MAX,
            building.wf(),
            building.workers@.len() == 0,
        ensures
            ui_kept(*old(self), *final(self)),
            final(self).wf(),
            r is Some <==> old(self).footprint_buildable(building.base.tile, building.typ),
            r is None ==> final(self).pawns@ == old(self).pawns@ && final(self).buildings@ == old(self).buildings@,
            r matches Some(id) ==> {
                let (ptyp, n) = spec_default_workers(building.typ);
                let ids = new_pawn_ids(old(self).pawns@.len(), n as nat);
                &&& id == (Id { index: old(self).buildings@.len() as u32, type_id: EntityType::Building })
                &&& final(self).buildings@.len() == old(self).buildings@.len() + 1
                &&& final(self).get_building(id) matches Some(b) && building_with_workers(
                    Building { base: Base { id, ..building.base }, ..building }, b, ids)
                &&& final(self).pawns@.len() == old(self).pawns@.len() + n
                &&& forall|m: int| 0 <= m < n ==> is_new_worker(#[trigger] final(self).get_pawn(ids[m]), ids[m], ptyp,
                    building.base.tile, building.base.team, id)
            },
            forall|i: int| 0 <= i < old(self).pawns@.len() ==> #[trigger] final(self).pawns@[i] == old(self).pawns@[i],
            forall|i: int| 0 <= i < old(self).buildings@.len() ==> #[trigger] final(self).buildings@[i] == old(self).buildings@[i],
            final(self).tilemap == old(self).tilemap,
            final(self).resources@ == old(self).resources@,
            final(self).tick == old(self).tick,
    {
        if !self.can_build(building.base.tile, building.typ) {
            return None;
        }
        let ghost b_in = building;
        let ghost g0 = *self;
        let bid = self.insert_building(building);
        let ghost g1 = *self;
        self.spawn_default_workers(bid);
        proof {
            let (ptyp, n) = spec_default_workers(b_in.typ);
            assert(Seq::<Id>::empty() + new_pawn_ids(g0.pawns@.len(), n as nat) =~= new_pawn_ids(g0.pawns@.len(), n as nat));
            assert forall|i: int| 0 <= i < g0.buildings@.len() implies #[trigger] self.buildings@[i] == g0.buildings@[i] by {
                let c = Id { index: i as u32, type_id: EntityType::Building };
                assert(self.get_building(c) == g1.get_building(c));
            }
        }
        Some(bid)
    }
}

impl Building {
    /// Whether this building, not yet placed, fits on the map of `g`: every tile of
    /// its footprint suits its kind and is free of other buildings.
    pub fn can_spawn(&self, g: &G) -> (r: bool)
        requires
            g.wf(),
            self.wf(),
        ensures
            r == g.footprint_buildable(self.base.tile, self.typ),
    {
        g.can_build(self.base.tile, self.typ)
    }
}

} // verus!
