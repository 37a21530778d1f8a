//! What the player's commands do to the game: selecting, the right-click action,
//! sending pawns, placing things, and advancing frames.
use vstd::prelude::*;
use crate::building::Building;
use crate::building_typ::BuildingTyp;
use crate::control::{Action, spec_contextual_action};
use crate::entity::{EntityType, Id};
use crate::geom::{TileBounds, TilePos, WorldPos, div_trunc, spec_contains, spec_overlaps};
use crate::pawn::Pawn;
use crate::pawn_typ::{PawnTyp, spec_can_move};
use crate::team::Team;
use crate::entity::{Base, spec_sleep_more};
use crate::world::{G, buildings_kept, lemma_building_replaced, lemma_pawn_replaced};
use crate::pathfinder::region_fits;
use crate::route::route_set;
use crate::world_route::{MAX_PATH_DIST, maybe_routed, path_owed, pawn_with_route, route_leads_to};

verus! {

/// The one-tile rectangle of tile `t`.
pub open spec fn unit_bounds(t: TilePos) -> TileBounds {
    TileBounds { min: t, max: ((t.0 + 1) as i16, (t.1 + 1) as i16) }
}

/// Identifiers of the pawns among the first `n` slots of `g` whose tile lies in
/// `sel`, in slot order.
pub open spec fn pawns_in(g: G, sel: TileBounds, n: nat) -> Seq<Id>
    decreases n,
{
    if n == 0 {
        Seq::empty()
    } else if g.pawns@[n - 1] is Some && spec_overlaps(sel, unit_bounds(g.pawns@[n - 1].unwrap().base.tile)) {
        pawns_in(g, sel, (n - 1) as nat).push(g.pawns@[n - 1].unwrap().base.id)
    } else {
        pawns_in(g, sel, (n - 1) as nat)
    }
}

/// Identifiers of the buildings among the first `n` slots of `g` whose footprint
/// overlaps `sel`, in slot order.
pub open spec fn buildings_in(g: G, sel: TileBounds, n: nat) -> Seq<Id>
    decreases n,
{
    if n == 0 {
        Seq::empty()
    } else if g.buildings@[n - 1] is Some && spec_overlaps(sel, g.buildings@[n - 1].unwrap().spec_bounds()) {
        buildings_in(g, sel, (n - 1) as nat).push(g.buildings@[n - 1].unwrap().base.id)
    } else {
        buildings_in(g, sel, (n - 1) as nat)
    }
}

/// The tile rectangle spanned by the tiles of world positions `a` and `b` (both
/// corners included).
pub open spec fn drag_rect(a: WorldPos, b: WorldPos) -> TileBounds {
    let ta = (div_trunc(a.0 as int, 24), div_trunc(a.1 as int, 24));
    let tb = (div_trunc(b.0 as int, 24), div_trunc(b.1 as int, 24));
    TileBounds {
        min: ((if ta.0 <= tb.0 { ta.0 } else { tb.0 }) as i16, (if ta.1 <= tb.1 { ta.1 } else { tb.1 }) as i16),
        max: (((if ta.0 <= tb.0 { tb.0 } else { ta.0 }) + 1) as i16, ((if ta.1 <= tb.1 { tb.1 } else { ta.1 }) + 1) as i16),
    }
}

/// Dragging from either corner spans the same rectangle, so it selects the same
/// entities.
pub proof fn lemma_drag_rect_symmetric(a: WorldPos, b: WorldPos)
    ensures
        drag_rect(a, b) == drag_rect(b, a),
{
}

/// Whether the tiles of world position `p` have coordinates below the largest tile
/// coordinate (so that a rectangle can reach one past them).
pub open spec fn drag_pos_ok(p: WorldPos) -> bool {
    i16::MIN <= div_trunc(p.0 as int, 24) < i16::MAX && i16::MIN <= div_trunc(p.1 as int, 24) < i16::MAX
}

/// Whether the tiles of world position `p` have coordinates below the largest tile
/// coordinate (so that a rectangle can reach one past them).
pub fn drag_pos_valid(p: WorldPos) -> (r: bool)
    ensures
        r == drag_pos_ok(p),
{
    let x = p.0 / crate::geom::TILE_ISIZE;
    let y = p.1 / crate::geom::TILE_ISIZE;
    i16::MIN as i32 <= x && x < i16::MAX as i32 && i16::MIN as i32 <= y && y < i16::MAX as i32
}

/// Whether some building's footprint covers `tile`.
pub open spec fn building_covers(g: G, tile: TilePos) -> bool {
    exists|j: int| 0 <= j < g.buildings@.len() && (#[trigger] g.buildings@[j]) is Some
        && spec_contains(g.buildings@[j].unwrap().spec_bounds(), tile)
}

/// Whether some selected entity is a pawn that can move.
pub open spec fn some_selected_mover(g: G) -> bool {
    exists|k: int| 0 <= k < g.selected_entity_ids@.len() && (#[trigger] g.get_pawn(g.selected_entity_ids@[k])) is Some
        && spec_can_move(g.get_pawn(g.selected_entity_ids@[k]).unwrap().typ)
}

/// Whether some entity (a pawn on it, or a building covering it) occupies `tile`.
pub open spec fn tile_occupied(g: G, tile: TilePos) -> bool {
    ||| building_covers(g, tile)
    ||| exists|j: int| 0 <= j < g.pawns@.len() && (#[trigger] g.pawns@[j]) is Some && g.pawns@[j].unwrap().base.tile == tile
}

/// Whether pawn `p`, sent to `dest`, gets the one-tile route to `dest` whatever the
/// path search does: it can move, already stands on `dest`, and the search area
/// around it fits in the coordinate range.
pub open spec fn routed_in_place(p: Pawn, dest: TilePos) -> bool {
    spec_can_move(p.typ) && region_fits(p.base.tile, MAX_PATH_DIST) && p.base.tile == dest
}

/// What sending the selected pawns to `dest` does to `g0` (giving `g1`): each
/// selected pawn may get a new route to `dest`, and does whenever a walk there
/// exists within the search area (one that stands on `dest` gets the route made of
/// that tile); nothing else changes.
pub open spec fn move_outcome(g0: G, g1: G, dest: TilePos) -> bool {
    &&& g1.pawns@.len() == g0.pawns@.len()
    &&& forall|j: int| 0 <= j < g0.pawns@.len() ==> {
        &&& (#[trigger] g1.pawns@[j] is Some) == g0.pawns@[j] is Some
        &&& g0.pawns@[j] is Some ==> maybe_routed(g0.pawns@[j].unwrap(), g1.pawns@[j].unwrap(), dest, g0.tilemap)
        &&& !g0.selected_entity_ids@.contains(Id { index: j as u32, type_id: EntityType::Pawn })
            ==> g1.pawns@[j] == g0.pawns@[j]
    }
    &&& forall|j: int| 0 <= j < g0.pawns@.len() && g0.selected_entity_ids@.contains(Id { index: j as u32, type_id: EntityType::Pawn })
        && (#[trigger] g0.pawns@[j]) is Some && routed_in_place(g0.pawns@[j].unwrap(), dest)
        ==> g1.pawns@[j].unwrap().route@ == route_set(seq![dest])
    &&& forall|j: int| 0 <= j < g0.pawns@.len() && g0.selected_entity_ids@.contains(Id { index: j as u32, type_id: EntityType::Pawn })
        && (#[trigger] g0.pawns@[j]) is Some && path_owed(g0.pawns@[j].unwrap(), dest, g0.tilemap)
        ==> pawn_with_route(g0.pawns@[j].unwrap(), g1.pawns@[j].unwrap())
            && route_leads_to(g0.pawns@[j].unwrap(), g1.pawns@[j].unwrap(), dest, g0.tilemap)
    &&& g1.buildings@ == g0.buildings@
    &&& g1.tilemap == g0.tilemap
    &&& g1.resources@ == g0.resources@
    &&& g1.effects@ == g0.effects@
    &&& g1.selected_entity_ids@ == g0.selected_entity_ids@
    &&& g1.tick == g0.tick
}

impl G {
    /// Select the entities under a dragged rectangle: the selection becomes the
    /// pawns whose tile, then the buildings whose footprint, overlaps the rectangle
    /// of tiles from the tile of `start` to the tile of `end` (both included); the
    /// pawn selection becomes those pawns.
    pub fn select_in_rect(&mut self, start: WorldPos, end: WorldPos)
        requires
            old(self).wf(),
            drag_pos_ok(start),
            drag_pos_ok(end),
        ensures
            final(self).wf(),
            ({
                let sel = drag_rect(start, end);
                &&& final(self).selected_entity_ids@ == pawns_in(*old(self), sel, old(self).pawns@.len())
                    + buildings_in(*old(self), sel, old(self).buildings@.len())
                &&& final(self).selected_pawn_ids@ == pawns_in(*old(self), sel, old(self).pawns@.len())
            }),
            *final(self) == (G {
                selected_entity_ids: final(self).selected_entity_ids,
                selected_pawn_ids: final(self).selected_pawn_ids,
                ..*old(self)
            }),
    {
        let ta = crate::geom::pos_to_tile(start);
        let tb = crate::geom::pos_to_tile(end);
        let min = (if ta.0 <= tb.0 { ta.0 } else { tb.0 }, if ta.1 <= tb.1 { ta.1 } else { tb.1 });
        let max = (if ta.0 <= tb.0 { tb.0 } else { ta.0 }, if ta.1 <= tb.1 { tb.1 } else { ta.1 });
        let sel = TileBounds { min, max: (max.0 + 1, max.1 + 1) };
        proof { assert(sel == drag_rect(start, end)); }
        let ghost g0 = *self;
        let mut ids: Vec<Id> = Vec::new();
        let mut pawn_ids: Vec<Id> = Vec::new();
        let mut i: usize = 0;
        while i < self.pawns.len()
            invariant
                *self == g0,
                i <= g0.pawns@.len(),
                ids@ == pawns_in(g0, sel, i as nat),
                pawn_ids@ == ids@,
            decreases self.pawns.len() - i,
        {
            match &self.pawns[i] {
                Some(p) => {
                    let t = p.base.tile;
                    if t.0 < i16::MAX && t.1 < i16::MAX {
                        let unit = TileBounds { min: t, max: (t.0 + 1, t.1 + 1) };
                        if sel.overlaps(&unit) {
                            ids.push(p.base.id);
                            pawn_ids.push(p.base.id);
                        }
                    } else {
                        proof { assert(!spec_overlaps(sel, unit_bounds(t))); }
                    }
                },
                None => {},
            }
            i = i + 1;
        }
        let ghost np = ids@;
        let mut j: usize = 0;
        while j < self.buildings.len()
            invariant
                *self == g0,
                g0.wf(),
                np == pawns_in(g0, sel, g0.pawns@.len()),
                j <= g0.buildings@.len(),
                ids@ == np + buildings_in(g0, sel, j as nat),
            decreases self.buildings.len() - j,
        {
            match &self.buildings[j] {
                Some(b) => {
                    proof { assert(g0.buildings@[j as int].unwrap().wf()); }
                    let bb = b.bounds();
                    if sel.overlaps(&bb) {
                        ids.push(b.base.id);
                        proof { assert(ids@ =~= np + buildings_in(g0, sel, (j + 1) as nat)); }
                    }
                },
                None => {},
            }
            j = j + 1;
        }
        self.selected_entity_ids = ids;
        self.selected_pawn_ids = pawn_ids;
    }

    /// Whether some building's footprint covers `tile`.
    pub fn building_under(&self, tile: TilePos) -> (r: bool)
        requires
            self.wf(),
        ensures
            r == building_covers(*self, tile),
    {
        let mut j: usize = 0;
        while j < self.buildings.len()
            invariant
                self.wf(),
                j <= self.buildings@.len(),
                forall|k: int| 0 <= k < j && (#[trigger] self.buildings@[k]) is Some
                    ==> !spec_contains(self.buildings@[k].unwrap().spec_bounds(), tile),
            decreases self.buildings.len() - j,
        {
            match &self.buildings[j] {
                Some(b) => {
                    proof { assert(self.buildings@[j as int].unwrap().wf()); }
                    if b.bounds().contains(tile) {
                        return true;
                    }
                },
                None => {},
            }
            j = j + 1;
        }
        false
    }

    /// Whether some selected entity is a pawn that can move.
    pub fn selection_can_move(&self) -> (r: bool)
        ensures
            r == some_selected_mover(*self),
    {
        let mut k: usize = 0;
        while k < self.selected_entity_ids.len()
            invariant
                k <= self.selected_entity_ids@.len(),
                forall|m: int| 0 <= m < k && (#[trigger] self.get_pawn(self.selected_entity_ids@[m])) is Some
                    ==> !spec_can_move(self.get_pawn(self.selected_entity_ids@[m]).unwrap().typ),
            decreases self.selected_entity_ids.len() - k,
        {
            let id = self.selected_entity_ids[k];
            match self.pawn(id) {
                Some(p) => {
                    if p.can_move() {
                        return true;
                    }
                },
                None => {},
            }
            k = k + 1;
        }
        false
    }

    /// Update what a right click does: assign when a building covers the tile under
    /// the mouse, move when a selected pawn can move, nothing otherwise.
    pub fn update_contextual_action(&mut self, mouse: TilePos)
        requires
            old(self).wf(),
        ensures
            final(self).wf(),
            *final(self) == (G {
                contextual_action: spec_contextual_action(building_covers(*old(self), mouse), some_selected_mover(*old(self))),
                ..*old(self)
            }),
    {
        let under = self.building_under(mouse);
        let mover = self.selection_can_move();
        self.contextual_action = crate::control::contextual_action(under, mover);
    }

    /// Send every selected pawn to `dest`: each one that can move and for which a
    /// walk to `dest` exists within the search area gets a route there; the others
    /// keep their routes.
    pub fn command_move(&mut self, dest: TilePos)
        requires
            old(self).wf(),
        ensures
            final(self).wf(),
            move_outcome(*old(self), *final(self), dest),
    {
        let ghost g0 = *self;
        let mut k: usize = 0;
        while k < self.selected_entity_ids.len()
            invariant
                self.wf(),
                g0.wf(),
                k <= self.selected_entity_ids@.len(),
                self.selected_entity_ids@ == g0.selected_entity_ids@,
                self.pawns@.len() == g0.pawns@.len(),
                forall|j: int| 0 <= j < g0.pawns@.len() ==> {
                    &&& (#[trigger] self.pawns@[j] is Some) == g0.pawns@[j] is Some
                    &&& g0.pawns@[j] is Some ==> maybe_routed(g0.pawns@[j].unwrap(), self.pawns@[j].unwrap(), dest, g0.tilemap)
                    &&& !g0.selected_entity_ids@.subrange(0, k as int).contains(Id { index: j as u32, type_id: EntityType::Pawn })
                        ==> self.pawns@[j] == g0.pawns@[j]
                },
                forall|j: int| 0 <= j < g0.pawns@.len()
                    && g0.selected_entity_ids@.subrange(0, k as int).contains(Id { index: j as u32, type_id: EntityType::Pawn })
                    && (#[trigger] g0.pawns@[j]) is Some && routed_in_place(g0.pawns@[j].unwrap(), dest)
                    ==> self.pawns@[j].unwrap().route@ == route_set(seq![dest]),
                forall|j: int| 0 <= j < g0.pawns@.len()
                    && g0.selected_entity_ids@.subrange(0, k as int).contains(Id { index: j as u32, type_id: EntityType::Pawn })
                    && (#[trigger] g0.pawns@[j]) is Some && path_owed(g0.pawns@[j].unwrap(), dest, g0.tilemap)
                    ==> pawn_with_route(g0.pawns@[j].unwrap(), self.pawns@[j].unwrap())
                        && route_leads_to(g0.pawns@[j].unwrap(), self.pawns@[j].unwrap(), dest, g0.tilemap),
                self.buildings@ == g0.buildings@,
                self.tilemap == g0.tilemap,
                self.resources@ == g0.resources@,
                self.effects@ == g0.effects@,
                self.tick == g0.tick,
            decreases self.selected_entity_ids.len() - k,
        {
            let id = self.selected_entity_ids[k];
            let is_pawn = self.pawn(id).is_some();
            let ghost before = *self;
            if is_pawn {
                let pi = id.index as usize;
                let found = self.set_destination(pi, dest);
                proof {
                    assert forall|j: int| 0 <= j < g0.pawns@.len() implies {
                        &&& (#[trigger] self.pawns@[j] is Some) == g0.pawns@[j] is Some
                        &&& g0.pawns@[j] is Some ==> maybe_routed(g0.pawns@[j].unwrap(), self.pawns@[j].unwrap(), dest, g0.tilemap)
                        &&& !g0.selected_entity_ids@.subrange(0, k + 1).contains(Id { index: j as u32, type_id: EntityType::Pawn })
                            ==> self.pawns@[j] == g0.pawns@[j]
                    } by {
                        if j == pi as int {
                            let p0 = g0.pawns@[j].unwrap();
                            let p1 = before.pawns@[j].unwrap();
                            let p2 = self.pawns@[j].unwrap();
                            assert(g0.selected_entity_ids@.subrange(0, k + 1)[k as int] == id);
                            assert(id == (Id { index: j as u32, type_id: EntityType::Pawn }));
                            if p2 != p1 {
                                let path = choose|path: Seq<TilePos>| #[trigger] crate::world_route::is_pawn_walk(path, p1.base.tile, dest,
                                    crate::world_route::MAX_PATH_DIST, p1.typ, g0.tilemap) && p2.route@ == crate::route::route_set(path);
                                if p1 != p0 {
                                    assert(p1.base.tile == p0.base.tile && p1.typ == p0.typ);
                                }
                                assert(crate::world_route::is_pawn_walk(path, p0.base.tile, dest, crate::world_route::MAX_PATH_DIST, p0.typ, g0.tilemap));
                            }
                        } else {
                            if g0.selected_entity_ids@.subrange(0, k + 1).contains(Id { index: j as u32, type_id: EntityType::Pawn }) {
                            } else {
                                assert forall|m: int| 0 <= m < k implies g0.selected_entity_ids@.subrange(0, k as int)[m]
                                    == g0.selected_entity_ids@.subrange(0, k + 1)[m] by {}
                                assert(!g0.selected_entity_ids@.subrange(0, k as int).contains(Id { index: j as u32, type_id: EntityType::Pawn }));
                            }
                        }
                    }
                    assert forall|j: int| 0 <= j < g0.pawns@.len()
                        && g0.selected_entity_ids@.subrange(0, k + 1).contains(Id { index: j as u32, type_id: EntityType::Pawn })
                        && (#[trigger] g0.pawns@[j]) is Some && routed_in_place(g0.pawns@[j].unwrap(), dest)
                        implies self.pawns@[j].unwrap().route@ == route_set(seq![dest]) by {
                        let p0 = g0.pawns@[j].unwrap();
                        if j == pi as int {
                            let p1 = before.pawns@[j].unwrap();
                            assert(maybe_routed(p0, p1, dest, g0.tilemap));
                            assert(p1.base.tile == p0.base.tile && p1.typ == p0.typ);
                        } else {
                            let m = choose|m: int| 0 <= m < k + 1
                                && #[trigger] g0.selected_entity_ids@.subrange(0, k + 1)[m] == Id { index: j as u32, type_id: EntityType::Pawn };
                            assert(g0.selected_entity_ids@.subrange(0, k + 1)[k as int] == id);
                            assert(id == (Id { index: pi as u32, type_id: EntityType::Pawn }));
                            assert(m != k);
                            assert(g0.selected_entity_ids@.subrange(0, k as int)[m] == g0.selected_entity_ids@.subrange(0, k + 1)[m]);
                            assert(g0.selected_entity_ids@.subrange(0, k as int).contains(Id { index: j as u32, type_id: EntityType::Pawn }));
                            assert(self.pawns@[j] == before.pawns@[j]);
                        }
                    }
                    assert forall|j: int| 0 <= j < g0.pawns@.len()
                        && g0.selected_entity_ids@.subrange(0, k + 1).contains(Id { index: j as u32, type_id: EntityType::Pawn })
                        && (#[trigger] g0.pawns@[j]) is Some && path_owed(g0.pawns@[j].unwrap(), dest, g0.tilemap)
                        implies pawn_with_route(g0.pawns@[j].unwrap(), self.pawns@[j].unwrap())
                            && route_leads_to(g0.pawns@[j].unwrap(), self.pawns@[j].unwrap(), dest, g0.tilemap) by {
                        let p0 = g0.pawns@[j].unwrap();
                        if j == pi as int {
                            let p1 = before.pawns@[j].unwrap();
                            let p2 = self.pawns@[j].unwrap();
                            assert(maybe_routed(p0, p1, dest, g0.tilemap));
                            assert(p1.base.tile == p0.base.tile && p1.typ == p0.typ);
                            let w = choose|path: Seq<TilePos>| #[trigger] crate::world_route::is_pawn_walk(path, p0.base.tile, dest,
                                MAX_PATH_DIST, p0.typ, g0.tilemap);
                            assert(crate::world_route::is_pawn_walk(w, p1.base.tile, dest, MAX_PATH_DIST, p1.typ, before.tilemap));
                            assert(path_owed(p1, dest, before.tilemap));
                            assert(found is Some);
                            let path = choose|path: Seq<TilePos>| #[trigger] crate::world_route::is_pawn_walk(path, p1.base.tile, dest,
                                MAX_PATH_DIST, p1.typ, g0.tilemap) && p2.route@ == route_set(path);
                            assert(crate::world_route::is_pawn_walk(path, p0.base.tile, dest, MAX_PATH_DIST, p0.typ, g0.tilemap));
                        } else {
                            let m = choose|m: int| 0 <= m < k + 1
                                && #[trigger] g0.selected_entity_ids@.subrange(0, k + 1)[m] == Id { index: j as u32, type_id: EntityType::Pawn };
                            assert(g0.selected_entity_ids@.subrange(0, k + 1)[k as int] == id);
                            assert(m != k);
                            assert(g0.selected_entity_ids@.subrange(0, k as int)[m] == g0.selected_entity_ids@.subrange(0, k + 1)[m]);
                            assert(g0.selected_entity_ids@.subrange(0, k as int).contains(Id { index: j as u32, type_id: EntityType::Pawn }));
                            assert(self.pawns@[j] == before.pawns@[j]);
                        }
                    }
                }
            } else {
                proof {
                    assert forall|j: int| 0 <= j < g0.pawns@.len() && !g0.selected_entity_ids@.subrange(0, k + 1).contains(
                        Id { index: j as u32, type_id: EntityType::Pawn }) implies #[trigger] self.pawns@[j] == g0.pawns@[j] by {
                        assert forall|m: int| 0 <= m < k implies g0.selected_entity_ids@.subrange(0, k as int)[m]
                            == g0.selected_entity_ids@.subrange(0, k + 1)[m] by {}
                        assert(!g0.selected_entity_ids@.subrange(0, k as int).contains(Id { index: j as u32, type_id: EntityType::Pawn }));
                    }
                    assert forall|j: int| 0 <= j < g0.pawns@.len()
                        && g0.selected_entity_ids@.subrange(0, k + 1).contains(Id { index: j as u32, type_id: EntityType::Pawn })
                        && (#[trigger] g0.pawns@[j]) is Some && routed_in_place(g0.pawns@[j].unwrap(), dest)
                        implies self.pawns@[j].unwrap().route@ == route_set(seq![dest]) by {
                        let m = choose|m: int| 0 <= m < k + 1
                            && #[trigger] g0.selected_entity_ids@.subrange(0, k + 1)[m] == Id { index: j as u32, type_id: EntityType::Pawn };
                        assert(g0.selected_entity_ids@.subrange(0, k + 1)[k as int] == id);
                        if m == k {
                            assert(self.pawns@[j] is Some);
                            assert(self.get_pawn(id) is Some);
                        } else {
                            assert(g0.selected_entity_ids@.subrange(0, k as int)[m] == g0.selected_entity_ids@.subrange(0, k + 1)[m]);
                            assert(g0.selected_entity_ids@.subrange(0, k as int).contains(Id { index: j as u32, type_id: EntityType::Pawn }));
                        }
                    }
                    assert forall|j: int| 0 <= j < g0.pawns@.len()
                        && g0.selected_entity_ids@.subrange(0, k + 1).contains(Id { index: j as u32, type_id: EntityType::Pawn })
                        && (#[trigger] g0.pawns@[j]) is Some && path_owed(g0.pawns@[j].unwrap(), dest, g0.tilemap)
                        implies pawn_with_route(g0.pawns@[j].unwrap(), self.pawns@[j].unwrap())
                            && route_leads_to(g0.pawns@[j].unwrap(), self.pawns@[j].unwrap(), dest, g0.tilemap) by {
                        let m = choose|m: int| 0 <= m < k + 1
                            && #[trigger] g0.selected_entity_ids@.subrange(0, k + 1)[m] == Id { index: j as u32, type_id: EntityType::Pawn };
                        assert(g0.selected_entity_ids@.subrange(0, k + 1)[k as int] == id);
                        if m == k {
                            assert(self.pawns@[j] is Some);
                            assert(self.get_pawn(id) is Some);
                        } else {
                            assert(g0.selected_entity_ids@.subrange(0, k as int)[m] == g0.selected_entity_ids@.subrange(0, k + 1)[m]);
                            assert(g0.selected_entity_ids@.subrange(0, k as int).contains(Id { index: j as u32, type_id: EntityType::Pawn }));
                        }
                    }
                }
            }
            k = k + 1;
        }
        proof {
            assert(g0.selected_entity_ids@.subrange(0, g0.selected_entity_ids@.len() as int) =~= g0.selected_entity_ids@);
        }
    }

    /// Place a new pawn of kind `typ` for `team` on `tile`, unless a pawn stands there
    /// or a building covers it. Returns the new pawn's identifier.
    pub fn doodle_pawn(&mut self, typ: PawnTyp, tile: TilePos, team: Team) -> (r: Option<Id>)
        requires
            old(self).wf(),
            old(self).pawns@.len() + 1 < u32::MAX,
        ensures
            final(self).wf(),
            r is Some <==> !tile_occupied(*old(self), tile),
            r is None ==> *final(self) == *old(self),
            r matches Some(id) ==> {
                &&& id == (Id { index: old(self).pawns@.len() as u32, type_id: EntityType::Pawn })
                &&& final(self).pawns@.len() == old(self).pawns@.len() + 1
                &&& final(self).get_pawn(id) matches Some(p) && p.typ == typ && p.base.tile == tile && p.base.team == team
                    && p.home is None && p.cargo is None && p.task == crate::pawn::Task::Idle
            },
            forall|i: int| 0 <= i < old(self).pawns@.len() ==> #[trigger] final(self).pawns@[i] == old(self).pawns@[i],
            final(self).buildings@ == old(self).buildings@,
            final(self).tilemap == old(self).tilemap,
            final(self).resources@ == old(self).resources@,
            final(self).tick == old(self).tick,
    {
        if self.building_under(tile) {
            return None;
        }
        match self.pawn_at(tile) {
            Some(_) => None,
            None => Some(self.spawn_pawn(Pawn::new(typ, tile, team))),
        }
    }

    /// The team a building placed by the player belongs to: star nests belong to the
    /// pests, everything else to the player.
    pub fn placement_team(&self, typ: BuildingTyp) -> (t: Team)
        ensures
            t == (if typ == BuildingTyp::StarNest { Team(100) } else { self.player }),
    {
        match typ {
            BuildingTyp::StarNest => Team::pests(),
            _ => self.player,
        }
    }

    /// Advance one frame of a running game: returns whether a simulation tick is
    /// due (every `frames_per_tick` frames). A paused game does not advance.
    pub fn advance_frame(&mut self) -> (due: bool)
        requires
            old(self).frames_per_tick > 0,
            !old(self).paused ==> old(self).frame < u64::MAX,
        ensures
            old(self).paused ==> *final(self) == *old(self) && !due,
            !old(self).paused ==> *final(self) == (G { frame: (old(self).frame + 1) as u64, ..*old(self) })
                && due == ((old(self).frame + 1) % (old(self).frames_per_tick as int) == 0),
    {
        if self.paused {
            return false;
        }
        self.frame = self.frame + 1;
        self.frame % (self.frames_per_tick as u64) == 0
    }
}

/// Number of times `id` occurs in `s`.
pub open spec fn count_id(s: Seq<Id>, id: Id) -> nat
    decreases s.len(),
{
    if s.len() == 0 {
        0
    } else {
        count_id(s.drop_last(), id) + (if s.last() == id { 1nat } else { 0nat })
    }
}

/// Sleep counter after `n` times scheduling `t` more ticks of sleep.
pub open spec fn sleep_n(s: u8, t: u8, n: nat) -> u8
    decreases n,
{
    if n == 0 {
        s
    } else {
        spec_sleep_more(sleep_n(s, t, (n - 1) as nat), t)
    }
}

impl G {
    /// Stop logging the actions of every pawn.
    pub fn untrace_all(&mut self)
        requires
            old(self).wf(),
        ensures
            final(self).selected_pawn_ids@ == old(self).selected_pawn_ids@,
            final(self).wf(),
            final(self).pawns@.len() == old(self).pawns@.len(),
            forall|j: int| 0 <= j < old(self).pawns@.len() ==> (#[trigger] final(self).pawns@[j]) == (match old(self).pawns@[j] {
                Some(p) => Some(Pawn { base: Base { traced: false, ..p.base }, ..p }),
                None => None,
            }),
            final(self).buildings@ == old(self).buildings@,
            final(self).tilemap == old(self).tilemap,
            final(self).tick == old(self).tick,
    {
        let ghost g0 = *self;
        let mut j: usize = 0;
        while j < self.pawns.len()
            invariant
                self.wf(),
                j <= self.pawns@.len(),
                self.pawns@.len() == g0.pawns@.len(),
                forall|k: int| 0 <= k < g0.pawns@.len() ==> (#[trigger] self.pawns@[k]) == (if k < j {
                    match g0.pawns@[k] {
                        Some(p) => Some(Pawn { base: Base { traced: false, ..p.base }, ..p }),
                        None => None,
                    }
                } else {
                    g0.pawns@[k]
                }),
                self.buildings@ == g0.buildings@,
                self.selected_pawn_ids@ == g0.selected_pawn_ids@,
                self.tilemap == g0.tilemap,
                self.tick == g0.tick,
            decreases self.pawns.len() - j,
        {
            if self.pawns[j].is_some() {
                let ghost before = *self;
                let mut p = self.take_pawn(j);
                p.base.traced = false;
                self.put_pawn(j, p);
                proof { lemma_pawn_replaced(before, *self, j as int); }
            }
            j = j + 1;
        }
    }

    /// Log the actions of the selected pawns only.
    pub fn trace_selected(&mut self)
        requires
            old(self).wf(),
        ensures
            final(self).wf(),
            final(self).pawns@.len() == old(self).pawns@.len(),
            forall|j: int| 0 <= j < old(self).pawns@.len() ==> (#[trigger] final(self).pawns@[j]) == (match old(self).pawns@[j] {
                Some(p) => Some(Pawn { base: Base { traced: old(self).selected_pawn_ids@.contains(p.base.id), ..p.base }, ..p }),
                None => None,
            }),
            final(self).buildings@ == old(self).buildings@,
            final(self).tilemap == old(self).tilemap,
            final(self).tick == old(self).tick,
    {
        let ghost g0 = *self;
        self.untrace_all();
        let ghost g1 = *self;
        let mut j: usize = 0;
        while j < self.pawns.len()
            invariant
                self.wf(),
                g0.wf(),
                j <= self.pawns@.len(),
                self.pawns@.len() == g0.pawns@.len(),
                self.selected_pawn_ids@ == g0.selected_pawn_ids@,
                forall|k: int| 0 <= k < g0.pawns@.len() ==> (#[trigger] self.pawns@[k]) == (match g0.pawns@[k] {
                    Some(p) => Some(Pawn { base: Base { traced: k < j && g0.selected_pawn_ids@.contains(p.base.id), ..p.base }, ..p }),
                    None => None,
                }),
                self.buildings@ == g0.buildings@,
                self.tilemap == g0.tilemap,
                self.tick == g0.tick,
            decreases self.pawns.len() - j,
        {
            if self.pawns[j].is_some() {
                let id = Id { index: j as u32, type_id: EntityType::Pawn };
                let selected = crate::ids::contains_id(&self.selected_pawn_ids, id);
                proof { assert(g0.pawns@[j as int].unwrap().base.id == id); }
                if selected {
                    let ghost before = *self;
                    let mut p = self.take_pawn(j);
                    p.base.traced = true;
                    self.put_pawn(j, p);
                    proof { lemma_pawn_replaced(before, *self, j as int); }
                }
            }
            j = j + 1;
        }
    }
}

impl G {
    /// Kill every selected entity that still exists (pawns and buildings), in the
    /// order of the selection; the others live on.
    pub fn kill_selected(&mut self)
        requires
            old(self).wf(),
            old(self).tick + 30 <= u64::MAX,
        ensures
            final(self).wf(),
            forall|m: int| 0 <= m < old(self).selected_entity_ids@.len() ==> {
                &&& final(self).get_pawn(#[trigger] old(self).selected_entity_ids@[m]) is None
                &&& final(self).get_building(old(self).selected_entity_ids@[m]) is None
            },
            forall|q: Id| !old(self).selected_entity_ids@.contains(q) ==> {
                &&& (#[trigger] final(self).get_pawn(q)) is Some == old(self).get_pawn(q) is Some
                &&& final(self).get_building(q) is Some == old(self).get_building(q) is Some
            },
            crate::world::ui_kept(*old(self), *final(self)),
            final(self).tilemap == old(self).tilemap,
            final(self).tick == old(self).tick,
    {
        let ghost g0 = *self;
        let ghost sel = g0.selected_entity_ids@;
        let mut k: usize = 0;
        while k < self.selected_entity_ids.len()
            invariant
                self.wf(),
                k <= sel.len(),
                self.selected_entity_ids@ == sel,
                self.tick == g0.tick,
                g0.tick + 30 <= u64::MAX,
                crate::world::ui_kept(g0, *self),
                self.tilemap == g0.tilemap,
                forall|m: int| 0 <= m < k ==> {
                    &&& self.get_pawn(#[trigger] sel[m]) is None
                    &&& self.get_building(sel[m]) is None
                },
                forall|q: Id| !sel.take(k as int).contains(q) ==> {
                    &&& (#[trigger] self.get_pawn(q)) is Some == g0.get_pawn(q) is Some
                    &&& self.get_building(q) is Some == g0.get_building(q) is Some
                },
            decreases sel.len() - k,
        {
            let id = self.selected_entity_ids[k];
            let ghost before = *self;
            if self.pawn(id).is_some() {
                self.kill_pawn(id);
                proof {
                    assert forall|c: Id| (#[trigger] self.get_building(c)) is Some == before.get_building(c) is Some by {
                        let p = before.get_pawn(id).unwrap();
                        if p.home == Some(c) {
                            assert(before.pawns@[id.index as int] is Some);
                        }
                    }
                }
            } else if self.building(id).is_some() {
                self.kill_building(id);
            }
            proof {
                assert(sel.take(k + 1).drop_last() =~= sel.take(k as int));
                assert forall|m: int| 0 <= m < k + 1 implies {
                    &&& self.get_pawn(#[trigger] sel[m]) is None
                    &&& self.get_building(sel[m]) is None
                } by {
                    if m < k {
                        assert(before.get_pawn(sel[m]) is None && before.get_building(sel[m]) is None);
                    }
                }
                assert forall|q: Id| !sel.take(k + 1).contains(q) implies {
                    &&& (#[trigger] self.get_pawn(q)) is Some == g0.get_pawn(q) is Some
                    &&& self.get_building(q) is Some == g0.get_building(q) is Some
                } by {
                    assert(sel.take(k + 1)[k as int] == id);
                    assert(q != id);
                    assert(!sel.take(k as int).contains(q)) by {
                        if sel.take(k as int).contains(q) {
                            let m = choose|m: int| 0 <= m < k && sel.take(k as int)[m] == q;
                            assert(sel.take(k + 1)[m] == q);
                        }
                    }
                }
            }
            k = k + 1;
        }
        proof { assert(sel.take(sel.len() as int) =~= sel); }
    }

    /// Let every selected entity sleep `t` more ticks (an entity selected several
    /// times sleeps that many times more).
    pub fn sleep_selected(&mut self, t: u8)
        requires
            old(self).wf(),
        ensures
            final(self).wf(),
            final(self).pawns@.len() == old(self).pawns@.len(),
            final(self).buildings@.len() == old(self).buildings@.len(),
            forall|j: int| 0 <= j < old(self).pawns@.len() ==> (#[trigger] final(self).pawns@[j]) == (match old(self).pawns@[j] {
                Some(p) => Some(Pawn { base: Base { sleep: sleep_n(p.base.sleep, t, count_id(old(self).selected_entity_ids@, p.base.id)), ..p.base }, ..p }),
                None => None,
            }),
            forall|j: int| 0 <= j < old(self).buildings@.len() ==> (#[trigger] final(self).buildings@[j]) == (match old(self).buildings@[j] {
                Some(b) => Some(Building { base: Base { sleep: sleep_n(b.base.sleep, t, count_id(old(self).selected_entity_ids@, b.base.id)), ..b.base }, ..b }),
                None => None,
            }),
            final(self).tilemap == old(self).tilemap,
            final(self).resources@ == old(self).resources@,
            final(self).tick == old(self).tick,
    {
        let ghost g0 = *self;
        let ghost sel = g0.selected_entity_ids@;
        let mut k: usize = 0;
        while k < self.selected_entity_ids.len()
            invariant
                self.wf(),
                g0.wf(),
                k <= sel.len(),
                self.selected_entity_ids@ == sel,
                self.pawns@.len() == g0.pawns@.len(),
                self.buildings@.len() == g0.buildings@.len(),
                forall|j: int| 0 <= j < g0.pawns@.len() ==> (#[trigger] self.pawns@[j]) == (match g0.pawns@[j] {
                    Some(p) => Some(Pawn { base: Base { sleep: sleep_n(p.base.sleep, t, count_id(sel.take(k as int), p.base.id)), ..p.base }, ..p }),
                    None => None,
                }),
                forall|j: int| 0 <= j < g0.buildings@.len() ==> (#[trigger] self.buildings@[j]) == (match g0.buildings@[j] {
                    Some(b) => Some(Building { base: Base { sleep: sleep_n(b.base.sleep, t, count_id(sel.take(k as int), b.base.id)), ..b.base }, ..b }),
                    None => None,
                }),
                self.tilemap == g0.tilemap,
                self.resources@ == g0.resources@,
                self.tick == g0.tick,
            decreases sel.len() - k,
        {
            let id = self.selected_entity_ids[k];
            let ghost before = *self;
            proof { assert(sel.take(k + 1).drop_last() =~= sel.take(k as int)); }
            if self.pawn(id).is_some() {
                let pi = id.index as usize;
                let mut p = self.take_pawn(pi);
                p.base.sleep(t);
                self.put_pawn(pi, p);
                proof {
                    lemma_pawn_replaced(before, *self, pi as int);
                    assert forall|j: int| 0 <= j < g0.buildings@.len() implies (#[trigger] self.buildings@[j]) == (match g0.buildings@[j] {
                        Some(b) => Some(Building { base: Base { sleep: sleep_n(b.base.sleep, t, count_id(sel.take(k + 1), b.base.id)), ..b.base }, ..b }),
                        None => None,
                    }) by {
                        if g0.buildings@[j] is Some {
                            assert(g0.buildings@[j].unwrap().base.id.type_id == EntityType::Building);
                            assert(before.buildings@[j] is Some);
                        }
                    }
                    assert forall|j: int| 0 <= j < g0.pawns@.len() implies (#[trigger] self.pawns@[j]) == (match g0.pawns@[j] {
                        Some(p) => Some(Pawn { base: Base { sleep: sleep_n(p.base.sleep, t, count_id(sel.take(k + 1), p.base.id)), ..p.base }, ..p }),
                        None => None,
                    }) by {
                        if g0.pawns@[j] is Some {
                            assert(before.pawns@[j] is Some);
                            assert(g0.pawns@[j].unwrap().base.id == before.pawns@[j].unwrap().base.id);
                        }
                    }
                }
            } else if self.building(id).is_some() {
                let bi = id.index as usize;
                let mut b = self.take_building(bi);
                b.base.sleep(t);
                self.put_building(bi, b);
                proof {
                    lemma_building_replaced(before, *self, bi as int);
                    assert forall|j: int| 0 <= j < g0.buildings@.len() implies (#[trigger] self.buildings@[j]) == (match g0.buildings@[j] {
                        Some(b) => Some(Building { base: Base { sleep: sleep_n(b.base.sleep, t, count_id(sel.take(k + 1), b.base.id)), ..b.base }, ..b }),
                        None => None,
                    }) by {
                        if g0.buildings@[j] is Some {
                            assert(before.buildings@[j] is Some);
                            assert(g0.buildings@[j].unwrap().base.id == before.buildings@[j].unwrap().base.id);
                        }
                    }
                    assert forall|j: int| 0 <= j < g0.pawns@.len() implies (#[trigger] self.pawns@[j]) == (match g0.pawns@[j] {
                        Some(p) => Some(Pawn { base: Base { sleep: sleep_n(p.base.sleep, t, count_id(sel.take(k + 1), p.base.id)), ..p.base }, ..p }),
                        None => None,
                    }) by {
                        if g0.pawns@[j] is Some {
                            assert(g0.pawns@[j].unwrap().base.id.type_id == EntityType::Pawn);
                        }
                    }
                }
            } else {
                proof {
                    assert forall|j: int| 0 <= j < g0.pawns@.len() && g0.pawns@[j] is Some implies g0.pawns@[j].unwrap().base.id != id by {
                        assert(before.pawns@[j] is Some);
                    }
                    assert forall|j: int| 0 <= j < g0.buildings@.len() && g0.buildings@[j] is Some implies g0.buildings@[j].unwrap().base.id != id by {
                        assert(before.buildings@[j] is Some);
                    }
                }
            }
            k = k + 1;
        }
        proof { assert(sel.take(sel.len() as int) =~= sel); }
    }
}

} // verus!
