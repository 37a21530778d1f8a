//! Looking things up in the game state, and changing terrain and loose resources.
use vstd::prelude::*;
use crate::entity::{EntityType, Id};
use crate::geom::{TilePos, spec_contains_incl, spec_distance_squared};
use crate::building::{Building, slot_contents};
use crate::resource::{RESOURCE_COUNT, ResourceTyp, resource_code};
use crate::tile::{Tile, spec_default_walkable};
use crate::pawn::Pawn;
use crate::team::Team;
use crate::world::G;

verus! {

/// Amount of resource `r` in the (kind, amount) pairs `p`.
pub open spec fn amount_of(p: Seq<(ResourceTyp, u16)>, r: ResourceTyp) -> nat
    decreases p.len(),
{
    if p.len() == 0 {
        0
    } else {
        amount_of(p.drop_last(), r) + (if p.last().0 == r { p.last().1 as nat } else { 0 })
    }
}

/// Amount of resource `r` stored in the slots of the buildings `bs`.
pub open spec fn stock_of(bs: Seq<Option<Building>>, r: ResourceTyp) -> nat
    decreases bs.len(),
{
    if bs.len() == 0 {
        0
    } else {
        stock_of(bs.drop_last(), r) + match bs.last() {
            Some(b) => amount_of(slot_contents(b.spec_inputs() + b.spec_outputs()), r),
            None => 0,
        }
    }
}

proof fn lemma_amount_prefix(p: Seq<(ResourceTyp, u16)>, j: int, r: ResourceTyp)
    requires
        0 <= j <= p.len(),
    ensures
        amount_of(p.take(j), r) <= amount_of(p, r),
    decreases p.len(),
{
    if j < p.len() {
        lemma_amount_prefix(p.drop_last(), j, r);
        assert(p.drop_last().take(j) =~= p.take(j));
    } else {
        assert(p.take(j) =~= p);
    }
}

proof fn lemma_stock_prefix(bs: Seq<Option<Building>>, i: int, r: ResourceTyp)
    requires
        0 <= i <= bs.len(),
    ensures
        stock_of(bs.take(i), r) <= stock_of(bs, r),
    decreases bs.len(),
{
    if i < bs.len() {
        lemma_stock_prefix(bs.drop_last(), i, r);
        assert(bs.drop_last().take(i) =~= bs.take(i));
    } else {
        assert(bs.take(i) =~= bs);
    }
}

impl G {
    /// Tile (e.g. sand, water) at position `idx`.
    pub fn tile_at(&self, idx: TilePos) -> (t: Tile)
        requires
            self.wf(),
        ensures
            t == self.tilemap.spec_at(idx),
    {
        self.tilemap.at(idx)
    }

    /// Put resource `resource` on `tile` (replacing what lay there).
    pub fn spawn_resource(&mut self, tile: TilePos, resource: ResourceTyp)
        requires
            old(self).wf(),
        ensures
            final(self).wf(),
            final(self).resources@ == old(self).resources@.insert(tile, resource),
            final(self).pawns@ == old(self).pawns@,
            final(self).buildings@ == old(self).buildings@,
            final(self).tilemap == old(self).tilemap,
            final(self).tick == old(self).tick,
    {
        self.resources.insert(tile, resource);
    }

    /// Change the terrain at `idx` to `v`. A resource on a tile that is no longer
    /// walkable becomes unreachable and is removed.
    pub fn set_tile(&mut self, idx: TilePos, v: Tile)
        requires
            old(self).wf(),
        ensures
            final(self).wf(),
            final(self).tilemap.spec_size() == old(self).tilemap.spec_size(),
            crate::tilemap::in_map(old(self).tilemap.spec_size(), idx) ==> final(self).tilemap.spec_at(idx) == v,
            forall|p: TilePos| p != idx ==> #[trigger] final(self).tilemap.spec_at(p) == old(self).tilemap.spec_at(p),
            final(self).resources@ == (if spec_default_walkable(final(self).tilemap.spec_at(idx)) {
                old(self).resources@
            } else {
                old(self).resources@.remove(idx)
            }),
            final(self).pawns@ == old(self).pawns@,
            final(self).buildings@ == old(self).buildings@,
            final(self).tick == old(self).tick,
    {
        self.tilemap.set(idx, v);
        if !self.tilemap.at(idx).is_default_walkable() {
            self.resources.remove(idx);
        }
    }

    /// The first pawn (in storage order) standing on `tile`, if any.
    pub fn pawn_at(&self, tile: TilePos) -> (r: Option<Id>)
        requires
            self.wf(),
        ensures
            r matches Some(id) ==> self.get_pawn(id) matches Some(p) && p.base.tile == tile
                && forall|j: int| 0 <= j < id.index && (#[trigger] self.pawns@[j]) is Some ==> self.pawns@[j].unwrap().base.tile != tile,
            r is None ==> forall|j: int| 0 <= j < self.pawns@.len() && (#[trigger] self.pawns@[j]) is Some
                ==> self.pawns@[j].unwrap().base.tile != tile,
    {
        let mut i: usize = 0;
        while i < self.pawns.len()
            invariant
                self.wf(),
                i <= self.pawns@.len(),
                forall|j: int| 0 <= j < i && (#[trigger] self.pawns@[j]) is Some ==> self.pawns@[j].unwrap().base.tile != tile,
            decreases self.pawns.len() - i,
        {
            match &self.pawns[i] {
                Some(p) => {
                    if p.base.tile.0 == tile.0 && p.base.tile.1 == tile.1 {
                        return Some(p.base.id);
                    }
                },
                None => {},
            }
            i = i + 1;
        }
        None
    }

    /// The first building (in storage order) whose footprint, taken with its far
    /// edges included, covers `tile`, if any.
    pub fn building_at(&self, tile: TilePos) -> (r: Option<Id>)
        requires
            self.wf(),
        ensures
            r matches Some(id) ==> self.get_building(id) matches Some(b) && spec_contains_incl(b.spec_bounds(), tile)
                && forall|j: int| 0 <= j < id.index && (#[trigger] self.buildings@[j]) is Some
                    ==> !spec_contains_incl(self.buildings@[j].unwrap().spec_bounds(), tile),
            r is None ==> forall|j: int| 0 <= j < self.buildings@.len() && (#[trigger] self.buildings@[j]) is Some
                ==> !spec_contains_incl(self.buildings@[j].unwrap().spec_bounds(), tile),
    {
        let mut i: usize = 0;
        while i < self.buildings.len()
            invariant
                self.wf(),
                i <= self.buildings@.len(),
                forall|j: int| 0 <= j < i && (#[trigger] self.buildings@[j]) is Some
                    ==> !spec_contains_incl(self.buildings@[j].unwrap().spec_bounds(), tile),
            decreases self.buildings.len() - i,
        {
            match &self.buildings[i] {
                Some(b) => {
                    if b.bounds().contains_incl(tile) {
                        return Some(b.base.id);
                    }
                },
                None => {},
            }
            i = i + 1;
        }
        None
    }

    /// The nearest pawn strictly within `radius` of `around` for which `f` holds
    /// (the first in storage order among equally near ones), if any. `f` is asked
    /// only of pawns within the radius.
    ///
    /// Of a pawn that was not picked, nearer than the one picked (or within the
    /// radius, if none was), the contract states that `f` may answer `false` on it.
    pub fn find_pawn<F: Fn(&Pawn) -> bool>(&self, around: TilePos, radius: u16, f: F) -> (r: Option<Id>)
        requires
            self.wf(),
            radius <= 46340,
            forall|p: &Pawn| f.requires((p,)),
        ensures
            r matches Some(id) ==> self.get_pawn(id) matches Some(p) && {
                &&& call_ensures(f, (&p,), true)
                &&& spec_distance_squared(p.base.tile, around) < radius * radius
                &&& forall|j: int| 0 <= j < self.pawns@.len() && (#[trigger] self.pawns@[j]) is Some
                    && spec_distance_squared(self.pawns@[j].unwrap().base.tile, around) < radius * radius
                    && !call_ensures(f, (&self.pawns@[j].unwrap(),), false)
                    ==> spec_distance_squared(p.base.tile, around) <= spec_distance_squared(self.pawns@[j].unwrap().base.tile, around)
                        && (j < id.index ==> spec_distance_squared(p.base.tile, around) < spec_distance_squared(self.pawns@[j].unwrap().base.tile, around))
            },
            r is None ==> forall|j: int| 0 <= j < self.pawns@.len() && (#[trigger] self.pawns@[j]) is Some
                && spec_distance_squared(self.pawns@[j].unwrap().base.tile, around) < radius * radius
                ==> call_ensures(f, (&self.pawns@[j].unwrap(),), false),
    {
        assert(radius as int * radius as int <= 46340 * 46340) by (nonlinear_arith)
            requires
                radius <= 46340,
        ;
        let r2: i64 = radius as i64 * radius as i64;
        let mut best: Option<(usize, i64)> = None;
        let mut i: usize = 0;
        while i < self.pawns.len()
            invariant
                self.wf(),
                i <= self.pawns@.len(),
                r2 == radius * radius,
                forall|p: &Pawn| f.requires((p,)),
                best matches Some((b, d)) ==> b < i && self.pawns@[b as int] is Some && {
                    let p = self.pawns@[b as int].unwrap();
                    &&& call_ensures(f, (&p,), true)
                    &&& d == spec_distance_squared(p.base.tile, around)
                    &&& d < r2
                    &&& forall|j: int| 0 <= j < i && (#[trigger] self.pawns@[j]) is Some
                        && spec_distance_squared(self.pawns@[j].unwrap().base.tile, around) < r2
                        && !call_ensures(f, (&self.pawns@[j].unwrap(),), false)
                        ==> d <= spec_distance_squared(self.pawns@[j].unwrap().base.tile, around)
                            && (j < b ==> d < spec_distance_squared(self.pawns@[j].unwrap().base.tile, around))
                },
                best is None ==> forall|j: int| 0 <= j < i && (#[trigger] self.pawns@[j]) is Some
                    && spec_distance_squared(self.pawns@[j].unwrap().base.tile, around) < r2
                    ==> call_ensures(f, (&self.pawns@[j].unwrap(),), false),
            decreases self.pawns.len() - i,
        {
            match &self.pawns[i] {
                Some(p) => {
                    let d = crate::geom::distance_squared(p.base.tile, around);
                    if d < r2 {
                        if f(p) {
                            match best {
                                Some((_, bd)) => {
                                    if d < bd {
                                        best = Some((i, d));
                                    }
                                },
                                None => {
                                    best = Some((i, d));
                                },
                            }
                        }
                    }
                },
                None => {},
            }
            i = i + 1;
        }
        match best {
            Some((b, _)) => {
                proof { assert(self.pawns@[b as int] is Some); }
                match &self.pawns[b] {
                    Some(p) => Some(p.base.id),
                    None => None,
                }
            },
            None => None,
        }
    }

    /// The nearest pawn hostile to `team` strictly within `radius` of `around`
    /// (the first in storage order among equally near ones), if any.
    pub fn find_hostile_pawn(&self, around: TilePos, radius: u16, team: Team) -> (r: Option<Id>)
        requires
            self.wf(),
            radius <= 46340,
        ensures
            r matches Some(id) ==> self.get_pawn(id) matches Some(p) && {
                &&& p.base.team != team
                &&& spec_distance_squared(p.base.tile, around) < radius * radius
                &&& forall|j: int| 0 <= j < self.pawns@.len() && (#[trigger] self.pawns@[j]) is Some
                    && self.pawns@[j].unwrap().base.team != team
                    && spec_distance_squared(self.pawns@[j].unwrap().base.tile, around) < radius * radius
                    ==> spec_distance_squared(p.base.tile, around) <= spec_distance_squared(self.pawns@[j].unwrap().base.tile, around)
                        && (j < id.index ==> spec_distance_squared(p.base.tile, around) < spec_distance_squared(self.pawns@[j].unwrap().base.tile, around))
            },
            r is None ==> forall|j: int| 0 <= j < self.pawns@.len() && (#[trigger] self.pawns@[j]) is Some
                ==> !(self.pawns@[j].unwrap().base.team != team
                    && spec_distance_squared(self.pawns@[j].unwrap().base.tile, around) < radius * radius),
    {
        let hostile = |p: &Pawn| -> (b: bool)
            ensures
                b == (p.base.team != team),
            { p.base.team.is_hostile_to(team) };
        self.find_pawn(around, radius, hostile)
    }

    /// Add an entity to the selection (unless it is selected already).
    pub fn select_entity(&mut self, id: Id)
        requires
            old(self).wf(),
        ensures
            final(self).wf(),
            final(self).selected_entity_ids@ == crate::ids::with_id(old(self).selected_entity_ids@, id),
            final(self).pawns@ == old(self).pawns@,
            final(self).buildings@ == old(self).buildings@,
    {
        crate::ids::add_id(&mut self.selected_entity_ids, id);
    }

    /// Total amount of each resource stored in the buildings' slots, in a table
    /// indexed by resource code (entry 0 is unused).
    pub fn resource_totals(&self) -> (t: Vec<u32>)
        requires
            forall|r: ResourceTyp| #[trigger] stock_of(self.buildings@, r) <= u32::MAX,
        ensures
            t@.len() == RESOURCE_COUNT,
            t@[0] == 0,
            forall|r: ResourceTyp| #[trigger] t@[resource_code(r) as int] == stock_of(self.buildings@, r),
    {
        let ghost bs = self.buildings@;
        let mut t: Vec<u32> = vec![0, 0, 0, 0, 0, 0, 0, 0];
        let mut i: usize = 0;
        while i < self.buildings.len()
            invariant
                bs == self.buildings@,
                i <= bs.len(),
                t@.len() == RESOURCE_COUNT,
                t@[0] == 0,
                forall|r: ResourceTyp| #[trigger] stock_of(bs, r) <= u32::MAX,
                forall|r: ResourceTyp| #[trigger] t@[resource_code(r) as int] == stock_of(bs.take(i as int), r),
            decreases bs.len() - i,
        {
            proof { assert(bs.take(i + 1).drop_last() =~= bs.take(i as int)); }
            match &self.buildings[i] {
                Some(b) => {
                    let pairs = b.iter_resources();
                    let mut j: usize = 0;
                    while j < pairs.len()
                        invariant
                            bs == self.buildings@,
                            i < bs.len(),
                            bs[i as int] == Some(*b),
                            bs.take(i + 1).drop_last() == bs.take(i as int),
                            pairs@ == slot_contents(b.spec_inputs() + b.spec_outputs()),
                            j <= pairs@.len(),
                            t@.len() == RESOURCE_COUNT,
                            t@[0] == 0,
                            forall|r: ResourceTyp| #[trigger] stock_of(bs, r) <= u32::MAX,
                            forall|r: ResourceTyp| #[trigger] t@[resource_code(r) as int]
                                == stock_of(bs.take(i as int), r) + amount_of(pairs@.take(j as int), r),
                        decreases pairs@.len() - j,
                    {
                        let (res, count) = pairs[j];
                        let k = res.as_usize();
                        proof {
                            assert(pairs@.take(j + 1).drop_last() =~= pairs@.take(j as int));
                            lemma_amount_prefix(pairs@, j + 1, res);
                            lemma_stock_prefix(bs, i + 1, res);
                            assert(stock_of(bs, res) <= u32::MAX);
                        }
                        let v = t[k] + count as u32;
                        t.set(k, v);
                        j = j + 1;
                    }
                    proof { assert(pairs@.take(pairs@.len() as int) =~= pairs@); }
                },
                None => {},
            }
            i = i + 1;
        }
        proof { assert(bs.take(bs.len() as int) =~= bs); }
        t
    }

    /// Identifiers of the selected entities.
    pub fn selected_entity_ids(&self) -> (r: &Vec<Id>)
        ensures
            r@ == self.selected_entity_ids@,
    {
        &self.selected_entity_ids
    }

    /// Identifiers of the selected pawns.
    pub fn selected_pawn_ids(&self) -> (r: &Vec<Id>)
        ensures
            r@ == self.selected_pawn_ids@,
    {
        &self.selected_pawn_ids
    }

    /// Identifiers of the selected pawns that still exist, in selection order.
    pub fn selected_pawns(&self) -> (r: Vec<Id>)
        requires
            self.wf(),
        ensures
            r@ == self.selected_pawn_ids@.filter(|id: Id| self.get_pawn(id) is Some),
    {
        let ghost s = self.selected_pawn_ids@;
        let ghost pred = |id: Id| self.get_pawn(id) is Some;
        let mut r: Vec<Id> = Vec::new();
        let mut i: usize = 0;
        while i < self.selected_pawn_ids.len()
            invariant
                self.wf(),
                s == self.selected_pawn_ids@,
                pred == (|id: Id| self.get_pawn(id) is Some),
                i <= s.len(),
                r@ == s.take(i as int).filter(pred),
            decreases s.len() - i,
        {
            let id = self.selected_pawn_ids[i];
            proof {
                reveal_with_fuel(Seq::<_>::filter, 1);
                assert(s.take(i + 1).drop_last() =~= s.take(i as int));
            }
            if self.pawn(id).is_some() {
                r.push(id);
            }
            i = i + 1;
        }
        proof { assert(s.take(s.len() as int) =~= s); }
        r
    }
}

} // verus!
