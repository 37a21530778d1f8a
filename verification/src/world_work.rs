//! What worker pawns do: fetch resources for their home building and bring its
//! products where they are needed.
use vstd::prelude::*;
use crate::building::{Building, find_slot, slots_add_one};
use crate::entity::{Base, EntityType, Id, spec_sleep_more};
use crate::geom::{TilePos, spec_contains};
use crate::resource_slot::ResourceSlot;
use crate::pawn::{FAIL_DELAY, Pawn, Task};
use crate::resource::ResourceTyp;
use crate::tilemap::Tilemap;
use crate::world::{ui_kept, G, buildings_kept, lemma_building_replaced, lemma_pawn_replaced};
use crate::world_find::{is_nearest_resource, is_nearest_serving, lemma_nearest_serving_unique, nearest_serving, serves};
use crate::priority::{InOut, is_priority_order, priority_candidates, slots_by_priority};
use crate::world_route::{MAX_PATH_DIST, is_pawn_walk, only_pawn_changed, path_owed, route_leads_to};

verus! {

/// The tiles in `o` (none or one).
pub open spec fn opt_set(o: Option<TilePos>) -> Set<TilePos> {
    if o is Some {
        set![o.unwrap()]
    } else {
        Set::empty()
    }
}

/// `p2` is `p1` with task `task`, cargo `cargo` and sleep counter `sleep`, and with
/// a new route leading to one of the tiles in `dests`, or with its old route when
/// none of those tiles can be reached (see `path_owed`).
pub open spec fn pawn_outcome(p1: Pawn, p2: Pawn, task: Task, cargo: Option<ResourceTyp>, sleep: u8, dests: Set<TilePos>, map: Tilemap) -> bool {
    &&& p2.base == (Base { sleep, ..p1.base })
    &&& p2.typ == p1.typ
    &&& p2.home == p1.home
    &&& p2.target == p1.target
    &&& p2.task == task
    &&& p2.cargo == cargo
    &&& p2.route.wf()
    &&& ((exists|d: TilePos| dests.contains(d) && #[trigger] route_leads_to(p1, p2, d, map))
        || (p2.route == p1.route && forall|d: TilePos| dests.contains(d) ==> !#[trigger] path_owed(p1, d, map)))
}

/// Entrance of the home building of pawn `p` in `g`, if it has one.
pub open spec fn home_dest(g: G, p: Pawn) -> Option<TilePos> {
    if p.home is Some && g.get_building(p.home.unwrap()) is Some {
        Some(g.get_building(p.home.unwrap()).unwrap().base.tile)
    } else {
        None
    }
}

/// Sleep counter of pawn `p` after heading home in `g`: unchanged when it has a
/// home, 255 ticks more when it has none (finding a new home is not implemented).
pub open spec fn home_sleep(g: G, p: Pawn) -> u8 {
    if home_dest(g, p) is Some {
        p.base.sleep
    } else {
        spec_sleep_more(p.base.sleep, 255)
    }
}

/// Sleep counter of pawn `p` after bailing in `g`.
pub open spec fn bail_sleep(g: G, p: Pawn) -> u8 {
    spec_sleep_more(home_sleep(g, p), FAIL_DELAY)
}

/// `g1` is `g0` except for the pawn in slot `pi` and the building in slot `bi`
/// (both still there).
pub open spec fn only_pawn_building_changed(g0: G, g1: G, pi: int, bi: int) -> bool {
    &&& g1.pawns@.len() == g0.pawns@.len()
    &&& g1.pawns@[pi] is Some
    &&& forall|j: int| 0 <= j < g0.pawns@.len() && j != pi ==> #[trigger] g1.pawns@[j] == g0.pawns@[j]
    &&& g1.buildings@.len() == g0.buildings@.len()
    &&& g1.buildings@[bi] is Some
    &&& forall|j: int| 0 <= j < g0.buildings@.len() && j != bi ==> #[trigger] g1.buildings@[j] == g0.buildings@[j]
    &&& g1.tilemap == g0.tilemap
    &&& g1.resources@ == g0.resources@
    &&& g1.effects@ == g0.effects@
    &&& g1.tick == g0.tick
}

/// `b2` is `b1` with input slots `ins`.
pub open spec fn building_with_inputs(b1: Building, b2: Building, ins: Seq<ResourceSlot>) -> bool {
    &&& b2.base == b1.base
    &&& b2.typ == b1.typ
    &&& b2.workers == b1.workers
    &&& b2.spec_outputs() == b1.spec_outputs()
    &&& b2.spec_inputs() == ins
}

/// `b2` is `b1` with output slots `outs`.
pub open spec fn building_with_outputs(b1: Building, b2: Building, outs: Seq<ResourceSlot>) -> bool {
    &&& b2.base == b1.base
    &&& b2.typ == b1.typ
    &&& b2.workers == b1.workers
    &&& b2.spec_inputs() == b1.spec_inputs()
    &&& b2.spec_outputs() == outs
}

/// Whether pawn `p` can hand its cargo to building `b`: it stands on the building,
/// carries something, and the building has an input slot for it.
pub open spec fn can_deliver(p: Pawn, b: Building) -> bool {
    &&& spec_contains(b.spec_bounds(), p.base.tile)
    &&& p.cargo is Some
    &&& find_slot(b.spec_inputs(), p.cargo.unwrap()) is Some
}

/// Doing one thing after another: the outcomes compose, and the new route leads
/// to a tile of either step.
pub proof fn lemma_outcome_chain(
    p0: Pawn, p1: Pawn, p2: Pawn,
    t1: Task, c1: Option<ResourceTyp>, s1: u8, d1: Set<TilePos>,
    t2: Task, c2: Option<ResourceTyp>, s2: u8, d2: Set<TilePos>,
    map: Tilemap,
)
    requires
        pawn_outcome(p0, p1, t1, c1, s1, d1, map),
        pawn_outcome(p1, p2, t2, c2, s2, d2, map),
    ensures
        pawn_outcome(p0, p2, t2, c2, s2, d1.union(d2), map),
{
    if exists|d: TilePos| d2.contains(d) && #[trigger] route_leads_to(p1, p2, d, map) {
        let d = choose|d: TilePos| d2.contains(d) && #[trigger] route_leads_to(p1, p2, d, map);
        assert(route_leads_to(p0, p2, d, map));
        assert(d1.union(d2).contains(d));
    } else if exists|d: TilePos| d1.contains(d) && #[trigger] route_leads_to(p0, p1, d, map) {
        let d = choose|d: TilePos| d1.contains(d) && #[trigger] route_leads_to(p0, p1, d, map);
        assert(route_leads_to(p0, p2, d, map));
        assert(d1.union(d2).contains(d));
    } else {
        assert forall|d: TilePos| d1.union(d2).contains(d) implies !#[trigger] path_owed(p0, d, map) by {
            if d2.contains(d) {
                assert(!path_owed(p1, d, map));
                if path_owed(p0, d, map) {
                    let w = choose|path: Seq<TilePos>| #[trigger] is_pawn_walk(path, p0.base.tile, d, MAX_PATH_DIST, p0.typ, map);
                    assert(is_pawn_walk(w, p1.base.tile, d, MAX_PATH_DIST, p1.typ, map));
                }
            }
        }
    }
}

/// What `go_home` does to the pawn in slot `pi` of `g0` (giving `g1`).
pub open spec fn go_home_outcome(g0: G, g1: G, pi: int) -> bool {
    let p = g0.pawns@[pi].unwrap();
    &&& only_pawn_changed(g0, g1, pi)
    &&& pawn_outcome(p, g1.pawns@[pi].unwrap(), p.task, p.cargo, home_sleep(g0, p), opt_set(home_dest(g0, p)), g0.tilemap)
}

impl G {
    /// Add one `res` to the input slot for it of the building in slot `bi`.
    fn add_to_building(&mut self, bi: usize, res: ResourceTyp) -> (r: Option<()>)
        requires
            old(self).wf(),
            bi < old(self).buildings@.len(),
            old(self).buildings@[bi as int] is Some,
        ensures
            ui_kept(*old(self), *final(self)),
            buildings_kept(*old(self), *final(self)),
            final(self).wf(),
            final(self).pawns@ == old(self).pawns@,
            final(self).buildings@.len() == old(self).buildings@.len(),
            final(self).buildings@[bi as int] is Some,
            forall|j: int| 0 <= j < old(self).buildings@.len() && j != bi ==> #[trigger] final(self).buildings@[j] == old(self).buildings@[j],
            final(self).tilemap == old(self).tilemap,
            final(self).resources@ == old(self).resources@,
            final(self).effects@ == old(self).effects@,
            final(self).tick == old(self).tick,
            ({
                let b = old(self).buildings@[bi as int].unwrap();
                let (res_ok, ins) = slots_add_one(b.spec_inputs(), res);
                r == res_ok && building_with_inputs(b, final(self).buildings@[bi as int].unwrap(), ins)
            }),
    {
        let ghost g0 = *self;
        let mut b = self.take_building(bi);
        let r = b.add_resource(res);
        self.put_building(bi, b);
        proof { lemma_building_replaced(g0, *self, bi as int); }
        r
    }

    /// Take one `res` out of the output slot for it of the building in slot `bi`.
    fn take_from_output(&mut self, bi: usize, res: ResourceTyp) -> (r: Option<ResourceTyp>)
        requires
            old(self).wf(),
            bi < old(self).buildings@.len(),
            old(self).buildings@[bi as int] is Some,
        ensures
            ui_kept(*old(self), *final(self)),
            buildings_kept(*old(self), *final(self)),
            final(self).wf(),
            final(self).pawns@ == old(self).pawns@,
            final(self).buildings@.len() == old(self).buildings@.len(),
            final(self).buildings@[bi as int] is Some,
            forall|j: int| 0 <= j < old(self).buildings@.len() && j != bi ==> #[trigger] final(self).buildings@[j] == old(self).buildings@[j],
            final(self).tilemap == old(self).tilemap,
            final(self).resources@ == old(self).resources@,
            final(self).effects@ == old(self).effects@,
            final(self).tick == old(self).tick,
            ({
                let b = old(self).buildings@[bi as int].unwrap();
                let (taken, outs) = crate::building::slots_take_one(b.spec_outputs(), res);
                r == taken && building_with_outputs(b, final(self).buildings@[bi as int].unwrap(), outs)
            }),
    {
        let ghost g0 = *self;
        let mut b = self.take_building(bi);
        let r = b.take_output(res);
        self.put_building(bi, b);
        proof { lemma_building_replaced(g0, *self, bi as int); }
        r
    }

    /// Set the task and cargo of the pawn in slot `pi` and let it sleep `ticks` more.
    fn update_pawn(&mut self, pi: usize, task: Task, cargo: Option<ResourceTyp>, ticks: u8)
        requires
            old(self).wf(),
            pi < old(self).pawns@.len(),
            old(self).pawns@[pi as int] is Some,
        ensures
            ui_kept(*old(self), *final(self)),
            buildings_kept(*old(self), *final(self)),
            final(self).wf(),
            only_pawn_changed(*old(self), *final(self), pi as int),
            ({
                let p = old(self).pawns@[pi as int].unwrap();
                pawn_outcome(p, final(self).pawns@[pi as int].unwrap(), task, cargo, spec_sleep_more(p.base.sleep, ticks), Set::empty(), old(self).tilemap)
            }),
    {
        let ghost g0 = *self;
        let mut p = self.take_pawn(pi);
        p.task = task;
        p.cargo = cargo;
        p.base.sleep(ticks);
        self.put_pawn(pi, p);
        proof { lemma_pawn_replaced(g0, *self, pi as int); }
    }

    /// The pawn in slot `pi` heads for the entrance of its home; a pawn without a
    /// home sleeps 255 ticks (finding a new home is not implemented).
    pub fn go_home(&mut self, pi: usize)
        requires
            old(self).wf(),
            pi < old(self).pawns@.len(),
            old(self).pawns@[pi as int] is Some,
        ensures
            ui_kept(*old(self), *final(self)),
            buildings_kept(*old(self), *final(self)),
            final(self).wf(),
            go_home_outcome(*old(self), *final(self), pi as int),
    {
        let (home, task, cargo) = match &self.pawns[pi] {
            Some(p) => (p.home, p.task, p.cargo),
            None => (None, Task::Idle, None),
        };
        let dest = match home {
            Some(h) => match self.building(h) {
                Some(b) => Some(b.entrance()),
                None => None,
            },
            None => None,
        };
        match dest {
            Some(d) => {
                self.set_destination(pi, d);
            },
            None => {
                self.update_pawn(pi, task, cargo, 255);
            },
        }
    }

    /// Give up on the current task: the pawn in slot `pi` forgets its task, heads
    /// home, and sleeps `FAIL_DELAY` ticks.
    pub fn bail(&mut self, pi: usize)
        requires
            old(self).wf(),
            pi < old(self).pawns@.len(),
            old(self).pawns@[pi as int] is Some,
        ensures
            ui_kept(*old(self), *final(self)),
            buildings_kept(*old(self), *final(self)),
            final(self).wf(),
            only_pawn_changed(*old(self), *final(self), pi as int),
            ({
                let p = old(self).pawns@[pi as int].unwrap();
                pawn_outcome(p, final(self).pawns@[pi as int].unwrap(), Task::Idle, p.cargo,
                    bail_sleep(*old(self), p), opt_set(home_dest(*old(self), p)), old(self).tilemap)
            }),
    {
        let cargo = match &self.pawns[pi] {
            Some(p) => p.cargo,
            None => None,
        };
        let ghost g0 = *self;
        self.update_pawn(pi, Task::Idle, cargo, 0);
        let ghost g1 = *self;
        self.go_home(pi);
        let ghost g2 = *self;
        self.update_pawn(pi, Task::Idle, cargo, FAIL_DELAY);
        proof {
            let p0 = g0.pawns@[pi as int].unwrap();
            let p1 = g1.pawns@[pi as int].unwrap();
            let p2 = g2.pawns@[pi as int].unwrap();
            let p3 = self.pawns@[pi as int].unwrap();
            assert(home_dest(g1, p1) == home_dest(g0, p0));
            if exists|d: TilePos| opt_set(home_dest(g1, p1)).contains(d) && #[trigger] route_leads_to(p1, p2, d, g1.tilemap) {
                let d = choose|d: TilePos| opt_set(home_dest(g1, p1)).contains(d) && #[trigger] route_leads_to(p1, p2, d, g1.tilemap);
                assert(route_leads_to(p0, p3, d, g0.tilemap));
            } else {
                assert forall|d: TilePos| opt_set(home_dest(g0, p0)).contains(d) implies !#[trigger] path_owed(p0, d, g0.tilemap) by {
                    assert(!path_owed(p1, d, g1.tilemap));
                    if path_owed(p0, d, g0.tilemap) {
                        let w = choose|path: Seq<TilePos>| #[trigger] is_pawn_walk(path, p0.base.tile, d, MAX_PATH_DIST, p0.typ, g0.tilemap);
                        assert(is_pawn_walk(w, p1.base.tile, d, MAX_PATH_DIST, p1.typ, g1.tilemap));
                    }
                }
            }
        }
    }
}

impl G {
    /// The pawn in slot `pi` hands its cargo to building `bid`. It bails (see
    /// `bail`) unless it stands on the building, carries something, and the building
    /// has an input slot for it; when the slot has room, the cargo goes into it and
    /// the pawn's task is done; when the slot is full, nothing happens.
    pub fn try_deliver_at(&mut self, pi: usize, bid: Id)
        requires
            old(self).wf(),
            pi < old(self).pawns@.len(),
            old(self).pawns@[pi as int] is Some,
            old(self).get_building(bid) is Some,
        ensures
            ui_kept(*old(self), *final(self)),
            buildings_kept(*old(self), *final(self)),
            final(self).wf(),
            only_pawn_building_changed(*old(self), *final(self), pi as int, bid.index as int),
            ({
                let p = old(self).pawns@[pi as int].unwrap();
                let b = old(self).get_building(bid).unwrap();
                let p2 = final(self).pawns@[pi as int].unwrap();
                let b2 = final(self).get_building(bid).unwrap();
                if can_deliver(p, b) {
                    let (r, ins) = slots_add_one(b.spec_inputs(), p.cargo.unwrap());
                    &&& building_with_inputs(b, b2, ins)
                    &&& if r is Some {
                        pawn_outcome(p, p2, Task::Idle, None, p.base.sleep, Set::empty(), old(self).tilemap)
                    } else {
                        p2 == p
                    }
                } else {
                    &&& b2 == b
                    &&& pawn_outcome(p, p2, Task::Idle, p.cargo, bail_sleep(*old(self), p),
                        opt_set(home_dest(*old(self), p)), old(self).tilemap)
                }
            }),
    {
        let bi = bid.index as usize;
        let (at, cargo) = match &self.pawns[pi] {
            Some(p) => match self.building(bid) {
                Some(b) => {
                    proof { assert(self.buildings@[bi as int].unwrap().wf()); }
                    (p.is_at_building(b), p.cargo)
                },
                None => (false, None),
            },
            None => (false, None),
        };
        if !at {
            self.bail(pi);
            return;
        }
        let c = match cargo {
            Some(c) => c,
            None => {
                self.bail(pi);
                return;
            },
        };
        let has_input = match self.building(bid) {
            Some(b) => {
                proof { assert(self.buildings@[bi as int].unwrap().wf()); }
                b.has_input(c)
            },
            None => false,
        };
        if !has_input {
            self.bail(pi);
            return;
        }
        let r = self.add_to_building(bi, c);
        if r.is_some() {
            self.update_pawn(pi, Task::Idle, None, 0);
        }
    }
}

impl G {
    /// The pawn in slot `pi` brings its cargo home (see `try_deliver_at`); when it
    /// still carries it afterwards (the input was full), it sleeps one tick. A pawn
    /// without a home bails.
    pub fn home_delivery(&mut self, pi: usize)
        requires
            old(self).wf(),
            pi < old(self).pawns@.len(),
            old(self).pawns@[pi as int] is Some,
        ensures
            ui_kept(*old(self), *final(self)),
            buildings_kept(*old(self), *final(self)),
            final(self).wf(),
            home_delivery_outcome(*old(self), *final(self), pi as int),
            final(self).pawns@.len() == old(self).pawns@.len(),
            final(self).pawns@[pi as int] is Some,
            final(self).tick == old(self).tick,
    {
        let home = match &self.pawns[pi] {
            Some(p) => p.home,
            None => None,
        };
        let hid = match home {
            Some(h) => h,
            None => {
                self.bail(pi);
                return;
            },
        };
        if self.building(hid).is_none() {
            self.bail(pi);
            return;
        }
        let ghost g0 = *self;
        self.try_deliver_at(pi, hid);
        let ghost g1 = *self;
        let (task, cargo) = match &self.pawns[pi] {
            Some(p) => (p.task, p.cargo),
            None => (Task::Idle, None),
        };
        if cargo.is_some() {
            self.update_pawn(pi, task, cargo, 1);
            proof {
                let p0 = g0.pawns@[pi as int].unwrap();
                let p1 = g1.pawns@[pi as int].unwrap();
                let p2 = self.pawns@[pi as int].unwrap();
                let b = g0.get_building(hid).unwrap();
                if can_deliver(p0, b) {
                    lemma_outcome_chain(p0, p1, p2, p0.task, p0.cargo, p0.base.sleep, Set::empty(), task, cargo,
                        spec_sleep_more(p0.base.sleep, 1), Set::empty(), g0.tilemap);
                    assert(Set::<TilePos>::empty().union(Set::empty()) =~= Set::empty());
                } else {
                    lemma_outcome_chain(p0, p1, p2, Task::Idle, p0.cargo, bail_sleep(g0, p0), opt_set(home_dest(g0, p0)),
                        task, cargo, spec_sleep_more(bail_sleep(g0, p0), 1), Set::empty(), g0.tilemap);
                    assert(opt_set(home_dest(g0, p0)).union(Set::empty()) =~= opt_set(home_dest(g0, p0)));
                }
            }
        } else {
            proof {
                let p0 = g0.pawns@[pi as int].unwrap();
                let b = g0.get_building(hid).unwrap();
                assert(spec_sleep_more(bail_sleep(g0, p0), 0) == bail_sleep(g0, p0));
            }
        }
    }
}

/// Entrance of building `id` in `g`.
pub open spec fn entrance_of(g: G, id: Id) -> TilePos {
    g.get_building(id).unwrap().base.tile
}

/// The building of its team nearest to pawn `p` in `g` with room for its cargo.
pub open spec fn receptor_for(g: G, p: Pawn) -> Option<Id> {
    nearest_serving(g, p.base.tile, p.base.team, p.cargo.unwrap(), false)
}

/// What happens to pawn `p` (now `p1`) in `g` when it still carries cargo after a
/// failed delivery: it heads for the nearest building of its team with room for
/// the cargo and is to deliver there, or, with none, sleeps `FAIL_DELAY` ticks.
pub open spec fn redirected(g: G, p: Pawn, p1: Pawn, p2: Pawn, dests: Set<TilePos>) -> bool {
    match receptor_for(g, p) {
        Some(a) => pawn_outcome(p, p2, Task::DeliverToBuilding(a), p.cargo, p1.base.sleep, dests.insert(entrance_of(g, a)), g.tilemap),
        None => pawn_outcome(p, p2, p1.task, p.cargo, spec_sleep_more(p1.base.sleep, FAIL_DELAY), dests, g.tilemap),
    }
}

/// The buildings of `g0` and `g1` stand in the same slots with the same entity
/// state and the same slot contents.
pub open spec fn same_building_views(g0: G, g1: G) -> bool {
    &&& g1.buildings@.len() == g0.buildings@.len()
    &&& forall|j: int| 0 <= j < g0.buildings@.len() ==> (#[trigger] g1.buildings@[j] is Some) == (g0.buildings@[j] is Some)
    &&& forall|j: int| 0 <= j < g0.buildings@.len() && (#[trigger] g0.buildings@[j]) is Some ==> {
        &&& g1.buildings@[j].unwrap().base == g0.buildings@[j].unwrap().base
        &&& g1.buildings@[j].unwrap().spec_inputs() == g0.buildings@[j].unwrap().spec_inputs()
        &&& g1.buildings@[j].unwrap().spec_outputs() == g0.buildings@[j].unwrap().spec_outputs()
    }
}

/// When two states hold the same buildings, their nearest serving buildings agree.
proof fn lemma_nearest_same_buildings(g0: G, g1: G, from: TilePos, team: crate::team::Team, res: ResourceTyp, provider: bool, r: Option<Id>)
    requires
        same_building_views(g0, g1),
        is_nearest_serving(g1, from, team, res, provider, r),
    ensures
        is_nearest_serving(g0, from, team, res, provider, r),
        r == nearest_serving(g0, from, team, res, provider),
{
    assert forall|j: int| 0 <= j < g0.buildings@.len() implies
        #[trigger] serves(g0.buildings@[j], team, res, provider) == serves(g1.buildings@[j], team, res, provider) by {
        if g0.buildings@[j] is Some {
            assert(g1.buildings@[j] is Some);
        }
    }
    assert(is_nearest_serving(g0, from, team, res, provider, r));
    lemma_nearest_serving_unique(g0, from, team, res, provider, r, nearest_serving(g0, from, team, res, provider));
}

impl G {
    /// With cargo still on board after a delivery attempt, the pawn in slot `pi`
    /// heads for the nearest building of its team with room for it (and is to
    /// deliver there); with none, it sleeps `FAIL_DELAY` ticks.
    fn redirect_cargo(&mut self, pi: usize)
        requires
            old(self).wf(),
            pi < old(self).pawns@.len(),
            old(self).pawns@[pi as int] is Some,
            old(self).pawns@[pi as int].unwrap().cargo is Some,
        ensures
            ui_kept(*old(self), *final(self)),
            buildings_kept(*old(self), *final(self)),
            final(self).wf(),
            only_pawn_changed(*old(self), *final(self), pi as int),
            ({
                let p = old(self).pawns@[pi as int].unwrap();
                &&& redirected(*old(self), p, p, final(self).pawns@[pi as int].unwrap(), Set::empty())
                &&& is_nearest_serving(*old(self), p.base.tile, p.base.team, p.cargo.unwrap(), false, receptor_for(*old(self), p))
            }),
    {
        let (tile, team, task, cargo) = match &self.pawns[pi] {
            Some(p) => (p.base.tile, p.base.team, p.task, p.cargo),
            None => ((0, 0), crate::team::Team(0), Task::Idle, None),
        };
        let c = cargo.unwrap();
        let ghost g0 = *self;
        match self.find_near_receptor(tile, team, c) {
            Some(a) => {
                let dest = match self.building(a) {
                    Some(b) => b.entrance(),
                    None => tile,
                };
                self.set_destination(pi, dest);
                let ghost g1 = *self;
                self.update_pawn(pi, Task::DeliverToBuilding(a), cargo, 0);
                proof {
                    let p0 = g0.pawns@[pi as int].unwrap();
                    let p1 = g1.pawns@[pi as int].unwrap();
                    let p2 = self.pawns@[pi as int].unwrap();
                    assert(pawn_outcome(p0, p1, task, cargo, p0.base.sleep, set![dest], g0.tilemap));
                    lemma_outcome_chain(p0, p1, p2, task, cargo, p0.base.sleep, set![dest], Task::DeliverToBuilding(a), cargo,
                        p0.base.sleep, Set::empty(), g0.tilemap);
                    assert(set![dest].union(Set::empty()) =~= Set::<TilePos>::empty().insert(dest));
                }
            },
            None => {
                self.update_pawn(pi, task, cargo, FAIL_DELAY);
            },
        }
    }

    /// The pawn in slot `pi` delivers its cargo to building `id` (see
    /// `try_deliver_at`); when it still carries it afterwards, it heads for the
    /// nearest building of its team with room for it, or sleeps `FAIL_DELAY` ticks.
    /// When building `id` is gone, the pawn bails.
    pub fn deliver_to_building(&mut self, pi: usize, id: Id)
        requires
            old(self).wf(),
            pi < old(self).pawns@.len(),
            old(self).pawns@[pi as int] is Some,
        ensures
            ui_kept(*old(self), *final(self)),
            buildings_kept(*old(self), *final(self)),
            final(self).wf(),
            deliver_outcome(*old(self), *final(self), pi as int, id),
            final(self).pawns@.len() == old(self).pawns@.len(),
            final(self).pawns@[pi as int] is Some,
            final(self).tick == old(self).tick,
    {
        if self.building(id).is_none() {
            self.bail(pi);
            return;
        }
        let ghost g0 = *self;
        self.try_deliver_at(pi, id);
        let ghost g1 = *self;
        let cargo = match &self.pawns[pi] {
            Some(p) => p.cargo,
            None => None,
        };
        if cargo.is_some() {
            self.redirect_cargo(pi);
            proof {
                let p0 = g0.pawns@[pi as int].unwrap();
                let p1 = g1.pawns@[pi as int].unwrap();
                let p2 = self.pawns@[pi as int].unwrap();
                let b = g0.get_building(id).unwrap();
                let hd = opt_set(home_dest(g0, p0));
                let r1 = receptor_for(g1, p1);
                if can_deliver(p0, b) {
                    let i = find_slot(b.spec_inputs(), p0.cargo.unwrap()).unwrap();
                    assert(b.spec_inputs().update(i, b.spec_inputs()[i]) =~= b.spec_inputs());
                }
                assert(same_building_views(g0, g1)) by {
                    assert forall|j: int| 0 <= j < g0.buildings@.len() && (#[trigger] g0.buildings@[j]) is Some implies {
                        &&& g1.buildings@[j].unwrap().base == g0.buildings@[j].unwrap().base
                        &&& g1.buildings@[j].unwrap().spec_inputs() == g0.buildings@[j].unwrap().spec_inputs()
                        &&& g1.buildings@[j].unwrap().spec_outputs() == g0.buildings@[j].unwrap().spec_outputs()
                    } by {
                        if j == id.index as int {
                            assert(g1.get_building(id) == Some(g1.buildings@[j].unwrap()));
                        }
                    }
                }
                lemma_nearest_same_buildings(g0, g1, p1.base.tile, p1.base.team, p1.cargo.unwrap(), false, r1);
                assert(receptor_for(g1, p1) == receptor_for(g0, p0));
                if can_deliver(p0, b) {
                    assert(p1 == p0);
                    match r1 {
                        Some(a) => {
                            assert(entrance_of(g1, a) == entrance_of(g0, a));
                        },
                        None => {},
                    }
                } else {
                    match r1 {
                        Some(a) => {
                            assert(entrance_of(g1, a) == entrance_of(g0, a));
                            lemma_outcome_chain(p0, p1, p2, Task::Idle, p0.cargo, bail_sleep(g0, p0), hd,
                                Task::DeliverToBuilding(a), p0.cargo, p1.base.sleep, Set::empty().insert(entrance_of(g0, a)), g0.tilemap);
                            assert(hd.union(Set::empty().insert(entrance_of(g0, a))) =~= hd.insert(entrance_of(g0, a)));
                        },
                        None => {
                            lemma_outcome_chain(p0, p1, p2, Task::Idle, p0.cargo, bail_sleep(g0, p0), hd,
                                p1.task, p0.cargo, spec_sleep_more(p1.base.sleep, FAIL_DELAY), Set::empty(), g0.tilemap);
                            assert(hd.union(Set::empty()) =~= hd);
                        },
                    }
                }
            }
        }
    }
}

impl G {
    /// The pawn in slot `pi` takes one `res` from the output of building `id`, then
    /// heads home to deliver it. It bails when the building is gone, when it does not
    /// stand on it, when it already carries something, or when the building has no
    /// output for `res`; when the output is empty, it sleeps `FAIL_DELAY` ticks.
    pub fn take_from_building(&mut self, pi: usize, id: Id, res: ResourceTyp)
        requires
            old(self).wf(),
            pi < old(self).pawns@.len(),
            old(self).pawns@[pi as int] is Some,
        ensures
            ui_kept(*old(self), *final(self)),
            buildings_kept(*old(self), *final(self)),
            final(self).wf(),
            take_outcome(*old(self), *final(self), pi as int, id, res),
            final(self).pawns@.len() == old(self).pawns@.len(),
            final(self).pawns@[pi as int] is Some,
            final(self).tick == old(self).tick,
    {
        let bi = id.index as usize;
        let (at, task, cargo) = match &self.pawns[pi] {
            Some(p) => match self.building(id) {
                Some(b) => {
                    proof { assert(self.buildings@[bi as int].unwrap().wf()); }
                    (p.is_at_building(b), p.task, p.cargo)
                },
                None => (false, p.task, p.cargo),
            },
            None => (false, Task::Idle, None),
        };
        if self.building(id).is_none() || !at || cargo.is_some() {
            self.bail(pi);
            return;
        }
        let has_output = match self.building(id) {
            Some(b) => {
                proof { assert(self.buildings@[bi as int].unwrap().wf()); }
                b.has_output(res)
            },
            None => false,
        };
        if !has_output {
            self.bail(pi);
            return;
        }
        let ghost g0 = *self;
        let taken = self.take_from_output(bi, res);
        let ghost g1 = *self;
        match taken {
            Some(r) => {
                proof {
                    let b = g0.buildings@[bi as int].unwrap();
                    let i = find_slot(b.spec_outputs(), res).unwrap();
                    assert(b.spec_outputs()[i].typ == res);
                }
                self.update_pawn(pi, task, Some(r), 0);
                let ghost g2 = *self;
                self.go_home(pi);
                let ghost g3 = *self;
                self.update_pawn(pi, Task::HomeDelivery, Some(r), 0);
                proof {
                    let p0 = g0.pawns@[pi as int].unwrap();
                    let p2 = g2.pawns@[pi as int].unwrap();
                    let p3 = g3.pawns@[pi as int].unwrap();
                    let p4 = self.pawns@[pi as int].unwrap();
                    assert(p2.home == p0.home);
                    if p0.home is Some {
                        let h = p0.home.unwrap();
                        assert(g2.get_building(h) is Some == g0.get_building(h) is Some);
                        if g0.get_building(h) is Some {
                            assert(g2.get_building(h).unwrap().base == g0.get_building(h).unwrap().base);
                        }
                    }
                    assert(home_dest(g2, p2) == home_dest(g0, p0));
                    assert(home_sleep(g2, p2) == home_sleep(g0, p0));
                    lemma_outcome_chain(p0, p2, p3, task, Some(r), p0.base.sleep, Set::empty(), task, Some(r),
                        home_sleep(g0, p0), opt_set(home_dest(g0, p0)), g0.tilemap);
                    lemma_outcome_chain(p0, p3, p4, task, Some(r), home_sleep(g0, p0), Set::empty().union(opt_set(home_dest(g0, p0))),
                        Task::HomeDelivery, Some(r), home_sleep(g0, p0), Set::empty(), g0.tilemap);
                    assert(Set::empty().union(opt_set(home_dest(g0, p0))).union(Set::empty()) =~= opt_set(home_dest(g0, p0)));
                }
            },
            None => {
                self.update_pawn(pi, task, cargo, FAIL_DELAY);
            },
        }
    }

    /// The pawn in slot `pi` harvests `res`. With cargo already on board it bails.
    /// When `res` lies on its tile and it has a home, it picks it up and heads home
    /// to deliver it (homeless, it bails). Otherwise it heads for the nearest tile
    /// where `res` lies; when there is none, it bails.
    pub fn harvest(&mut self, pi: usize, res: ResourceTyp)
        requires
            old(self).wf(),
            pi < old(self).pawns@.len(),
            old(self).pawns@[pi as int] is Some,
        ensures
            ui_kept(*old(self), *final(self)),
            buildings_kept(*old(self), *final(self)),
            final(self).wf(),
            harvest_outcome(*old(self), *final(self), pi as int, res),
            final(self).pawns@.len() == old(self).pawns@.len(),
            final(self).pawns@[pi as int] is Some,
            final(self).tick == old(self).tick,
    {
        let (tile, task, cargo, home) = match &self.pawns[pi] {
            Some(p) => (p.base.tile, p.task, p.cargo, p.home),
            None => ((0, 0), Task::Idle, None, None),
        };
        if cargo.is_some() {
            self.bail(pi);
            return;
        }
        let here = self.resources.at(tile);
        if here == Some(res) {
            let hid = match home {
                Some(h) => h,
                None => {
                    self.bail(pi);
                    return;
                },
            };
            if self.building(hid).is_none() {
                self.bail(pi);
                return;
            }
            let ghost g0 = *self;
            let picked = self.resources.remove(tile);
            let ghost g1 = *self;
            proof { lemma_pawn_replaced(g0, g1, pi as int); }
            self.update_pawn(pi, Task::DeliverToBuilding(hid), picked, 0);
            let ghost g2 = *self;
            self.go_home(pi);
            proof {
                let p0 = g0.pawns@[pi as int].unwrap();
                let p2 = g2.pawns@[pi as int].unwrap();
                let p3 = self.pawns@[pi as int].unwrap();
                assert(home_dest(g2, p2) == home_dest(g0, p0));
                lemma_outcome_chain(p0, p2, p3, Task::DeliverToBuilding(hid), picked, p0.base.sleep, Set::empty(),
                    Task::DeliverToBuilding(hid), picked, p0.base.sleep, opt_set(home_dest(g0, p0)), g0.tilemap);
                assert(Set::empty().union(opt_set(home_dest(g0, p0))) =~= opt_set(home_dest(g0, p0)));
            }
            return;
        }
        match self.find_near_resource(tile, res) {
            Some(dest) => {
                self.set_destination(pi, dest);
            },
            None => {
                proof {
                    assert(!(exists|t: TilePos| self.resources@.contains_key(t) && #[trigger] self.resources@[t] == res));
                }
                self.bail(pi);
            },
        }
    }
}

/// What `home_delivery` does to the pawn in slot `pi` of `g0` (giving `g1`).
pub open spec fn home_delivery_outcome(g0: G, g1: G, pi: int) -> bool {
    let p = g0.pawns@[pi].unwrap();
    let p2 = g1.pawns@[pi].unwrap();
    let map = g0.tilemap;
    if home_dest(g0, p) is None {
        &&& only_pawn_changed(g0, g1, pi)
        &&& pawn_outcome(p, p2, Task::Idle, p.cargo, bail_sleep(g0, p), opt_set(home_dest(g0, p)), map)
    } else {
        let hid = p.home.unwrap();
        let b = g0.get_building(hid).unwrap();
        let b2 = g1.get_building(hid).unwrap();
        &&& only_pawn_building_changed(g0, g1, pi, hid.index as int)
        &&& if can_deliver(p, b) {
            let (r, ins) = slots_add_one(b.spec_inputs(), p.cargo.unwrap());
            &&& building_with_inputs(b, b2, ins)
            &&& if r is Some {
                pawn_outcome(p, p2, Task::Idle, None, p.base.sleep, Set::empty(), map)
            } else {
                pawn_outcome(p, p2, p.task, p.cargo, spec_sleep_more(p.base.sleep, 1), Set::empty(), map)
            }
        } else {
            &&& b2 == b
            &&& pawn_outcome(p, p2, Task::Idle, p.cargo,
                spec_sleep_more(bail_sleep(g0, p), if p.cargo is Some { 1u8 } else { 0u8 }),
                opt_set(home_dest(g0, p)), map)
        }
    }
}

/// What `deliver_to_building` does to the pawn in slot `pi` of `g0` (giving `g1`).
pub open spec fn deliver_outcome(g0: G, g1: G, pi: int, id: Id) -> bool {
    let p = g0.pawns@[pi].unwrap();
    let p2 = g1.pawns@[pi].unwrap();
    let map = g0.tilemap;
    let hd = opt_set(home_dest(g0, p));
    if g0.get_building(id) is None {
        &&& only_pawn_changed(g0, g1, pi)
        &&& pawn_outcome(p, p2, Task::Idle, p.cargo, bail_sleep(g0, p), hd, map)
    } else {
        let b = g0.get_building(id).unwrap();
        let b2 = g1.get_building(id).unwrap();
        let bailed = Pawn { task: Task::Idle, base: Base { sleep: bail_sleep(g0, p), ..p.base }, ..p };
        &&& only_pawn_building_changed(g0, g1, pi, id.index as int)
        &&& if can_deliver(p, b) {
            let (r, ins) = slots_add_one(b.spec_inputs(), p.cargo.unwrap());
            &&& building_with_inputs(b, b2, ins)
            &&& if r is Some {
                pawn_outcome(p, p2, Task::Idle, None, p.base.sleep, Set::empty(), map)
            } else {
                redirected(g0, p, p, p2, Set::empty())
            }
        } else {
            &&& b2 == b
            &&& if p.cargo is Some {
                redirected(g0, p, bailed, p2, hd)
            } else {
                pawn_outcome(p, p2, Task::Idle, p.cargo, bail_sleep(g0, p), hd, map)
            }
        }
    }
}

/// What `take_from_building` does to the pawn in slot `pi` of `g0` (giving `g1`).
pub open spec fn take_outcome(g0: G, g1: G, pi: int, id: Id, res: ResourceTyp) -> bool {
    let p = g0.pawns@[pi].unwrap();
    let p2 = g1.pawns@[pi].unwrap();
    let map = g0.tilemap;
    let hd = opt_set(home_dest(g0, p));
    if g0.get_building(id) is None {
        &&& only_pawn_changed(g0, g1, pi)
        &&& pawn_outcome(p, p2, Task::Idle, p.cargo, bail_sleep(g0, p), hd, map)
    } else {
        let b = g0.get_building(id).unwrap();
        let b2 = g1.get_building(id).unwrap();
        &&& only_pawn_building_changed(g0, g1, pi, id.index as int)
        &&& if !spec_contains(b.spec_bounds(), p.base.tile) || p.cargo is Some || find_slot(b.spec_outputs(), res) is None {
            &&& b2 == b
            &&& pawn_outcome(p, p2, Task::Idle, p.cargo, bail_sleep(g0, p), hd, map)
        } else {
            let (taken, outs) = crate::building::slots_take_one(b.spec_outputs(), res);
            &&& building_with_outputs(b, b2, outs)
            &&& if taken is Some {
                pawn_outcome(p, p2, Task::HomeDelivery, Some(res), home_sleep(g0, p), hd, map)
            } else {
                pawn_outcome(p, p2, p.task, p.cargo, spec_sleep_more(p.base.sleep, FAIL_DELAY), Set::empty(), map)
            }
        }
    }
}

/// What `harvest` does to the pawn in slot `pi` of `g0` (giving `g1`).
pub open spec fn harvest_outcome(g0: G, g1: G, pi: int, res: ResourceTyp) -> bool {
    let p = g0.pawns@[pi].unwrap();
    let p2 = g1.pawns@[pi].unwrap();
    let map = g0.tilemap;
    let hd = opt_set(home_dest(g0, p));
    let lies_here = g0.resources@.contains_key(p.base.tile) && g0.resources@[p.base.tile] == res;
    let lies_somewhere = exists|t: TilePos| g0.resources@.contains_key(t) && #[trigger] g0.resources@[t] == res;
    if p.cargo is Some || (lies_here && home_dest(g0, p) is None) || !lies_somewhere {
        &&& only_pawn_changed(g0, g1, pi)
        &&& pawn_outcome(p, p2, Task::Idle, p.cargo, bail_sleep(g0, p), hd, map)
    } else if lies_here {
        &&& g1.resources@ == g0.resources@.remove(p.base.tile)
        &&& g1.pawns@.len() == g0.pawns@.len()
        &&& forall|j: int| 0 <= j < g0.pawns@.len() && j != pi ==> #[trigger] g1.pawns@[j] == g0.pawns@[j]
        &&& g1.buildings@ == g0.buildings@
        &&& g1.tilemap == g0.tilemap
        &&& g1.effects@ == g0.effects@
        &&& g1.tick == g0.tick
        &&& pawn_outcome(p, p2, Task::DeliverToBuilding(p.home.unwrap()), Some(res), p.base.sleep, hd, map)
    } else {
        &&& only_pawn_changed(g0, g1, pi)
        &&& exists|t: TilePos| #[trigger] is_nearest_resource(g0, p.base.tile, res, Some(t))
            && pawn_outcome(p, p2, p.task, p.cargo, p.base.sleep, set![t], map)
    }
}

/// Whether some `typ` lies on the map of `g`.
pub open spec fn resource_lies(g: G, typ: ResourceTyp) -> bool {
    exists|t: TilePos| g.resources@.contains_key(t) && #[trigger] g.resources@[t] == typ
}

/// Whether pawn `p` in `g` can act on slot entry `item` of its home: for an input,
/// some of its resource lies on the map or a building of its team provides one;
/// for an output, a building of its team has room for one.
pub open spec fn item_acts(g: G, p: Pawn, item: (InOut, ResourceSlot)) -> bool {
    match item.0 {
        InOut::In => resource_lies(g, item.1.typ) || nearest_serving(g, p.base.tile, p.base.team, item.1.typ, true) is Some,
        InOut::Out => nearest_serving(g, p.base.tile, p.base.team, item.1.typ, false) is Some,
    }
}

/// Index of the first entry of `order`, from `i` on, that pawn `p` in `g` can act
/// on; the length of `order` when there is none.
pub open spec fn first_acting(g: G, p: Pawn, order: Seq<(InOut, ResourceSlot)>, i: int) -> int
    decreases order.len() - i,
{
    if i >= order.len() {
        order.len() as int
    } else if item_acts(g, p, order[i]) {
        i
    } else {
        first_acting(g, p, order, i + 1)
    }
}

/// What the pawn in slot `pi` of `g0` (now `g1`) does for entry `item` of the slots
/// of its home `hid`: for an input, head for a nearest tile where that resource
/// lies and harvest it, or else for the nearest building of its team providing it
/// and take one there; for an output, take one out of it and bring it to the
/// nearest building of its team with room for it.
pub open spec fn plan_item_outcome(g0: G, g1: G, pi: int, hid: Id, item: (InOut, ResourceSlot)) -> bool {
    let p = g0.pawns@[pi].unwrap();
    let p2 = g1.pawns@[pi].unwrap();
    let typ = item.1.typ;
    let map = g0.tilemap;
    match item.0 {
        InOut::In => if resource_lies(g0, typ) {
            &&& only_pawn_changed(g0, g1, pi)
            &&& exists|t: TilePos| #[trigger] is_nearest_resource(g0, p.base.tile, typ, Some(t))
                && pawn_outcome(p, p2, Task::Harvest(typ), p.cargo, p.base.sleep, set![t], map)
        } else {
            let b = nearest_serving(g0, p.base.tile, p.base.team, typ, true).unwrap();
            &&& only_pawn_changed(g0, g1, pi)
            &&& pawn_outcome(p, p2, Task::TakeFromBuilding(b, typ), p.cargo, p.base.sleep, set![entrance_of(g0, b)], map)
        },
        InOut::Out => {
            let b = nearest_serving(g0, p.base.tile, p.base.team, typ, false).unwrap();
            let home = g0.get_building(hid).unwrap();
            let (taken, outs) = crate::building::slots_take_one(home.spec_outputs(), typ);
            &&& only_pawn_building_changed(g0, g1, pi, hid.index as int)
            &&& building_with_outputs(home, g1.get_building(hid).unwrap(), outs)
            &&& pawn_outcome(p, p2, Task::DeliverToBuilding(b), taken, p.base.sleep, set![entrance_of(g0, b)], map)
        },
    }
}

/// When no entry before `idx` (from `i` on) can be acted on and entry `idx` can (or
/// `idx` is the end), `idx` is the first acting entry.
proof fn lemma_first_acting(g: G, p: Pawn, order: Seq<(InOut, ResourceSlot)>, i: int, idx: int)
    requires
        0 <= i <= idx <= order.len(),
        forall|j: int| i <= j < idx ==> !item_acts(g, p, #[trigger] order[j]),
        idx < order.len() ==> item_acts(g, p, order[idx]),
    ensures
        first_acting(g, p, order, i) == idx,
    decreases idx - i,
{
    if i < idx {
        lemma_first_acting(g, p, order, i + 1, idx);
    }
}

impl G {
    /// Plan for the entry `item` of the home's slots, if the pawn can act on it
    /// (see `plan_item_outcome`); returns whether it could.
    fn plan_item(&mut self, pi: usize, hid: Id, item: (InOut, ResourceSlot)) -> (acted: bool)
        requires
            old(self).wf(),
            pi < old(self).pawns@.len(),
            old(self).pawns@[pi as int] is Some,
            old(self).get_building(hid) is Some,
        ensures
            ui_kept(*old(self), *final(self)),
            buildings_kept(*old(self), *final(self)),
            acted == item_acts(*old(self), old(self).pawns@[pi as int].unwrap(), item),
            acted ==> final(self).wf() && plan_item_outcome(*old(self), *final(self), pi as int, hid, item),
            !acted ==> *final(self) == *old(self),
    {
        let (tile, team, cargo) = match &self.pawns[pi] {
            Some(p) => (p.base.tile, p.base.team, p.cargo),
            None => ((0, 0), crate::team::Team(0), None),
        };
        let typ = item.1.typ;
        let ghost g0 = *self;
        match item.0 {
            InOut::In => {
                match self.find_near_resource(tile, typ) {
                    Some(t) => {
                        self.set_destination(pi, t);
                        let ghost g1 = *self;
                        self.update_pawn(pi, Task::Harvest(typ), cargo, 0);
                        proof {
                            let p0 = g0.pawns@[pi as int].unwrap();
                            let p1 = g1.pawns@[pi as int].unwrap();
                            let p2 = self.pawns@[pi as int].unwrap();
                            assert(pawn_outcome(p0, p1, p0.task, cargo, p0.base.sleep, set![t], g0.tilemap));
                            lemma_outcome_chain(p0, p1, p2, p0.task, cargo, p0.base.sleep, set![t], Task::Harvest(typ), cargo,
                                p0.base.sleep, Set::empty(), g0.tilemap);
                            assert(set![t].union(Set::empty()) =~= set![t]);
                            assert(is_nearest_resource(g0, tile, typ, Some(t)));
                        }
                        return true;
                    },
                    None => {},
                }
                match self.find_near_provider(tile, team, typ) {
                    Some(b) => {
                        let dest = match self.building(b) {
                            Some(bb) => bb.entrance(),
                            None => tile,
                        };
                        self.set_destination(pi, dest);
                        let ghost g1 = *self;
                        self.update_pawn(pi, Task::TakeFromBuilding(b, typ), cargo, 0);
                        proof {
                            let p0 = g0.pawns@[pi as int].unwrap();
                            let p1 = g1.pawns@[pi as int].unwrap();
                            let p2 = self.pawns@[pi as int].unwrap();
                            assert(pawn_outcome(p0, p1, p0.task, cargo, p0.base.sleep, set![dest], g0.tilemap));
                            lemma_outcome_chain(p0, p1, p2, p0.task, cargo, p0.base.sleep, set![dest], Task::TakeFromBuilding(b, typ), cargo,
                                p0.base.sleep, Set::empty(), g0.tilemap);
                            assert(set![dest].union(Set::empty()) =~= set![dest]);
                        }
                        true
                    },
                    None => false,
                }
            },
            InOut::Out => {
                match self.find_near_receptor(tile, team, typ) {
                    Some(b) => {
                        let hi = hid.index as usize;
                        let taken = self.take_from_output(hi, typ);
                        let ghost g1 = *self;
                        let dest = match self.building(b) {
                            Some(bb) => bb.entrance(),
                            None => tile,
                        };
                        proof {
                            assert(dest == entrance_of(g0, b)) by {
                                if b.index == hid.index {
                                    assert(g1.buildings@[hi as int].unwrap().base == g0.buildings@[hi as int].unwrap().base);
                                } else {
                                    assert(g1.buildings@[b.index as int] == g0.buildings@[b.index as int]);
                                }
                            }
                        }
                        let task_now = self_task_of(&self.pawns, pi);
                        self.update_pawn(pi, task_now, taken, 0);
                        let ghost g2 = *self;
                        self.set_destination(pi, dest);
                        let ghost g3 = *self;
                        self.update_pawn(pi, Task::DeliverToBuilding(b), taken, 0);
                        proof {
                            let p0 = g0.pawns@[pi as int].unwrap();
                            let p2 = g2.pawns@[pi as int].unwrap();
                            let p3 = g3.pawns@[pi as int].unwrap();
                            let p4 = self.pawns@[pi as int].unwrap();
                            assert(pawn_outcome(p2, p3, p2.task, taken, p0.base.sleep, set![dest], g0.tilemap));
                            lemma_outcome_chain(p0, p2, p3, p0.task, taken, p0.base.sleep, Set::empty(), p2.task, taken,
                                p0.base.sleep, set![dest], g0.tilemap);
                            lemma_outcome_chain(p0, p3, p4, p2.task, taken, p0.base.sleep, Set::empty().union(set![dest]),
                                Task::DeliverToBuilding(b), taken, p0.base.sleep, Set::empty(), g0.tilemap);
                            assert(Set::empty().union(set![dest]).union(Set::empty()) =~= set![dest]);
                            assert(self.get_building(hid) == g1.get_building(hid));
                        }
                        true
                    },
                    None => false,
                }
            },
        }
    }
}

/// The task of the pawn in slot `pi` of `pawns` (idle when the slot is empty).
fn self_task_of(pawns: &Vec<Option<Pawn>>, pi: usize) -> (t: Task)
    requires
        pi < pawns@.len(),
    ensures
        pawns@[pi as int] is Some ==> t == pawns@[pi as int].unwrap().task,
{
    match &pawns[pi] {
        Some(p) => p.task,
        None => Task::Idle,
    }
}

/// What the pawn in slot `pi` of `g0` (now `g1`), standing at its home `hid`,
/// plans to do next. With cargo: bring it home when home has an input for it,
/// else to the nearest building of its team with room for it. Without cargo: serve
/// the most urgent slot of its home that it can act on (see `plan_item_outcome`).
/// When nothing can be planned, an idle pawn sleeps `FAIL_DELAY` ticks.
pub open spec fn plan_outcome(g0: G, g1: G, pi: int, hid: Id) -> bool {
    let p = g0.pawns@[pi].unwrap();
    let p2 = g1.pawns@[pi].unwrap();
    let home = g0.get_building(hid).unwrap();
    let map = g0.tilemap;
    let s = p.base.sleep;
    let idle_sleep = if p.task == Task::Idle { spec_sleep_more(s, FAIL_DELAY) } else { s };
    if p.cargo is Some {
        let c = p.cargo.unwrap();
        &&& only_pawn_changed(g0, g1, pi)
        &&& if find_slot(home.spec_inputs(), c) is Some {
            pawn_outcome(p, p2, Task::DeliverToBuilding(hid), p.cargo, s, set![home.base.tile], map)
        } else if nearest_serving(g0, p.base.tile, p.base.team, c, false) is Some {
            let b = nearest_serving(g0, p.base.tile, p.base.team, c, false).unwrap();
            pawn_outcome(p, p2, Task::DeliverToBuilding(b), p.cargo, s, set![entrance_of(g0, b)], map)
        } else {
            pawn_outcome(p, p2, p.task, p.cargo, idle_sleep, Set::empty(), map)
        }
    } else {
        exists|order: Seq<(InOut, ResourceSlot)>| #[trigger] is_priority_order(priority_candidates(home), order) && {
            let k = first_acting(g0, p, order, 0);
            if k == order.len() {
                &&& only_pawn_changed(g0, g1, pi)
                &&& pawn_outcome(p, p2, p.task, p.cargo, idle_sleep, Set::empty(), map)
            } else {
                plan_item_outcome(g0, g1, pi, hid, order[k])
            }
        }
    }
}

impl G {
    /// The pawn in slot `pi`, at its home `hid`, decides what to do next (see
    /// `plan_outcome`).
    pub fn make_plan(&mut self, pi: usize, hid: Id)
        requires
            old(self).wf(),
            pi < old(self).pawns@.len(),
            old(self).pawns@[pi as int] is Some,
            old(self).get_building(hid) is Some,
        ensures
            ui_kept(*old(self), *final(self)),
            buildings_kept(*old(self), *final(self)),
            final(self).wf(),
            plan_outcome(*old(self), *final(self), pi as int, hid),
            final(self).pawns@.len() == old(self).pawns@.len(),
            final(self).pawns@[pi as int] is Some,
            final(self).tick == old(self).tick,
    {
        let (tile, team, task, cargo) = match &self.pawns[pi] {
            Some(p) => (p.base.tile, p.base.team, p.task, p.cargo),
            None => ((0, 0), crate::team::Team(0), Task::Idle, None),
        };
        let hi = hid.index as usize;
        let ghost g0 = *self;
        let ghost p0 = g0.pawns@[pi as int].unwrap();
        match cargo {
            Some(c) => {
                let (has_in, entrance) = match self.building(hid) {
                    Some(b) => {
                        proof { assert(self.buildings@[hi as int].unwrap().wf()); }
                        (b.has_input(c), b.entrance())
                    },
                    None => (false, tile),
                };
                if has_in {
                    self.update_pawn(pi, Task::DeliverToBuilding(hid), cargo, 0);
                    let ghost g1 = *self;
                    self.set_destination(pi, entrance);
                    proof {
                        let p1 = g1.pawns@[pi as int].unwrap();
                        let p2 = self.pawns@[pi as int].unwrap();
                        assert(pawn_outcome(p1, p2, p1.task, cargo, p0.base.sleep, set![entrance], g0.tilemap));
                        lemma_outcome_chain(p0, p1, p2, Task::DeliverToBuilding(hid), cargo, p0.base.sleep, Set::empty(),
                            Task::DeliverToBuilding(hid), cargo, p0.base.sleep, set![entrance], g0.tilemap);
                        assert(Set::empty().union(set![entrance]) =~= set![entrance]);
                    }
                    return;
                }
                match self.find_near_receptor(tile, team, c) {
                    Some(b) => {
                        let dest = match self.building(b) {
                            Some(bb) => bb.entrance(),
                            None => tile,
                        };
                        self.update_pawn(pi, Task::DeliverToBuilding(b), cargo, 0);
                        let ghost g1 = *self;
                        self.set_destination(pi, dest);
                        proof {
                            let p1 = g1.pawns@[pi as int].unwrap();
                            let p2 = self.pawns@[pi as int].unwrap();
                            assert(pawn_outcome(p1, p2, p1.task, cargo, p0.base.sleep, set![dest], g0.tilemap));
                            lemma_outcome_chain(p0, p1, p2, Task::DeliverToBuilding(b), cargo, p0.base.sleep, Set::empty(),
                                Task::DeliverToBuilding(b), cargo, p0.base.sleep, set![dest], g0.tilemap);
                            assert(Set::empty().union(set![dest]) =~= set![dest]);
                        }
                        return;
                    },
                    None => {},
                }
            },
            None => {
                let order = match self.building(hid) {
                    Some(b) => {
                        proof { assert(self.buildings@[hi as int].unwrap().wf()); }
                        slots_by_priority(b)
                    },
                    None => Vec::new(),
                };
                let mut i: usize = 0;
                while i < order.len()
                    invariant
                        *self == g0,
                        *old(self) == g0,
                        g0.wf(),
                        pi < g0.pawns@.len(),
                        g0.pawns@[pi as int] is Some,
                        p0 == g0.pawns@[pi as int].unwrap(),
                        p0.cargo is None,
                        g0.get_building(hid) is Some,
                        i <= order@.len(),
                        forall|j: int| 0 <= j < i ==> !item_acts(g0, p0, #[trigger] order@[j]),
                        is_priority_order(priority_candidates(g0.get_building(hid).unwrap()), order@),
                    decreases order.len() - i,
                {
                    let acted = self.plan_item(pi, hid, order[i]);
                    if acted {
                        proof {
                            lemma_first_acting(g0, p0, order@, 0, i as int);
                            assert(p0.cargo is None);
                            assert(plan_item_outcome(g0, *self, pi as int, hid, order@[i as int]));
                            let home = g0.get_building(hid).unwrap();
                            assert(is_priority_order(priority_candidates(home), order@) && {
                                let k = first_acting(g0, p0, order@, 0);
                                if k == order@.len() {
                                    &&& only_pawn_changed(g0, *self, pi as int)
                                    &&& pawn_outcome(p0, self.pawns@[pi as int].unwrap(), p0.task, p0.cargo,
                                        if p0.task == Task::Idle { spec_sleep_more(p0.base.sleep, FAIL_DELAY) } else { p0.base.sleep },
                                        Set::empty(), g0.tilemap)
                                } else {
                                    plan_item_outcome(g0, *self, pi as int, hid, order@[k])
                                }
                            });
                        }
                        return;
                    }
                    i = i + 1;
                }
                proof { lemma_first_acting(g0, p0, order@, 0, order@.len() as int); }
            },
        }
        if task == Task::Idle {
            self.update_pawn(pi, task, cargo, FAIL_DELAY);
        }
    }
}

/// What a worker in slot `pi` of `g0` (giving `g1`) does when it has reached its
/// destination, by its task: an idle worker plans at its home `hid` (or heads home
/// when not there); the others harvest, bring cargo home, deliver it, or take it
/// from a building.
pub open spec fn delivery_work_outcome(g0: G, g1: G, pi: int, hid: Id) -> bool {
    let p = g0.pawns@[pi].unwrap();
    match p.task {
        Task::Idle => if spec_contains(g0.get_building(hid).unwrap().spec_bounds(), p.base.tile) {
            plan_outcome(g0, g1, pi, hid)
        } else {
            go_home_outcome(g0, g1, pi)
        },
        Task::Harvest(res) => harvest_outcome(g0, g1, pi, res),
        Task::HomeDelivery => home_delivery_outcome(g0, g1, pi),
        Task::DeliverToBuilding(id) => deliver_outcome(g0, g1, pi, id),
        Task::TakeFromBuilding(id, res) => take_outcome(g0, g1, pi, id, res),
    }
}

impl G {
    /// The worker in slot `pi`, with home `hid`, has reached its destination and
    /// does what its task says (see `delivery_work_outcome`).
    pub fn tick_delivery_work(&mut self, pi: usize, hid: Id)
        requires
            old(self).wf(),
            pi < old(self).pawns@.len(),
            old(self).pawns@[pi as int] is Some,
            old(self).get_building(hid) is Some,
        ensures
            ui_kept(*old(self), *final(self)),
            buildings_kept(*old(self), *final(self)),
            final(self).wf(),
            delivery_work_outcome(*old(self), *final(self), pi as int, hid),
            final(self).pawns@.len() == old(self).pawns@.len(),
            final(self).pawns@[pi as int] is Some,
            final(self).tick == old(self).tick,
    {
        let (task, at_home) = match &self.pawns[pi] {
            Some(p) => match self.building(hid) {
                Some(b) => {
                    proof { assert(self.buildings@[hid.index as int].unwrap().wf()); }
                    (p.task, p.is_at_building(b))
                },
                None => (p.task, false),
            },
            None => (Task::Idle, false),
        };
        match task {
            Task::Idle => {
                if at_home {
                    self.make_plan(pi, hid);
                } else {
                    self.go_home(pi);
                }
            },
            Task::Harvest(res) => self.harvest(pi, res),
            Task::HomeDelivery => self.home_delivery(pi),
            Task::DeliverToBuilding(id) => self.deliver_to_building(pi, id),
            Task::TakeFromBuilding(id, res) => self.take_from_building(pi, id, res),
        }
    }
}

} // verus!
