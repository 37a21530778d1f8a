//! The game state: map, resources, buildings, pawns, effects and the rules that
//! keep them consistent.
use vstd::prelude::*;
use crate::building::{Building, footprint_fits, ids_distinct};
use crate::control::Action;
use crate::effects::Effects;
use crate::entity::{EntityType, Id};
use crate::geom::{TilePos, WorldPos};
use crate::ids::{add_id, lemma_with_id, lemma_without_id, remove_id, with_id, without_id};
use crate::pawn::Pawn;
use crate::pawn_typ::spec_is_worker;
use crate::random::seeded_rng;
use crate::resource_map::ResourceMap;
use crate::team::Team;
use crate::tilemap::Tilemap;
use rand_chacha::ChaCha8Rng;

verus! {

/// The game state.
pub struct G {
    pub paused: bool,
    pub frame: u64,
    /// Simulation tick.
    pub tick: u64,
    pub frames_per_tick: u32,
    pub tilemap: Tilemap,
    pub resources: ResourceMap,
    /// Buildings by slot; a removed building leaves an empty slot (ids are not reused).
    pub buildings: Vec<Option<Building>>,
    /// Pawns by slot; a killed pawn leaves an empty slot (ids are not reused).
    pub pawns: Vec<Option<Pawn>>,
    pub effects: Effects,
    /// The team of the human player.
    pub player: Team,
    /// What a right click will do.
    pub contextual_action: Action,
    /// Where the selection rectangle started (mouse down position).
    pub selection_start: Option<WorldPos>,
    pub selected_pawn_ids: Vec<Id>,
    pub selected_entity_ids: Vec<Id>,
    /// Camera position in world coordinates.
    pub camera_pos: WorldPos,
    pub viewport_size: (u32, u32),
    /// Random number generator (seeded, so games replay).
    pub rng: ChaCha8Rng,
}

/// Seed of the game's random number generator.
pub const RNG_SEED: u64 = 12345678;

/// `b2` equals `b1` except that its workers are `w`.
pub open spec fn building_with_workers(b1: Building, b2: Building, w: Seq<Id>) -> bool {
    &&& b2.base == b1.base
    &&& b2.typ == b1.typ
    &&& b2.spec_inputs() == b1.spec_inputs()
    &&& b2.spec_outputs() == b1.spec_outputs()
    &&& b2.workers@ == w
}

/// `p2` has the kind, route, cargo, target and task of `p1`.
pub open spec fn pawn_same_plan(p1: Pawn, p2: Pawn) -> bool {
    &&& p2.typ == p1.typ
    &&& p2.route@ == p1.route@
    &&& p2.route.wf() == p1.route.wf()
    &&& p2.cargo == p1.cargo
    &&& p2.target == p1.target
    &&& p2.task == p1.task
}

/// `p2` equals `p1` except that its home is `h`.
pub open spec fn pawn_with_home(p1: Pawn, p2: Pawn, h: Option<Id>) -> bool {
    &&& p2.base == p1.base
    &&& pawn_same_plan(p1, p2)
    &&& p2.home == h
}

/// Pawn `pid` of `g0` was killed, giving `g1`: it is gone, its home (if any) no
/// longer lists it among its workers, its cargo (if any) lies on its tile unless
/// something lay there already, and a crater marks its tile, appended to the
/// effects `fx`. Everything else stays.
pub open spec fn killed(g0: G, g1: G, pid: Id, fx: Seq<(u64, crate::effects::Effect)>) -> bool {
    let p = g0.get_pawn(pid).unwrap();
    &&& g1.get_pawn(pid) is None
    &&& g1.pawns@.len() == g0.pawns@.len()
    &&& forall|q: Id| q != pid ==> #[trigger] g1.get_pawn(q) == g0.get_pawn(q)
    &&& (p.home is Some ==> (g1.get_building(p.home.unwrap()) is Some
        && building_with_workers(g0.get_building(p.home.unwrap()).unwrap(), g1.get_building(p.home.unwrap()).unwrap(),
            without_id(g0.get_building(p.home.unwrap()).unwrap().workers@, pid))))
    &&& g1.resources@ == (if p.cargo is Some && !g0.resources@.contains_key(p.base.tile) {
        g0.resources@.insert(p.base.tile, p.cargo.unwrap())
    } else {
        g0.resources@
    })
    &&& g1.effects@ == fx.push(((g0.tick + 30) as u64, crate::effects::Effect::Crater(crate::effects::Crater { tile: p.base.tile })))
    &&& g1.buildings@.len() == g0.buildings@.len()
    &&& forall|c: Id| g0.get_building(c) is Some ==> #[trigger] g1.get_building(c) is Some
    &&& forall|c: Id| p.home != Some(c) ==> #[trigger] g1.get_building(c) == g0.get_building(c)
    &&& g1.tilemap == g0.tilemap
    &&& g1.tick == g0.tick
}

/// `g1` keeps what the player sees and controls of `g0`: pause, frame count,
/// frames per tick, player, right-click action, selections and the dragged
/// rectangle, camera and viewport.
pub open spec fn ui_kept(g0: G, g1: G) -> bool {
    &&& g1.paused == g0.paused
    &&& g1.frame == g0.frame
    &&& g1.frames_per_tick == g0.frames_per_tick
    &&& g1.player == g0.player
    &&& g1.contextual_action == g0.contextual_action
    &&& g1.selection_start == g0.selection_start
    &&& g1.selected_pawn_ids@ == g0.selected_pawn_ids@
    &&& g1.selected_entity_ids@ == g0.selected_entity_ids@
    &&& g1.camera_pos == g0.camera_pos
    &&& g1.viewport_size == g0.viewport_size
}

/// The buildings of `g1` stand in the slots of those of `g0`, each with the same
/// kind and entity state.
pub open spec fn buildings_kept(g0: G, g1: G) -> bool {
    &&& g1.buildings@.len() == g0.buildings@.len()
    &&& forall|j: int| 0 <= j < g0.buildings@.len() ==> {
        &&& (#[trigger] g1.buildings@[j] is Some) == (g0.buildings@[j] is Some)
        &&& g0.buildings@[j] is Some ==> g1.buildings@[j].unwrap().base == g0.buildings@[j].unwrap().base
            && g1.buildings@[j].unwrap().typ == g0.buildings@[j].unwrap().typ
    }
}

impl G {
    /// The building with identifier `id`, if it exists.
    pub open spec fn get_building(&self, id: Id) -> Option<Building> {
        if id.type_id == EntityType::Building && 0 <= id.index < self.buildings@.len() {
            self.buildings@[id.index as int]
        } else {
            None
        }
    }

    /// The pawn with identifier `id`, if it exists.
    pub open spec fn get_pawn(&self, id: Id) -> Option<Pawn> {
        if id.type_id == EntityType::Pawn && 0 <= id.index < self.pawns@.len() {
            self.pawns@[id.index as int]
        } else {
            None
        }
    }

    /// Every stored entity is well formed and knows its own identifier, and the
    /// identifiers fit their counters.
    pub open spec fn storage_wf(&self) -> bool {
        &&& self.buildings@.len() < u32::MAX
        &&& self.pawns@.len() < u32::MAX
        &&& forall|i: int| 0 <= i < self.buildings@.len() && (#[trigger] self.buildings@[i]) is Some ==> {
            &&& self.buildings@[i].unwrap().wf()
            &&& self.buildings@[i].unwrap().base.id == (Id { index: i as u32, type_id: EntityType::Building })
        }
        &&& forall|i: int| 0 <= i < self.pawns@.len() && (#[trigger] self.pawns@[i]) is Some ==> {
            &&& self.pawns@[i].unwrap().route.wf()
            &&& self.pawns@[i].unwrap().base.id == (Id { index: i as u32, type_id: EntityType::Pawn })
        }
    }

    /// A pawn's home building exists and lists the pawn among its workers; every
    /// worker of a building exists and has that building as its home.
    pub open spec fn homes_consistent(&self) -> bool {
        &&& forall|i: int| 0 <= i < self.pawns@.len() && (#[trigger] self.pawns@[i]) is Some && self.pawns@[i].unwrap().home is Some
            ==> (self.get_building(self.pawns@[i].unwrap().home.unwrap()) matches Some(b)
                && b.workers@.contains(self.pawns@[i].unwrap().base.id))
        &&& forall|i: int, w: Id| 0 <= i < self.buildings@.len() && self.buildings@[i] is Some
            && (#[trigger] self.buildings@[i].unwrap().workers@.contains(w))
            ==> (self.get_pawn(w) matches Some(p) && p.home == Some(self.buildings@[i].unwrap().base.id))
    }

    /// The game state is well formed.
    pub open spec fn wf(&self) -> bool {
        &&& self.tilemap.wf()
        &&& self.storage_wf()
        &&& self.homes_consistent()
    }

    /// A new game on a `size` map of dunes for player `player`: no entities, no
    /// resources, tick 0, eight frames per tick.
    pub fn new(size: (u16, u16), player: Team) -> (g: G)
        ensures
            g.wf(),
            g.tilemap.spec_size() == size,
            forall|p: TilePos| #[trigger] g.tilemap.spec_at(p) == crate::tile::Tile::Dunes,
            g.buildings@.len() == 0,
            g.pawns@.len() == 0,
            g.resources@.dom().is_empty(),
            g.tick == 0,
            g.frame == 0,
            g.frames_per_tick == 8,
            g.player == player,
            !g.paused,
            g.effects@.len() == 0,
            g.contextual_action == Action::Nothing,
            g.selection_start is None,
            g.selected_pawn_ids@.len() == 0,
            g.selected_entity_ids@.len() == 0,
            g.camera_pos == (40i32, 70i32),
            g.viewport_size == (0u32, 0u32),
    {
        let g = G {
            paused: false,
            frame: 0,
            tick: 0,
            frames_per_tick: 8,
            tilemap: Tilemap::new(size),
            resources: ResourceMap::new(),
            buildings: Vec::new(),
            pawns: Vec::new(),
            effects: Effects::new(),
            player,
            contextual_action: Action::Nothing,
            selection_start: None,
            selected_pawn_ids: Vec::new(),
            selected_entity_ids: Vec::new(),
            camera_pos: (40, 70),
            viewport_size: (0, 0),
            rng: seeded_rng(RNG_SEED),
        };
        g
    }

    /// The building with identifier `id`, if it exists.
    pub fn building(&self, id: Id) -> (r: Option<&Building>)
        ensures
            r matches Some(b) ==> self.get_building(id) == Some(*b),
            r is None ==> self.get_building(id) is None,
    {
        if id.type_id == EntityType::Building && (id.index as usize) < self.buildings.len() {
            match &self.buildings[id.index as usize] {
                Some(b) => Some(b),
                None => None,
            }
        } else {
            None
        }
    }

    /// The pawn with identifier `id`, if it exists.
    pub fn pawn(&self, id: Id) -> (r: Option<&Pawn>)
        ensures
            r matches Some(p) ==> self.get_pawn(id) == Some(*p),
            r is None ==> self.get_pawn(id) is None,
    {
        if id.type_id == EntityType::Pawn && (id.index as usize) < self.pawns.len() {
            match &self.pawns[id.index as usize] {
                Some(p) => Some(p),
                None => None,
            }
        } else {
            None
        }
    }

    /// Add a pawn to the game. It gets the next pawn identifier, which is returned.
    /// Everything else stays as it was.
    pub fn spawn_pawn(&mut self, pawn: Pawn) -> (id: Id)
        requires
            old(self).wf(),
            old(self).pawns@.len() + 1 < u32::MAX,
            pawn.home is None,
            pawn.route.wf(),
        ensures
            ui_kept(*old(self), *final(self)),
            final(self).wf(),
            id == (Id { index: old(self).pawns@.len() as u32, type_id: EntityType::Pawn }),
            final(self).pawns@.len() == old(self).pawns@.len() + 1,
            forall|i: int| 0 <= i < old(self).pawns@.len() ==> #[trigger] final(self).pawns@[i] == old(self).pawns@[i],
            final(self).get_pawn(id) matches Some(p) && pawn_same_plan(pawn, p) && p.home is None
                && p.base == (crate::entity::Base { id, ..pawn.base }),
            final(self).buildings@ == old(self).buildings@,
            final(self).tilemap == old(self).tilemap,
            final(self).resources@ == old(self).resources@,
            final(self).effects@ == old(self).effects@,
            final(self).tick == old(self).tick,
    {
        let mut pawn = pawn;
        let id = Id { index: self.pawns.len() as u32, type_id: EntityType::Pawn };
        pawn.base.id = id;
        let ghost old_g = *self;
        self.pawns.push(Some(pawn));
        proof {
            assert forall|i: int| 0 <= i < self.pawns@.len() && (#[trigger] self.pawns@[i]) is Some && self.pawns@[i].unwrap().home is Some
                implies (self.get_building(self.pawns@[i].unwrap().home.unwrap()) matches Some(b)
                    && b.workers@.contains(self.pawns@[i].unwrap().base.id)) by {
                assert(i < old_g.pawns@.len());
                assert(old_g.pawns@[i] == self.pawns@[i]);
            }
            assert forall|i: int, w: Id| 0 <= i < self.buildings@.len() && self.buildings@[i] is Some
                && (#[trigger] self.buildings@[i].unwrap().workers@.contains(w))
                implies (self.get_pawn(w) matches Some(p) && p.home == Some(self.buildings@[i].unwrap().base.id)) by {
                assert(old_g.buildings@[i] == self.buildings@[i]);
                assert(old_g.get_pawn(w) is Some);
                assert(w.index < old_g.pawns@.len());
                assert(self.pawns@[w.index as int] == old_g.pawns@[w.index as int]);
            }
        }
        id
    }

    /// Replace the workers of the building in slot `bi` by `f(workers)`, where `f`
    /// removes (`add == false`) or adds (`add == true`) the identifier `w`.
    fn update_workers(&mut self, bi: usize, w: Id, add: bool)
        requires
            bi < old(self).buildings@.len(),
            old(self).buildings@[bi as int] is Some,
        ensures
            ui_kept(*old(self), *final(self)),
            final(self).buildings@.len() == old(self).buildings@.len(),
            final(self).buildings@[bi as int] is Some,
            building_with_workers(
                old(self).buildings@[bi as int].unwrap(),
                final(self).buildings@[bi as int].unwrap(),
                if add { with_id(old(self).buildings@[bi as int].unwrap().workers@, w) } else { without_id(old(self).buildings@[bi as int].unwrap().workers@, w) },
            ),
            forall|j: int| 0 <= j < old(self).buildings@.len() && j != bi ==> #[trigger] final(self).buildings@[j] == old(self).buildings@[j],
            final(self).pawns@ == old(self).pawns@,
            final(self).tilemap == old(self).tilemap,
            final(self).resources@ == old(self).resources@,
            final(self).effects@ == old(self).effects@,
            final(self).tick == old(self).tick,
    {
        let mut slot: Option<Building> = None;
        self.buildings.set_and_swap(bi, &mut slot);
        let mut b = slot.unwrap();
        if add {
            add_id(&mut b.workers, w);
        } else {
            remove_id(&mut b.workers, w);
        }
        let mut slot2 = Some(b);
        self.buildings.set_and_swap(bi, &mut slot2);
    }

    /// Set the home of the pawn in slot `pi` to `h`.
    fn set_home(&mut self, pi: usize, h: Option<Id>)
        requires
            pi < old(self).pawns@.len(),
            old(self).pawns@[pi as int] is Some,
        ensures
            ui_kept(*old(self), *final(self)),
            final(self).pawns@.len() == old(self).pawns@.len(),
            final(self).pawns@[pi as int] is Some,
            pawn_with_home(old(self).pawns@[pi as int].unwrap(), final(self).pawns@[pi as int].unwrap(), h),
            forall|j: int| 0 <= j < old(self).pawns@.len() && j != pi ==> #[trigger] final(self).pawns@[j] == old(self).pawns@[j],
            final(self).buildings@ == old(self).buildings@,
            final(self).tilemap == old(self).tilemap,
            final(self).resources@ == old(self).resources@,
            final(self).effects@ == old(self).effects@,
            final(self).tick == old(self).tick,
    {
        let mut slot: Option<Pawn> = None;
        self.pawns.set_and_swap(pi, &mut slot);
        let mut p = slot.unwrap();
        p.home = h;
        let mut slot2 = Some(p);
        self.pawns.set_and_swap(pi, &mut slot2);
    }

    /// Assign the pawn `pid` to work at building `bid`, if it is a worker of the same
    /// team (otherwise nothing changes): the pawn leaves the workers of its old home,
    /// joins the workers of `bid`, and `bid` becomes its home.
    pub fn assign_to(&mut self, pid: Id, bid: Id)
        requires
            old(self).wf(),
            old(self).get_pawn(pid) is Some,
            old(self).get_building(bid) is Some,
        ensures
            ui_kept(*old(self), *final(self)),
            final(self).wf(),
            ({
                let p = old(self).get_pawn(pid).unwrap();
                let b = old(self).get_building(bid).unwrap();
                if spec_is_worker(p.typ) && p.base.team == b.base.team {
                    &&& final(self).get_pawn(pid) matches Some(p2) && pawn_with_home(p, p2, Some(bid))
                    &&& final(self).get_building(bid) matches Some(b2) && building_with_workers(b, b2,
                        with_id(if p.home == Some(bid) { without_id(b.workers@, pid) } else { b.workers@ }, pid))
                    &&& (p.home is Some && p.home.unwrap() != bid ==> (final(self).get_building(p.home.unwrap()) matches Some(hb)
                        && building_with_workers(old(self).get_building(p.home.unwrap()).unwrap(), hb,
                            without_id(old(self).get_building(p.home.unwrap()).unwrap().workers@, pid))))
                    &&& forall|c: Id| c != bid && p.home != Some(c) ==> #[trigger] final(self).get_building(c) == old(self).get_building(c)
                } else {
                    final(self).pawns@ == old(self).pawns@ && final(self).buildings@ == old(self).buildings@
                }
            }),
            final(self).pawns@.len() == old(self).pawns@.len(),
            final(self).buildings@.len() == old(self).buildings@.len(),
            forall|q: Id| q != pid ==> #[trigger] final(self).get_pawn(q) == old(self).get_pawn(q),
            forall|c: Id| old(self).get_building(c) is Some ==> #[trigger] final(self).get_building(c) is Some,
            final(self).tilemap == old(self).tilemap,
            final(self).resources@ == old(self).resources@,
            final(self).effects@ == old(self).effects@,
            final(self).tick == old(self).tick,
    {
        let pi = pid.index as usize;
        let bi = bid.index as usize;
        let can = match (&self.pawns[pi], &self.buildings[bi]) {
            (Some(p), Some(b)) => p.can_assign_to(b),
            _ => false,
        };
        if !can {
            return;
        }
        let ghost g0 = *self;
        let old_home = match &self.pawns[pi] {
            Some(p) => p.home,
            None => None,
        };
        let ghost p0 = g0.pawns@[pi as int].unwrap();
        let ghost b0 = g0.buildings@[bi as int].unwrap();
        if let Some(h) = old_home {
            proof { assert(g0.pawns@[pi as int] is Some); }
            self.update_workers(h.index as usize, pid, false);
        }
        let ghost g1 = *self;
        self.update_workers(bi, pid, true);
        let ghost g2 = *self;
        self.set_home(pi, Some(bid));
        proof {
            self.lemma_assign_consistent(g0, g1, g2, pid, bid);
        }
    }

    proof fn lemma_assign_consistent(&self, g0: G, g1: G, g2: G, pid: Id, bid: Id)
        requires
            g0.wf(),
            g0.get_pawn(pid) is Some,
            g0.get_building(bid) is Some,
            ({
                let p0 = g0.get_pawn(pid).unwrap();
                match p0.home {
                    Some(h) => {
                        &&& g1.buildings@.len() == g0.buildings@.len()
                        &&& g1.buildings@[h.index as int] is Some
                        &&& building_with_workers(g0.buildings@[h.index as int].unwrap(), g1.buildings@[h.index as int].unwrap(),
                            without_id(g0.buildings@[h.index as int].unwrap().workers@, pid))
                        &&& forall|j: int| 0 <= j < g0.buildings@.len() && j != h.index ==> #[trigger] g1.buildings@[j] == g0.buildings@[j]
                        &&& g1.pawns@ == g0.pawns@
                    },
                    None => g1.buildings@ == g0.buildings@ && g1.pawns@ == g0.pawns@,
                }
            }),
            g2.buildings@.len() == g1.buildings@.len(),
            g2.buildings@[bid.index as int] is Some,
            building_with_workers(g1.buildings@[bid.index as int].unwrap(), g2.buildings@[bid.index as int].unwrap(),
                with_id(g1.buildings@[bid.index as int].unwrap().workers@, pid)),
            forall|j: int| 0 <= j < g1.buildings@.len() && j != bid.index ==> #[trigger] g2.buildings@[j] == g1.buildings@[j],
            g2.pawns@ == g1.pawns@,
            self.pawns@.len() == g2.pawns@.len(),
            self.pawns@[pid.index as int] is Some,
            pawn_with_home(g2.pawns@[pid.index as int].unwrap(), self.pawns@[pid.index as int].unwrap(), Some(bid)),
            forall|j: int| 0 <= j < g2.pawns@.len() && j != pid.index ==> #[trigger] self.pawns@[j] == g2.pawns@[j],
            self.buildings@ == g2.buildings@,
            self.tilemap == g0.tilemap,
        ensures
            self.wf(),
            ({
                let p = g0.get_pawn(pid).unwrap();
                let b = g0.get_building(bid).unwrap();
                &&& self.get_pawn(pid) matches Some(p2) && pawn_with_home(p, p2, Some(bid))
                &&& self.get_building(bid) matches Some(b2) && building_with_workers(b, b2,
                    with_id(if p.home == Some(bid) { without_id(b.workers@, pid) } else { b.workers@ }, pid))
                &&& (p.home is Some && p.home.unwrap() != bid ==> (self.get_building(p.home.unwrap()) matches Some(hb)
                    && building_with_workers(g0.get_building(p.home.unwrap()).unwrap(), hb,
                        without_id(g0.get_building(p.home.unwrap()).unwrap().workers@, pid))))
                &&& forall|c: Id| c != bid && p.home != Some(c) ==> #[trigger] self.get_building(c) == g0.get_building(c)
            }),
            forall|q: Id| q != pid ==> #[trigger] self.get_pawn(q) == g0.get_pawn(q),
            forall|c: Id| g0.get_building(c) is Some ==> #[trigger] self.get_building(c) is Some,
    {
        let pi = pid.index as int;
        let bi = bid.index as int;
        let p0 = g0.get_pawn(pid).unwrap();
        let b0 = g0.buildings@[bi].unwrap();
        // the old home exists and lists the pawn
        if let Some(h) = p0.home {
            assert(g0.pawns@[pi] is Some);
            assert(g0.get_building(h) is Some);
            lemma_without_id(g0.buildings@[h.index as int].unwrap().workers@, pid);
        }
        let w1 = g1.buildings@[bi].unwrap().workers@;
        lemma_with_id(w1, pid);
        lemma_without_id(b0.workers@, pid);
        // buildings: every slot that exists in g0 exists in self, with the same state except workers
        assert forall|j: int| 0 <= j < self.buildings@.len() && (#[trigger] self.buildings@[j]) is Some implies {
            &&& self.buildings@[j].unwrap().wf()
            &&& self.buildings@[j].unwrap().base.id == (Id { index: j as u32, type_id: EntityType::Building })
        } by {
            assert(g0.buildings@[j] is Some);
            let bj = g0.buildings@[j].unwrap();
            if j == bi {
                if let Some(h) = p0.home {
                    if h.index == j {
                        lemma_without_id(bj.workers@, pid);
                    }
                }
            } else if p0.home is Some && p0.home.unwrap().index == j {
                lemma_without_id(bj.workers@, pid);
            }
        }
        assert forall|j: int| 0 <= j < self.pawns@.len() && (#[trigger] self.pawns@[j]) is Some implies {
            &&& self.pawns@[j].unwrap().route.wf()
            &&& self.pawns@[j].unwrap().base.id == (Id { index: j as u32, type_id: EntityType::Pawn })
        } by {
            assert(g0.pawns@[j] is Some);
        }
        // pawn -> home
        assert forall|i: int| 0 <= i < self.pawns@.len() && (#[trigger] self.pawns@[i]) is Some && self.pawns@[i].unwrap().home is Some
            implies (self.get_building(self.pawns@[i].unwrap().home.unwrap()) matches Some(b)
                && b.workers@.contains(self.pawns@[i].unwrap().base.id)) by {
            if i != pi {
                let q = g0.pawns@[i].unwrap();
                assert(self.pawns@[i] == g0.pawns@[i]);
                let h = q.home.unwrap();
                assert(g0.get_building(h) is Some);
                assert(g0.get_building(h).unwrap().workers@.contains(q.base.id));
                assert(q.base.id != pid);
                let hb0 = g0.buildings@[h.index as int].unwrap();
                lemma_without_id(hb0.workers@, pid);
                if h.index == bi {
                    lemma_without_id(b0.workers@, pid);
                    assert(w1.contains(q.base.id));
                }
            }
        }
        // building -> workers
        assert forall|i: int, w: Id| 0 <= i < self.buildings@.len() && self.buildings@[i] is Some
            && (#[trigger] self.buildings@[i].unwrap().workers@.contains(w))
            implies (self.get_pawn(w) matches Some(p) && p.home == Some(self.buildings@[i].unwrap().base.id)) by {
            let bj = g0.buildings@[i].unwrap();
            assert(g0.buildings@[i] is Some);
            if w == pid {
                if i != bi {
                    if p0.home is Some && p0.home.unwrap().index == i {
                        lemma_without_id(bj.workers@, pid);
                        assert(false);
                    } else {
                        assert(self.buildings@[i] == g0.buildings@[i]);
                        assert(g0.get_pawn(pid).unwrap().home == Some(bj.base.id));
                        assert(false);
                    }
                }
            } else {
                if i == bi {
                    assert(w1.contains(w));
                    if p0.home is Some && p0.home.unwrap().index == i {
                        lemma_without_id(bj.workers@, pid);
                    }
                    assert(bj.workers@.contains(w));
                } else if p0.home is Some && p0.home.unwrap().index == i {
                    lemma_without_id(bj.workers@, pid);
                    assert(bj.workers@.contains(w));
                } else {
                    assert(self.buildings@[i] == g0.buildings@[i]);
                }
                assert(g0.get_pawn(w) is Some);
                assert(w.index != pid.index);
                assert(self.pawns@[w.index as int] == g0.pawns@[w.index as int]);
            }
        }
        if let Some(h) = p0.home {
            if h != bid {
                lemma_without_id(g0.buildings@[h.index as int].unwrap().workers@, pid);
            }
        }
        assert forall|q: Id| q != pid implies #[trigger] self.get_pawn(q) == g0.get_pawn(q) by {
            if q.type_id == EntityType::Pawn && 0 <= q.index < self.pawns@.len() {
                if q.index == pid.index {
                    assert(g0.pawns@[pi] is Some);
                    assert(g0.pawns@[pi].unwrap().base.id == pid);
                }
            }
        }
    }

    /// Kill the pawn `pid`: it leaves the game and the workers of its home; the cargo
    /// it carried drops on its tile if nothing lies there; a crater marks the spot.
    #[verifier::rlimit(40)]
    pub fn kill_pawn(&mut self, pid: Id)
        requires
            old(self).wf(),
            old(self).get_pawn(pid) is Some,
            old(self).tick + 30 <= u64::MAX,
        ensures
            ui_kept(*old(self), *final(self)),
            final(self).wf(),
            killed(*old(self), *final(self), pid, old(self).effects@),
            buildings_kept(*old(self), *final(self)),
    {
        let pi = pid.index as usize;
        let ghost g0 = *self;
        let mut slot: Option<Pawn> = None;
        self.pawns.set_and_swap(pi, &mut slot);
        let p = slot.unwrap();
        let ghost g1 = *self;
        if let Some(h) = p.home {
            proof { assert(g0.pawns@[pi as int] is Some); }
            self.update_workers(h.index as usize, pid, false);
        }
        if let Some(res) = p.cargo {
            if self.resources.at(p.base.tile).is_none() {
                self.resources.insert(p.base.tile, res);
            }
        }
        self.effects.add_crater(self.tick, p.base.tile);
        proof {
            let p0 = g0.pawns@[pi as int].unwrap();
            assert(p0 == p);
            if let Some(h) = p0.home {
                lemma_without_id(g0.buildings@[h.index as int].unwrap().workers@, pid);
            }
            assert forall|j: int| 0 <= j < self.buildings@.len() && (#[trigger] self.buildings@[j]) is Some implies {
                &&& self.buildings@[j].unwrap().wf()
                &&& self.buildings@[j].unwrap().base.id == (Id { index: j as u32, type_id: EntityType::Building })
            } by {
                assert(g0.buildings@[j] is Some);
                if p0.home is Some && p0.home.unwrap().index == j {
                    lemma_without_id(g0.buildings@[j].unwrap().workers@, pid);
                }
            }
            assert forall|j: int| 0 <= j < self.pawns@.len() && (#[trigger] self.pawns@[j]) is Some implies {
                &&& self.pawns@[j].unwrap().route.wf()
                &&& self.pawns@[j].unwrap().base.id == (Id { index: j as u32, type_id: EntityType::Pawn })
            } by {
                assert(j != pi);
                assert(self.pawns@[j] == g0.pawns@[j]);
            }
            assert forall|i: int| 0 <= i < self.pawns@.len() && (#[trigger] self.pawns@[i]) is Some && self.pawns@[i].unwrap().home is Some
                implies (self.get_building(self.pawns@[i].unwrap().home.unwrap()) matches Some(b)
                    && b.workers@.contains(self.pawns@[i].unwrap().base.id)) by {
                assert(i != pi);
                let q = g0.pawns@[i].unwrap();
                assert(self.pawns@[i] == g0.pawns@[i]);
                let h = q.home.unwrap();
                assert(g0.get_building(h) is Some);
                assert(q.base.id != pid);
                lemma_without_id(g0.buildings@[h.index as int].unwrap().workers@, pid);
            }
            assert forall|i: int, w: Id| 0 <= i < self.buildings@.len() && self.buildings@[i] is Some
                && (#[trigger] self.buildings@[i].unwrap().workers@.contains(w))
                implies (self.get_pawn(w) matches Some(q) && q.home == Some(self.buildings@[i].unwrap().base.id)) by {
                let bj = g0.buildings@[i].unwrap();
                assert(g0.buildings@[i] is Some);
                if p0.home is Some && p0.home.unwrap().index == i {
                    lemma_without_id(bj.workers@, pid);
                } else {
                    assert(self.buildings@[i] == g0.buildings@[i]);
                }
                assert(bj.workers@.contains(w));
                assert(g0.get_pawn(w) is Some);
                if w == pid {
                    assert(p0.home == Some(bj.base.id));
                    assert(false);
                }
                assert(w.index != pid.index);
                assert(self.pawns@[w.index as int] == g0.pawns@[w.index as int]);
            }
            assert forall|q: Id| q != pid implies #[trigger] self.get_pawn(q) == g0.get_pawn(q) by {
                if q.type_id == EntityType::Pawn && 0 <= q.index < self.pawns@.len() && q.index == pid.index {
                    assert(g0.pawns@[pi as int].unwrap().base.id == pid);
                }
            }
        }
    }

    /// Kill the building `bid`: it leaves the game, its workers lose their home, and
    /// a crater marks every tile of its footprint (column by column).
    pub fn kill_building(&mut self, bid: Id)
        requires
            old(self).wf(),
            old(self).get_building(bid) is Some,
            old(self).tick + 30 <= u64::MAX,
        ensures
            ui_kept(*old(self), *final(self)),
            final(self).wf(),
            final(self).get_building(bid) is None,
            forall|c: Id| c != bid ==> #[trigger] final(self).get_building(c) == old(self).get_building(c),
            forall|q: Id| #[trigger] final(self).get_pawn(q) is Some == old(self).get_pawn(q) is Some,
            forall|q: Id| old(self).get_pawn(q) is Some && old(self).get_pawn(q).unwrap().home == Some(bid)
                ==> pawn_with_home(old(self).get_pawn(q).unwrap(), #[trigger] final(self).get_pawn(q).unwrap(), None),
            forall|q: Id| old(self).get_pawn(q) is Some && old(self).get_pawn(q).unwrap().home != Some(bid)
                ==> #[trigger] final(self).get_pawn(q) == old(self).get_pawn(q),
            final(self).effects@ == old(self).effects@ + footprint_craters(old(self).tick, old(self).get_building(bid).unwrap().spec_bounds()),
            final(self).buildings@.len() == old(self).buildings@.len(),
            final(self).pawns@.len() == old(self).pawns@.len(),
            final(self).resources@ == old(self).resources@,
            final(self).tilemap == old(self).tilemap,
            final(self).tick == old(self).tick,
    {
        let bi = bid.index as usize;
        let ghost g0 = *self;
        let mut slot: Option<Building> = None;
        self.buildings.set_and_swap(bi, &mut slot);
        let b = slot.unwrap();
        let ghost g1 = *self;
        proof {
            assert(g0.buildings@[bi as int] is Some);
            assert(b == g0.buildings@[bi as int].unwrap());
        }
        let mut k: usize = 0;
        while k < b.workers.len()
            invariant
                g0.wf(),
                g0.get_building(bid) == Some(b),
                b.wf(),
                bi == bid.index,
                k <= b.workers@.len(),
                self.pawns@.len() == g0.pawns@.len(),
                ui_kept(g0, *self),
                self.buildings@ == g1.buildings@,
                self.tilemap == g0.tilemap,
                self.resources@ == g0.resources@,
                self.effects@ == g0.effects@,
                self.tick == g0.tick,
                forall|j: int| 0 <= j < self.pawns@.len() ==> (#[trigger] self.pawns@[j]) is Some == g0.pawns@[j] is Some,
                forall|j: int| 0 <= j < self.pawns@.len() && g0.pawns@[j] is Some && g0.pawns@[j].unwrap().home == Some(bid)
                    && (exists|m: int| 0 <= m < k && b.workers@[m].index == j)
                    ==> pawn_with_home(g0.pawns@[j].unwrap(), #[trigger] self.pawns@[j].unwrap(), None),
                forall|j: int| 0 <= j < self.pawns@.len() && !(exists|m: int| 0 <= m < k && b.workers@[m].index == j)
                    ==> #[trigger] self.pawns@[j] == g0.pawns@[j],
            decreases b.workers.len() - k,
        {
            let w = b.workers[k];
            proof {
                assert(b.workers@.contains(w));
                assert(g0.buildings@[bi as int].unwrap().workers@.contains(w));
                assert(g0.get_pawn(w) is Some);
                assert(g0.get_pawn(w).unwrap().home == Some(bid));
                assert(self.pawns@[w.index as int] is Some);
            }
            let ghost before = *self;
            self.set_home(w.index as usize, None);
            proof {
                assert forall|j: int| 0 <= j < self.pawns@.len() && g0.pawns@[j] is Some && g0.pawns@[j].unwrap().home == Some(bid)
                    && (exists|m: int| 0 <= m < k + 1 && b.workers@[m].index == j)
                    implies pawn_with_home(g0.pawns@[j].unwrap(), #[trigger] self.pawns@[j].unwrap(), None) by {
                    if j != w.index {
                        let m = choose|m: int| 0 <= m < k + 1 && b.workers@[m].index == j;
                        assert(m != k);
                        assert(exists|m: int| 0 <= m < k && b.workers@[m].index == j);
                    } else {
                        if exists|m: int| 0 <= m < k && b.workers@[m].index == j {
                        } else {
                            assert(before.pawns@[j] == g0.pawns@[j]);
                        }
                    }
                }
                assert forall|j: int| 0 <= j < self.pawns@.len() && !(exists|m: int| 0 <= m < k + 1 && b.workers@[m].index == j)
                    implies #[trigger] self.pawns@[j] == g0.pawns@[j] by {
                    assert(b.workers@[k as int].index == w.index);
                    assert(j != w.index);
                    assert(!(exists|m: int| 0 <= m < k && b.workers@[m].index == j)) by {
                        if exists|m: int| 0 <= m < k && b.workers@[m].index == j {
                            let m = choose|m: int| 0 <= m < k && b.workers@[m].index == j;
                            assert(0 <= m < k + 1 && b.workers@[m].index == j);
                        }
                    }
                }
            }
            k = k + 1;
        }
        let ghost g2 = *self;
        let bounds = b.bounds();
        let mut x: i16 = bounds.min.0;
        while x < bounds.max.0
            invariant
                bounds == b.spec_bounds(),
                b.wf(),
                bounds.min.0 <= x <= bounds.max.0,
                bounds.min.0 < bounds.max.0,
                bounds.min.1 < bounds.max.1,
                g0.tick + 30 <= u64::MAX,
                ui_kept(g0, *self),
                self.tick == g0.tick,
                self.pawns@ == g2.pawns@,
                self.buildings@ == g2.buildings@,
                self.tilemap == g0.tilemap,
                self.resources@ == g0.resources@,
                self.effects@ == g0.effects@ + footprint_craters(g0.tick, bounds).take((x - bounds.min.0) * (bounds.max.1 - bounds.min.1)),
            decreases bounds.max.0 - x,
        {
            let mut y: i16 = bounds.min.1;
            while y < bounds.max.1
                invariant
                    bounds == b.spec_bounds(),
                    b.wf(),
                    bounds.min.0 <= x < bounds.max.0,
                    bounds.min.1 <= y <= bounds.max.1,
                    g0.tick + 30 <= u64::MAX,
                    ui_kept(g0, *self),
                    self.tick == g0.tick,
                    self.pawns@ == g2.pawns@,
                    self.buildings@ == g2.buildings@,
                    self.tilemap == g0.tilemap,
                    self.resources@ == g0.resources@,
                    self.effects@ == g0.effects@ + footprint_craters(g0.tick, bounds).take(
                        (x - bounds.min.0) * (bounds.max.1 - bounds.min.1) + (y - bounds.min.1),
                    ),
                decreases bounds.max.1 - y,
            {
                let ghost k = (x - bounds.min.0) * (bounds.max.1 - bounds.min.1) + (y - bounds.min.1);
                proof { lemma_footprint_crater(g0.tick, bounds, x, y); }
                self.effects.add_crater(self.tick, (x, y));
                proof {
                    let c = footprint_craters(g0.tick, bounds);
                    assert(c.take(k + 1) == c.take(k).push(c[k]));
                }
                y = y + 1;
            }
            proof {
                let h = bounds.max.1 - bounds.min.1;
                assert((x - bounds.min.0) * h + h == (x + 1 - bounds.min.0) * h) by (nonlinear_arith);
            }
            x = x + 1;
        }
        proof {
            let c = footprint_craters(g0.tick, bounds);
            assert(c.take(c.len() as int) == c);
            assert((bounds.max.0 - bounds.min.0) * (bounds.max.1 - bounds.min.1) == c.len());
            // consistency
            assert forall|j: int| 0 <= j < self.buildings@.len() && (#[trigger] self.buildings@[j]) is Some implies {
                &&& self.buildings@[j].unwrap().wf()
                &&& self.buildings@[j].unwrap().base.id == (Id { index: j as u32, type_id: EntityType::Building })
            } by {
                assert(self.buildings@[j] == g0.buildings@[j]);
            }
            assert forall|j: int| 0 <= j < self.pawns@.len() && (#[trigger] self.pawns@[j]) is Some implies {
                &&& self.pawns@[j].unwrap().route.wf()
                &&& self.pawns@[j].unwrap().base.id == (Id { index: j as u32, type_id: EntityType::Pawn })
            } by {
                assert(g0.pawns@[j] is Some);
                if exists|m: int| 0 <= m < b.workers@.len() && b.workers@[m].index == j {
                    let m = choose|m: int| 0 <= m < b.workers@.len() && b.workers@[m].index == j;
                    let w = b.workers@[m];
                    assert(g0.buildings@[bi as int].unwrap().workers@.contains(w));
                    assert(g0.get_pawn(w) is Some);
                    assert(g0.get_pawn(w).unwrap().home == Some(bid));
                } else {
                    assert(self.pawns@[j] == g0.pawns@[j]);
                }
            }
            assert forall|i: int| 0 <= i < self.pawns@.len() && (#[trigger] self.pawns@[i]) is Some && self.pawns@[i].unwrap().home is Some
                implies (self.get_building(self.pawns@[i].unwrap().home.unwrap()) matches Some(bb)
                    && bb.workers@.contains(self.pawns@[i].unwrap().base.id)) by {
                assert(g0.pawns@[i] is Some);
                let q = g0.pawns@[i].unwrap();
                if q.home == Some(bid) {
                    assert(g0.get_building(bid).unwrap().workers@.contains(q.base.id));
                    let m = choose|m: int| 0 <= m < b.workers@.len() && b.workers@[m] == q.base.id;
                    assert(b.workers@[m].index == i);
                } else {
                    if exists|m: int| 0 <= m < b.workers@.len() && b.workers@[m].index == i {
                        let m = choose|m: int| 0 <= m < b.workers@.len() && b.workers@[m].index == i;
                        let w = b.workers@[m];
                        assert(g0.buildings@[bi as int].unwrap().workers@.contains(w));
                        assert(g0.get_pawn(w) is Some);
                        assert(g0.get_pawn(w).unwrap().home == Some(bid));
                        assert(w == q.base.id);
                        assert(false);
                    }
                    assert(self.pawns@[i] == g0.pawns@[i]);
                    let h = q.home.unwrap();
                    assert(g0.get_building(h) is Some);
                    assert(h.index != bid.index);
                }
            }
            assert forall|i: int, w: Id| 0 <= i < self.buildings@.len() && self.buildings@[i] is Some
                && (#[trigger] self.buildings@[i].unwrap().workers@.contains(w))
                implies (self.get_pawn(w) matches Some(q) && q.home == Some(self.buildings@[i].unwrap().base.id)) by {
                assert(i != bi);
                assert(self.buildings@[i] == g0.buildings@[i]);
                let bj = g0.buildings@[i].unwrap();
                assert(g0.get_pawn(w) is Some && g0.get_pawn(w).unwrap().home == Some(bj.base.id));
                if exists|m: int| 0 <= m < b.workers@.len() && b.workers@[m].index == w.index {
                    let m = choose|m: int| 0 <= m < b.workers@.len() && b.workers@[m].index == w.index;
                    let w2 = b.workers@[m];
                    assert(g0.buildings@[bi as int].unwrap().workers@.contains(w2));
                    assert(g0.get_pawn(w2) is Some);
                    assert(g0.get_pawn(w2).unwrap().home == Some(bid));
                    assert(w2 == w);
                    assert(false);
                }
                assert(self.pawns@[w.index as int] == g0.pawns@[w.index as int]);
            }
            assert forall|q: Id| old(self).get_pawn(q) is Some && old(self).get_pawn(q).unwrap().home == Some(bid)
                implies pawn_with_home(old(self).get_pawn(q).unwrap(), #[trigger] self.get_pawn(q).unwrap(), None) by {
                let i = q.index as int;
                assert(g0.get_building(bid).unwrap().workers@.contains(g0.pawns@[i].unwrap().base.id));
                let m = choose|m: int| 0 <= m < b.workers@.len() && b.workers@[m] == g0.pawns@[i].unwrap().base.id;
                assert(b.workers@[m].index == i);
            }
            assert forall|q: Id| old(self).get_pawn(q) is Some && old(self).get_pawn(q).unwrap().home != Some(bid)
                implies #[trigger] self.get_pawn(q) == old(self).get_pawn(q) by {
                let i = q.index as int;
                if exists|m: int| 0 <= m < b.workers@.len() && b.workers@[m].index == i {
                    let m = choose|m: int| 0 <= m < b.workers@.len() && b.workers@[m].index == i;
                    let w2 = b.workers@[m];
                    assert(g0.buildings@[bi as int].unwrap().workers@.contains(w2));
                    assert(g0.get_pawn(w2) is Some);
                    assert(g0.get_pawn(w2).unwrap().home == Some(bid));
                    assert(false);
                }
            }
        }
    }
}

/// The craters left by a destroyed building with footprint `b` at tick `tick`: one
/// per tile, column by column.
pub open spec fn footprint_craters(tick: u64, b: crate::geom::TileBounds) -> Seq<(u64, crate::effects::Effect)> {
    let h = b.max.1 - b.min.1;
    Seq::new(
        ((b.max.0 - b.min.0) * h) as nat,
        |k: int| ((tick + 30) as u64, crate::effects::Effect::Crater(crate::effects::Crater { tile: ((b.min.0 + k / h) as i16, (b.min.1 + k % h) as i16) })),
    )
}

proof fn lemma_footprint_crater(tick: u64, b: crate::geom::TileBounds, x: i16, y: i16)
    requires
        b.min.0 <= x < b.max.0,
        b.min.1 <= y < b.max.1,
    ensures
        ({
            let h = b.max.1 - b.min.1;
            let k = (x - b.min.0) * h + (y - b.min.1);
            &&& 0 <= k < footprint_craters(tick, b).len()
            &&& footprint_craters(tick, b)[k] == ((tick + 30) as u64, crate::effects::Effect::Crater(crate::effects::Crater { tile: (x, y) }))
        }),
{
    let h = b.max.1 - b.min.1;
    let w = b.max.0 - b.min.0;
    let k = (x - b.min.0) * h + (y - b.min.1);
    assert(0 <= k < w * h) by (nonlinear_arith)
        requires
            k == (x - b.min.0) * h + (y - b.min.1),
            0 <= x - b.min.0 < w,
            0 <= y - b.min.1 < h,
    ;
    assert(k / h == x - b.min.0 && k % h == y - b.min.1) by (nonlinear_arith)
        requires
            k == (x - b.min.0) * h + (y - b.min.1),
            0 <= y - b.min.1 < h,
    ;
}

impl G {
    /// Take the pawn in slot `pi` out (the slot is empty until `put_pawn`).
    pub(crate) fn take_pawn(&mut self, pi: usize) -> (p: Pawn)
        requires
            pi < old(self).pawns@.len(),
            old(self).pawns@[pi as int] is Some,
        ensures
            ui_kept(*old(self), *final(self)),
            final(self).selected_entity_ids@ == old(self).selected_entity_ids@,
            final(self).selected_pawn_ids@ == old(self).selected_pawn_ids@,
            p == old(self).pawns@[pi as int].unwrap(),
            final(self).pawns@ == old(self).pawns@.update(pi as int, None),
            final(self).buildings@ == old(self).buildings@,
            final(self).tilemap == old(self).tilemap,
            final(self).resources@ == old(self).resources@,
            final(self).effects@ == old(self).effects@,
            final(self).tick == old(self).tick,
    {
        let mut slot: Option<Pawn> = None;
        self.pawns.set_and_swap(pi, &mut slot);
        slot.unwrap()
    }

    /// Put pawn `p` into slot `pi`.
    pub(crate) fn put_pawn(&mut self, pi: usize, p: Pawn)
        requires
            pi < old(self).pawns@.len(),
        ensures
            ui_kept(*old(self), *final(self)),
            final(self).selected_entity_ids@ == old(self).selected_entity_ids@,
            final(self).selected_pawn_ids@ == old(self).selected_pawn_ids@,
            final(self).pawns@ == old(self).pawns@.update(pi as int, Some(p)),
            final(self).buildings@ == old(self).buildings@,
            final(self).tilemap == old(self).tilemap,
            final(self).resources@ == old(self).resources@,
            final(self).effects@ == old(self).effects@,
            final(self).tick == old(self).tick,
    {
        let mut slot = Some(p);
        self.pawns.set_and_swap(pi, &mut slot);
    }

    /// Take the building in slot `bi` out (the slot is empty until `put_building`).
    pub(crate) fn take_building(&mut self, bi: usize) -> (b: Building)
        requires
            bi < old(self).buildings@.len(),
            old(self).buildings@[bi as int] is Some,
        ensures
            ui_kept(*old(self), *final(self)),
            final(self).selected_entity_ids@ == old(self).selected_entity_ids@,
            final(self).selected_pawn_ids@ == old(self).selected_pawn_ids@,
            b == old(self).buildings@[bi as int].unwrap(),
            final(self).buildings@ == old(self).buildings@.update(bi as int, None),
            final(self).pawns@ == old(self).pawns@,
            final(self).tilemap == old(self).tilemap,
            final(self).resources@ == old(self).resources@,
            final(self).effects@ == old(self).effects@,
            final(self).tick == old(self).tick,
    {
        let mut slot: Option<Building> = None;
        self.buildings.set_and_swap(bi, &mut slot);
        slot.unwrap()
    }

    /// Put building `b` into slot `bi`.
    pub(crate) fn put_building(&mut self, bi: usize, b: Building)
        requires
            bi < old(self).buildings@.len(),
        ensures
            ui_kept(*old(self), *final(self)),
            final(self).selected_entity_ids@ == old(self).selected_entity_ids@,
            final(self).selected_pawn_ids@ == old(self).selected_pawn_ids@,
            final(self).buildings@ == old(self).buildings@.update(bi as int, Some(b)),
            final(self).pawns@ == old(self).pawns@,
            final(self).tilemap == old(self).tilemap,
            final(self).resources@ == old(self).resources@,
            final(self).effects@ == old(self).effects@,
            final(self).tick == old(self).tick,
    {
        let mut slot = Some(b);
        self.buildings.set_and_swap(bi, &mut slot);
    }
}

/// Replacing a pawn by one with the same identifier and home, and a well formed
/// route, keeps the game state well formed.
pub proof fn lemma_pawn_replaced(g0: G, g1: G, pi: int)
    requires
        g0.wf(),
        0 <= pi < g0.pawns@.len(),
        g0.pawns@[pi] is Some,
        g1.pawns@.len() == g0.pawns@.len(),
        g1.pawns@[pi] is Some,
        g1.pawns@[pi].unwrap().base.id == g0.pawns@[pi].unwrap().base.id,
        g1.pawns@[pi].unwrap().home == g0.pawns@[pi].unwrap().home,
        g1.pawns@[pi].unwrap().route.wf(),
        forall|j: int| 0 <= j < g0.pawns@.len() && j != pi ==> #[trigger] g1.pawns@[j] == g0.pawns@[j],
        g1.buildings@ == g0.buildings@,
        g1.tilemap == g0.tilemap,
    ensures
        g1.wf(),
        forall|q: Id| (#[trigger] g1.get_pawn(q)) is Some == g0.get_pawn(q) is Some,
        forall|q: Id| q.index != pi ==> #[trigger] g1.get_pawn(q) == g0.get_pawn(q),
{
    assert forall|j: int| 0 <= j < g1.pawns@.len() && (#[trigger] g1.pawns@[j]) is Some implies {
        &&& g1.pawns@[j].unwrap().route.wf()
        &&& g1.pawns@[j].unwrap().base.id == (Id { index: j as u32, type_id: EntityType::Pawn })
    } by {
        assert(g0.pawns@[j] is Some);
    }
    assert forall|i: int| 0 <= i < g1.pawns@.len() && (#[trigger] g1.pawns@[i]) is Some && g1.pawns@[i].unwrap().home is Some
        implies (g1.get_building(g1.pawns@[i].unwrap().home.unwrap()) matches Some(b)
            && b.workers@.contains(g1.pawns@[i].unwrap().base.id)) by {
        assert(g0.pawns@[i] is Some);
    }
    assert forall|i: int, w: Id| 0 <= i < g1.buildings@.len() && g1.buildings@[i] is Some
        && (#[trigger] g1.buildings@[i].unwrap().workers@.contains(w))
        implies (g1.get_pawn(w) matches Some(p) && p.home == Some(g1.buildings@[i].unwrap().base.id)) by {
        assert(g0.buildings@[i].unwrap().workers@.contains(w));
        assert(g0.get_pawn(w) is Some);
    }
}

/// Replacing a building by a well formed one with the same identifier and workers
/// keeps the game state well formed.
pub proof fn lemma_building_replaced(g0: G, g1: G, bi: int)
    requires
        g0.wf(),
        0 <= bi < g0.buildings@.len(),
        g0.buildings@[bi] is Some,
        g1.buildings@.len() == g0.buildings@.len(),
        g1.buildings@[bi] is Some,
        g1.buildings@[bi].unwrap().base.id == g0.buildings@[bi].unwrap().base.id,
        g1.buildings@[bi].unwrap().workers@ == g0.buildings@[bi].unwrap().workers@,
        g1.buildings@[bi].unwrap().wf(),
        forall|j: int| 0 <= j < g0.buildings@.len() && j != bi ==> #[trigger] g1.buildings@[j] == g0.buildings@[j],
        g1.pawns@ == g0.pawns@,
        g1.tilemap == g0.tilemap,
    ensures
        g1.wf(),
        forall|c: Id| (#[trigger] g1.get_building(c)) is Some == g0.get_building(c) is Some,
        forall|c: Id| c.index != bi ==> #[trigger] g1.get_building(c) == g0.get_building(c),
{
    assert forall|j: int| 0 <= j < g1.buildings@.len() && (#[trigger] g1.buildings@[j]) is Some implies {
        &&& g1.buildings@[j].unwrap().wf()
        &&& g1.buildings@[j].unwrap().base.id == (Id { index: j as u32, type_id: EntityType::Building })
    } by {
        assert(g0.buildings@[j] is Some);
    }
    assert forall|i: int| 0 <= i < g1.pawns@.len() && (#[trigger] g1.pawns@[i]) is Some && g1.pawns@[i].unwrap().home is Some
        implies (g1.get_building(g1.pawns@[i].unwrap().home.unwrap()) matches Some(b)
            && b.workers@.contains(g1.pawns@[i].unwrap().base.id)) by {
        assert(g0.pawns@[i] is Some);
        let h = g0.pawns@[i].unwrap().home.unwrap();
        assert(g0.get_building(h) is Some);
    }
    assert forall|i: int, w: Id| 0 <= i < g1.buildings@.len() && g1.buildings@[i] is Some
        && (#[trigger] g1.buildings@[i].unwrap().workers@.contains(w))
        implies (g1.get_pawn(w) matches Some(p) && p.home == Some(g1.buildings@[i].unwrap().base.id)) by {
        assert(g0.buildings@[i] is Some);
        assert(g0.buildings@[i].unwrap().workers@.contains(w));
    }
}

} // verus!
