//! One simulation step of buildings, and damage.
use vstd::prelude::*;
use crate::building::{Building, factory_step, find_slot, lemma_find_slot_at, slot_kinds};
use crate::building_typ::{BuildingTyp, spec_input_resources, spec_output_resources};
use crate::entity::{Base, EntityType, Id};
use crate::resource::ResourceTyp;
use crate::resource_slot::slot_take;
use crate::world_build::{is_new_worker, new_pawn_ids};
use crate::pawn_typ::PawnTyp;
use crate::world::{ui_kept, G, lemma_building_replaced, lemma_pawn_replaced};

verus! {

/// Health of a star nest after healing one point (at most its full health, 100).
pub open spec fn healed(h: u8) -> u8 {
    if h + 1 > 100 {
        if h > 100 { h } else { 100 }
    } else {
        (h + 1) as u8
    }
}

/// Whether a building of this kind, when awake, runs a factory step that the
/// kind's tables support. Food and rock packers are ticked as factories turning
/// leaves into dry weed and rocks into bricks, but have no output slot, so their
/// step cannot run (it would panic).
pub open spec fn tick_supported(b: Building) -> bool {
    (b.typ == BuildingTyp::FoodPacker || b.typ == BuildingTyp::RockPacker) ==> b.base.sleep != 0
}

/// With the slot tables of its kind, the slot for the `k`-th table entry is at index `k`.
proof fn lemma_table_slot(b: Building, k: int, input: bool)
    requires
        b.wf(),
        input ==> 0 <= k < spec_input_resources(b.typ).len(),
        !input ==> 0 <= k < spec_output_resources(b.typ).len(),
    ensures
        input ==> find_slot(b.spec_inputs(), spec_input_resources(b.typ)[k].0) == Some(k),
        !input ==> find_slot(b.spec_outputs(), spec_output_resources(b.typ)[k].0) == Some(k),
{
    if input {
        assert(slot_kinds(b.spec_inputs())[k] == spec_input_resources(b.typ)[k]);
        lemma_find_slot_at(b.spec_inputs(), spec_input_resources(b.typ)[k].0, k);
    } else {
        assert(slot_kinds(b.spec_outputs())[k] == spec_output_resources(b.typ)[k]);
        lemma_find_slot_at(b.spec_outputs(), spec_output_resources(b.typ)[k].0, k);
    }
}

/// One simulation step of building `bid` of `g0`, giving `g1` (see `tick_building`).
/// What one step does to building `b` (becoming `b2`) in `g0` (becoming `g1`).
pub open spec fn own_step(g0: G, g1: G, b: Building, b2: Building) -> bool {
    if b.base.sleep != 0 {
        &&& b2.base == (Base { sleep: (b.base.sleep - 1) as u8, ..b.base })
        &&& b2.spec_inputs() == b.spec_inputs()
        &&& b2.spec_outputs() == b.spec_outputs()
        &&& g1.pawns@ == g0.pawns@
    } else if b.typ == BuildingTyp::Farm {
        &&& (b2.spec_inputs(), b2.spec_outputs(), b2.base) == factory_step(b, 3, ResourceTyp::Leaf, ResourceTyp::Dryweed, 50)
        &&& g1.pawns@ == g0.pawns@
    } else if b.typ == BuildingTyp::Quarry {
        &&& (b2.spec_inputs(), b2.spec_outputs(), b2.base) == factory_step(b, 3, ResourceTyp::Rock, ResourceTyp::Brick, 50)
        &&& g1.pawns@ == g0.pawns@
    } else if b.typ == BuildingTyp::StarNest {
        nest_step(g0, g1, b, b2)
    } else {
        &&& b2.base == b.base
        &&& b2.spec_inputs() == b.spec_inputs()
        &&& b2.spec_outputs() == b.spec_outputs()
        &&& g1.pawns@ == g0.pawns@
    }
}

/// One step of star nest `b` (becoming `b2`) in `g0` (becoming `g1`): without
/// workers, every 128 ticks it spawns ten new starfish of its team on its tile,
/// which become its workers; every 16 ticks it eats one
/// leaf, if it has one, and heals one point.
pub open spec fn nest_step(g0: G, g1: G, b: Building, b2: Building) -> bool {
    let spawned = g0.tick % 128 == 0 && b.workers@.len() == 0;
    let fed = g0.tick % 16 == 0 && b.spec_inputs()[0].amount >= 1;
    &&& (spawned ==> g1.pawns@.len() == g0.pawns@.len() + 10
        && b2.workers@ == new_pawn_ids(g0.pawns@.len(), 10)
        && forall|m: int| 0 <= m < 10 ==> is_new_worker(#[trigger] g1.get_pawn(new_pawn_ids(g0.pawns@.len(), 10)[m]),
            new_pawn_ids(g0.pawns@.len(), 10)[m], PawnTyp::Starfish, b.base.tile, b.base.team, b.base.id))
    &&& (!spawned ==> g1.pawns@ == g0.pawns@ && b2.workers@ == b.workers@)
    &&& b2.spec_inputs() == (if fed {
        b.spec_inputs().update(0, slot_take(b.spec_inputs()[0], 1).1)
    } else {
        b.spec_inputs()
    })
    &&& b2.base == (if fed { Base { health: healed(b.base.health), ..b.base } } else { b.base })
    &&& b2.spec_outputs() == b.spec_outputs()
}

/// One simulation step of building `bid` of `g0`, giving `g1` (see `tick_building`).
pub open spec fn building_step_outcome(g0: G, g1: G, bid: Id) -> bool {
    &&& g1.get_building(bid) is Some
    &&& own_step(g0, g1, g0.get_building(bid).unwrap(), g1.get_building(bid).unwrap())
    &&& forall|c: Id| c != bid ==> #[trigger] g1.get_building(c) == g0.get_building(c)
    &&& forall|i: int| 0 <= i < g0.pawns@.len() ==> #[trigger] g1.pawns@[i] == g0.pawns@[i]
    &&& g1.buildings@.len() == g0.buildings@.len()
    &&& g1.tilemap == g0.tilemap
    &&& g1.resources@ == g0.resources@
    &&& g1.tick == g0.tick
}

/// A star nest that has lost all its workers and is ticked, awake, at a tick
/// divisible by 128 spawns ten starfish of its own team on its own tile, all
/// working for it: they become exactly its workers.
pub proof fn lemma_nest_respawns_its_own(g0: G, g1: G, bid: Id)
    requires
        g0.wf(),
        g0.get_building(bid) matches Some(b) && b.typ == BuildingTyp::StarNest && b.base.sleep == 0
            && b.workers@.len() == 0,
        g0.tick % 128 == 0,
        building_step_outcome(g0, g1, bid),
    ensures
        g1.pawns@.len() == g0.pawns@.len() + 10,
        g1.get_building(bid).unwrap().workers@.len() == 10,
        forall|m: int| 0 <= m < 10 ==> {
            let id = #[trigger] g1.get_building(bid).unwrap().workers@[m];
            let b = g0.get_building(bid).unwrap();
            &&& id == (Id { index: (g0.pawns@.len() + m) as u32, type_id: EntityType::Pawn })
            &&& g1.get_pawn(id) matches Some(p) && p.typ == PawnTyp::Starfish && p.base.tile == b.base.tile
                && p.base.team == b.base.team && p.home == Some(bid)
        },
{
    let b = g0.get_building(bid).unwrap();
    let ids = new_pawn_ids(g0.pawns@.len(), 10);
    assert forall|m: int| 0 <= m < 10 implies {
        let id = #[trigger] g1.get_building(bid).unwrap().workers@[m];
        &&& id == (Id { index: (g0.pawns@.len() + m) as u32, type_id: EntityType::Pawn })
        &&& g1.get_pawn(id) matches Some(p) && p.typ == PawnTyp::Starfish && p.base.tile == b.base.tile
            && p.base.team == b.base.team && p.home == Some(bid)
    } by {
        assert(g1.get_building(bid).unwrap().workers@[m] == ids[m]);
        assert(is_new_worker(g1.get_pawn(ids[m]), ids[m], PawnTyp::Starfish, b.base.tile, b.base.team, b.base.id));
    }
}

impl G {
    /// One step of the awake star nest `bid` (see `nest_step`): without workers,
    /// every 128 ticks it spawns its default workers; every 16 ticks it eats one
    /// leaf, if it has one, and heals one point.
    pub fn tick_star_nest(&mut self, bid: Id)
        requires
            old(self).wf(),
            old(self).get_building(bid) matches Some(b) && b.typ == BuildingTyp::StarNest && b.base.sleep == 0
                && tick_supported(b),
            old(self).pawns@.len() + 12 < u32::MAX,
        ensures
            ui_kept(*old(self), *final(self)),
            final(self).wf(),
            building_step_outcome(*old(self), *final(self), bid),
    {
        let bi = bid.index as usize;
        let ghost g0 = *self;
        let ghost b0 = g0.get_building(bid).unwrap();
        let workers_gone = match &self.buildings[bi] {
            Some(b) => b.workers.len() == 0,
            None => false,
        };
        let spawn = self.tick % 128 == 0 && workers_gone;
        let feed = self.tick % 16 == 0;
        if spawn {
            self.spawn_default_workers(bid);
        }
        let ghost g2 = *self;
        if feed {
            let mut b = self.take_building(bi);
            proof { lemma_table_slot(b, 0, true); }
            if b.take_input(ResourceTyp::Leaf, 1).is_some() {
                let h = b.base.health;
                b.base.health = if h as u16 + 1 > 100 { if h > 100 { h } else { 100 } } else { h + 1 };
            }
            self.put_building(bi, b);
            proof { lemma_building_replaced(g2, *self, bi as int); }
        }
        proof {
            assert forall|i: int| 0 <= i < g0.pawns@.len() implies #[trigger] self.pawns@[i] == g0.pawns@[i] by {
                assert(g2.pawns@[i] == g0.pawns@[i]);
            }
            let b2 = self.get_building(bid).unwrap();
            let fed = g0.tick % 16 == 0 && b0.spec_inputs()[0].amount >= 1;
            assert(b2.spec_inputs() == (if fed {
                b0.spec_inputs().update(0, slot_take(b0.spec_inputs()[0], 1).1)
            } else {
                b0.spec_inputs()
            }));
            if spawn {
                let ids = new_pawn_ids(g0.pawns@.len(), 10);
                assert(b0.workers@ + ids =~= ids);
                assert(self.pawns@ == g2.pawns@);
                assert forall|m: int| 0 <= m < 10 implies is_new_worker(#[trigger] self.get_pawn(ids[m]), ids[m],
                    PawnTyp::Starfish, b0.base.tile, b0.base.team, b0.base.id) by {
                    assert(self.get_pawn(ids[m]) == g2.get_pawn(ids[m]));
                }
            }
            assert(nest_step(g0, *self, b0, b2));
        }
    }

    /// One simulation step of building `bid`. A sleeping building only counts down
    /// its sleep. Otherwise: farms turn 3 leaves into one dry weed and quarries 3
    /// rocks into one brick (then sleep 50 ticks); a star nest without workers
    /// spawns new ones every 128 ticks, and every 16 ticks eats one leaf and heals
    /// one point; headquarters and mines do nothing.
    pub fn tick_building(&mut self, bid: Id)
        requires
            old(self).wf(),
            old(self).get_building(bid) is Some,
            old(self).pawns@.len() + 12 < u32::MAX,
            tick_supported(old(self).get_building(bid).unwrap()),
        ensures
            ui_kept(*old(self), *final(self)),
            final(self).wf(),
            building_step_outcome(*old(self), *final(self), bid),
    {
        let bi = bid.index as usize;
        let ghost g0 = *self;
        let ghost b0 = g0.get_building(bid).unwrap();
        let mut b = self.take_building(bi);
        let sleeping = b.base.tick_sleep();
        let typ = b.typ;
        if sleeping {
            self.put_building(bi, b);
            proof { lemma_building_replaced(g0, *self, bi as int); }
            return;
        }
        match typ {
            BuildingTyp::Farm => {
                proof { lemma_table_slot(b, 0, true); lemma_table_slot(b, 0, false); }
                b.tick_factory(3, ResourceTyp::Leaf, ResourceTyp::Dryweed, 50);
                self.put_building(bi, b);
                proof {
                    lemma_building_replaced(g0, *self, bi as int);
                    assert(b0.typ == BuildingTyp::Farm && b0.typ != BuildingTyp::StarNest);
                }
            },
            BuildingTyp::Quarry => {
                proof { lemma_table_slot(b, 0, true); lemma_table_slot(b, 0, false); }
                b.tick_factory(3, ResourceTyp::Rock, ResourceTyp::Brick, 50);
                self.put_building(bi, b);
                proof {
                    lemma_building_replaced(g0, *self, bi as int);
                    assert(b0.typ == BuildingTyp::Quarry && b0.typ != BuildingTyp::StarNest);
                }
            },
            BuildingTyp::StarNest => {
                self.put_building(bi, b);
                proof { lemma_building_replaced(g0, *self, bi as int); }
                let ghost g1 = *self;
                self.tick_star_nest(bid);
                proof {
                    assert(g1.get_building(bid) == Some(b0));
                    assert forall|c: Id| c != bid implies #[trigger] self.get_building(c) == g0.get_building(c) by {
                        assert(self.get_building(c) == g1.get_building(c));
                    }
                }
            },
            _ => {
                self.put_building(bi, b);
                proof { lemma_building_replaced(g0, *self, bi as int); }
            },
        }
    }
}

} // verus!
