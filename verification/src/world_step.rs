//! One simulation step of a pawn.
use vstd::prelude::*;
use crate::entity::{Base, EntityType, Id};
use crate::geom::has_neighbors;
use crate::pawn::Pawn;
use crate::pawn_typ::{spec_attack_strength, spec_can_move};
use crate::route::route_finished;
use crate::world::{ui_kept, G, buildings_kept, lemma_pawn_replaced};
use crate::world_pawn::{attack_outcome, find_target_outcome, personal_space_outcome, walk_outcome};
use crate::world_route::only_pawn_changed;
use crate::world_tick::{building_step_outcome, tick_supported};
use crate::world_work::{delivery_work_outcome, home_dest};

verus! {

/// Work stage of a pawn's step: a pawn with a home does its delivery work.
pub open spec fn work_stage(g0: G, g1: G, pi: int) -> bool {
    let p = g0.pawns@[pi].unwrap();
    if home_dest(g0, p) is Some {
        delivery_work_outcome(g0, g1, pi, p.home.unwrap())
    } else {
        g1 == g0
    }
}

/// The pawn that the pawn in slot `pi` of `g` attacks: its target, when that is
/// another pawn that still exists.
pub open spec fn live_target(g: G, pi: int) -> Option<Id> {
    let t = g.pawns@[pi].unwrap().target;
    if t is Some && g.get_pawn(t.unwrap()) is Some && t.unwrap().index != pi {
        t
    } else {
        None
    }
}

/// Attack stage of a pawn's step: a pawn that can attack attacks its live target,
/// or looks for a new target when it has none.
pub open spec fn attack_stage(g0: G, g1: G, pi: int) -> bool {
    let p = g0.pawns@[pi].unwrap();
    if spec_attack_strength(p.typ) != 0 {
        if live_target(g0, pi) is Some {
            attack_outcome(g0, g1, pi, live_target(g0, pi).unwrap())
        } else {
            find_target_outcome(g0, g1, pi)
        }
    } else {
        g1 == g0
    }
}

/// Last stage of a pawn's step: a pawn that can move steps aside when it stands on
/// another pawn (unless its tile is at the end of the coordinate range).
pub open spec fn space_stage(g0: G, g1: G, pi: int) -> bool {
    let p = g0.pawns@[pi].unwrap();
    if spec_can_move(p.typ) && has_neighbors(p.base.tile) {
        personal_space_outcome(g0, g1, pi)
    } else {
        g1 == g0
    }
}

/// One step of the pawn in slot `pi` of `g0`, giving `g1`: a sleeping pawn only
/// counts down its sleep; a pawn that can move and has not reached its
/// destination takes a step; otherwise it works (see `work_stage`), fights (see
/// `attack_stage`) and steps aside (see `space_stage`), in that order.
pub open spec fn pawn_step_outcome(g0: G, g1: G, pi: int) -> bool {
    let p = g0.pawns@[pi].unwrap();
    if p.base.sleep != 0 {
        &&& only_pawn_changed(g0, g1, pi)
        &&& g1.pawns@[pi].unwrap() == (Pawn { base: Base { sleep: (p.base.sleep - 1) as u8, ..p.base }, ..p })
    } else if spec_can_move(p.typ) && !route_finished(p.route@) {
        walk_outcome(g0, g1, pi)
    } else {
        exists|ga: G, gb: G| #[trigger] work_stage(g0, ga, pi) && #[trigger] attack_stage(ga, gb, pi) && space_stage(gb, g1, pi)
    }
}

impl G {
    /// The pawn in slot `pi`, which can attack, attacks its live target, or looks
    /// for a new target when it has none (see `attack_stage`).
    pub fn tick_attack(&mut self, pi: usize)
        requires
            old(self).wf(),
            pi < old(self).pawns@.len(),
            old(self).pawns@[pi as int] is Some,
            spec_attack_strength(old(self).pawns@[pi as int].unwrap().typ) != 0,
            old(self).tick + 30 <= u64::MAX,
        ensures
            ui_kept(*old(self), *final(self)),
            buildings_kept(*old(self), *final(self)),
            final(self).wf(),
            attack_stage(*old(self), *final(self), pi as int),
            final(self).pawns@.len() == old(self).pawns@.len(),
            final(self).pawns@[pi as int] is Some,
            final(self).tick == old(self).tick,
    {
        let target = match &self.pawns[pi] {
            Some(q) => q.target,
            None => None,
        };
        let victim = match target {
            Some(t) => if self.pawn(t).is_some() && (t.index as usize) != pi { Some(t) } else { None },
            None => None,
        };
        match victim {
            Some(v) => self.attack(pi, v),
            None => self.find_target(pi),
        }
    }

    /// One simulation step of the pawn in slot `pi` (see `pawn_step_outcome`).
    pub fn tick_pawn(&mut self, pi: usize)
        requires
            old(self).wf(),
            pi < old(self).pawns@.len(),
            old(self).pawns@[pi as int] is Some,
            old(self).tick + 30 <= u64::MAX,
        ensures
            ui_kept(*old(self), *final(self)),
            buildings_kept(*old(self), *final(self)),
            final(self).wf(),
            pawn_step_outcome(*old(self), *final(self), pi as int),
            final(self).pawns@.len() == old(self).pawns@.len(),
            final(self).pawns@[pi as int] is Some,
            final(self).tick == old(self).tick,
    {
        let ghost g0 = *self;
        let sleeping = match &self.pawns[pi] {
            Some(q) => q.base.sleep != 0,
            None => false,
        };
        if sleeping {
            let mut p = self.take_pawn(pi);
            p.base.tick_sleep();
            self.put_pawn(pi, p);
            proof { lemma_pawn_replaced(g0, *self, pi as int); }
            return;
        }
        let (can_move, finished, home) = match &self.pawns[pi] {
            Some(q) => (q.can_move(), q.is_at_destination(), q.home),
            None => (false, true, None),
        };
        if can_move && !finished {
            self.walk_to_destination(pi);
            return;
        }
        match home {
            Some(h) => {
                if self.building(h).is_some() {
                    self.tick_delivery_work(pi, h);
                }
            },
            None => {},
        }
        let ghost ga = *self;
        let strength = match &self.pawns[pi] {
            Some(q) => q.attack_strength(),
            None => 0,
        };
        if strength != 0 {
            self.tick_attack(pi);
        }
        let ghost gb = *self;
        let (can_move2, tile) = match &self.pawns[pi] {
            Some(q) => (q.can_move(), q.base.tile),
            None => (false, (0, 0)),
        };
        if can_move2 && -32768 < tile.0 && tile.0 < 32767 && -32768 < tile.1 && tile.1 < 32767 {
            self.take_personal_space(pi);
        }
        proof {
            assert(work_stage(g0, ga, pi as int));
            assert(attack_stage(ga, gb, pi as int));
            assert(space_stage(gb, *self, pi as int));
        }
    }
}

/// Step `k` of the pawn phase: the pawn in slot `k` takes its step, an empty slot
/// is skipped.
pub open spec fn pawn_step_or_skip(g0: G, g1: G, k: int) -> bool {
    if g0.pawns@[k] is Some {
        pawn_step_outcome(g0, g1, k)
    } else {
        g1 == g0
    }
}

/// Step `k` of the building phase: the building in slot `k` takes its step, an
/// empty slot is skipped.
pub open spec fn building_step_or_skip(g0: G, g1: G, k: int) -> bool {
    if g0.buildings@[k] is Some {
        building_step_outcome(g0, g1, Id { index: k as u32, type_id: EntityType::Building })
    } else {
        g1 == g0
    }
}

/// `gs` are the states of the pawn phase from `g0` to `g1`: every pawn slot in turn.
pub open spec fn pawn_phase(g0: G, g1: G, gs: Seq<G>) -> bool {
    &&& gs.len() == g0.pawns@.len() + 1
    &&& gs[0] == g0
    &&& gs.last() == g1
    &&& forall|k: int| 0 <= k < g0.pawns@.len() ==> #[trigger] pawn_step_or_skip(gs[k], gs[k + 1], k)
}

/// `gs` are the states of the building phase from `g0` to `g1`: every building slot
/// in turn.
pub open spec fn building_phase(g0: G, g1: G, gs: Seq<G>) -> bool {
    &&& gs.len() == g0.buildings@.len() + 1
    &&& gs[0] == g0
    &&& gs.last() == g1
    &&& forall|k: int| 0 <= k < g0.buildings@.len() ==> #[trigger] building_step_or_skip(gs[k], gs[k + 1], k)
}

/// One simulation tick from `g0` to `g1`: the tick counter advances, then every pawn
/// takes its step, then every building.
pub open spec fn major_tick_outcome(g0: G, g1: G) -> bool {
    exists|gp: Seq<G>, gq: Seq<G>| #[trigger] pawn_phase(G { tick: (g0.tick + 1) as u64, ..g0 }, gp.last(), gp)
        && #[trigger] building_phase(gp.last(), g1, gq)
}

impl G {
    /// One simulation tick: the tick counter advances, then every pawn takes its step
    /// (see `tick_pawn`), then every building (see `tick_building`).
    pub fn major_tick(&mut self)
        requires
            old(self).wf(),
            old(self).tick + 31 <= u64::MAX,
            old(self).pawns@.len() + 10 * old(self).buildings@.len() + 12 < u32::MAX,
            forall|j: int| 0 <= j < old(self).buildings@.len() && (#[trigger] old(self).buildings@[j]) is Some
                ==> tick_supported(old(self).buildings@[j].unwrap()),
        ensures
            ui_kept(*old(self), *final(self)),
            final(self).wf(),
            final(self).tick == old(self).tick + 1,
            major_tick_outcome(*old(self), *final(self)),
    {
        let ghost g0 = *self;
        self.tick = self.tick + 1;
        let ghost gt = *self;
        proof { assert(gt == G { tick: (g0.tick + 1) as u64, ..g0 }); }
        let n = self.pawns.len();
        let ghost mut gp: Seq<G> = seq![gt];
        let mut i: usize = 0;
        while i < n
            invariant
                self.wf(),
                gt.wf(),
                ui_kept(g0, *self),
                n == gt.pawns@.len(),
                self.pawns@.len() == n,
                self.tick == gt.tick,
                gt.tick + 30 <= u64::MAX,
                buildings_kept(gt, *self),
                i <= n,
                gp.len() == i + 1,
                gp[0] == gt,
                gp.last() == *self,
                forall|k: int| 0 <= k < i ==> #[trigger] pawn_step_or_skip(gp[k], gp[k + 1], k),
            decreases n - i,
        {
            let ghost before = *self;
            if self.pawns[i].is_some() {
                self.tick_pawn(i);
            }
            proof {
                gp = gp.push(*self);
                assert(pawn_step_or_skip(before, *self, i as int));
                assert forall|k: int| 0 <= k < i + 1 implies #[trigger] pawn_step_or_skip(gp[k], gp[k + 1], k) by {
                    if k < i {
                        assert(gp[k] == gp.drop_last()[k]);
                        assert(gp[k + 1] == gp.drop_last()[k + 1]);
                    }
                }
            }
            i = i + 1;
        }
        let ghost gm = *self;
        proof {
            assert(pawn_phase(gt, gm, gp));
        }
        let nb = self.buildings.len();
        let ghost mut gq: Seq<G> = seq![gm];
        let mut j: usize = 0;
        while j < nb
            invariant
                self.wf(),
                ui_kept(g0, *self),
                nb == gm.buildings@.len(),
                self.buildings@.len() == nb,
                self.tick == gm.tick,
                j <= nb,
                self.pawns@.len() + 10 * (nb - j) + 12 < u32::MAX,
                forall|c: int| j <= c < nb ==> #[trigger] self.buildings@[c] == gm.buildings@[c],
                forall|c: int| 0 <= c < nb && (#[trigger] gm.buildings@[c]) is Some ==> tick_supported(gm.buildings@[c].unwrap()),
                gq.len() == j + 1,
                gq[0] == gm,
                gq.last() == *self,
                forall|k: int| 0 <= k < j ==> #[trigger] building_step_or_skip(gq[k], gq[k + 1], k),
            decreases nb - j,
        {
            let ghost before = *self;
            if self.buildings[j].is_some() {
                let bid = Id { index: j as u32, type_id: EntityType::Building };
                proof {
                    assert(self.buildings@[j as int] == gm.buildings@[j as int]);
                    assert(self.get_building(bid) == self.buildings@[j as int]);
                }
                self.tick_building(bid);
                proof {
                    assert forall|c: int| j + 1 <= c < nb implies #[trigger] self.buildings@[c] == gm.buildings@[c] by {
                        let cid = Id { index: c as u32, type_id: EntityType::Building };
                        assert(cid != bid);
                        assert(self.get_building(cid) == before.get_building(cid));
                        if self.buildings@[c] is Some || before.buildings@[c] is Some {
                            assert(self.buildings@[c] == before.buildings@[c]);
                        }
                    }
                }
            }
            proof {
                gq = gq.push(*self);
                assert(building_step_or_skip(before, *self, j as int));
                assert forall|k: int| 0 <= k < j + 1 implies #[trigger] building_step_or_skip(gq[k], gq[k + 1], k) by {
                    if k < j {
                        assert(gq[k] == gq.drop_last()[k]);
                        assert(gq[k + 1] == gq.drop_last()[k + 1]);
                    }
                }
            }
            j = j + 1;
        }
        proof {
            assert(building_phase(gm, *self, gq));
        }
    }
}

} // verus!
