//! What pawns do on their own: walking, stepping aside, and fighting.
use vstd::prelude::*;
use crate::effects::Effect;
use crate::entity::{Base, EntityType, Id, spec_sleep_more};
use crate::geom::{TilePos, WorldPos, has_neighbors, spec_distance_squared};
use crate::pawn::Pawn;
use crate::pawn_typ::{spec_attack_strength, spec_can_move, spec_can_walk_on};
use crate::route::{route_next, route_set};
use crate::team::Team;
use crate::world::{ui_kept, G, buildings_kept, killed, lemma_pawn_replaced, pawn_same_plan};
use crate::world_route::only_pawn_changed;

verus! {

/// Pixel at the center of tile `t` (tiles are 24 pixels wide).
pub open spec fn spec_tile_center(t: TilePos) -> (int, int) {
    (t.0 * 24 + 12, t.1 * 24 + 12)
}

/// Pixel at the center of tile `t`.
pub fn tile_center(t: TilePos) -> (c: WorldPos)
    ensures
        c.0 == spec_tile_center(t).0,
        c.1 == spec_tile_center(t).1,
{
    (t.0 as i32 * 24 + 12, t.1 as i32 * 24 + 12)
}

/// The steps a pawn may take to get out of another pawn's way (no diagonal steps,
/// so as not to pass through walls).
pub open spec fn aside_steps() -> Seq<(i16, i16)> {
    seq![(-1i16, 0i16), (1i16, 0i16), (0i16, -1i16), (0i16, 1i16)]
}

/// Whether some other stored pawn stands on tile `t` (other than slot `pi`).
pub open spec fn other_pawn_on(g: G, pi: int, t: TilePos) -> bool {
    exists|j: int| 0 <= j < g.pawns@.len() && j != pi && (#[trigger] g.pawns@[j]) is Some && g.pawns@[j].unwrap().base.tile == t
}

/// What `walk_to_destination` does to the pawn in slot `pi` of `g0` (giving `g1`).
pub open spec fn walk_outcome(g0: G, g1: G, pi: int) -> bool {
    &&& g1.pawns@[pi] is Some
    &&& ({
        let p = g0.pawns@[pi].unwrap();
        let p2 = g1.pawns@[pi].unwrap();
        let (next, r2) = route_next(p.route@);
        &&& p2.typ == p.typ && p2.home == p.home && p2.cargo == p.cargo && p2.target == p.target && p2.task == p.task
        &&& match next {
            Some(t) => if spec_can_walk_on(p.typ, g0.tilemap.spec_at(t)) {
                p2.base == (Base { tile: t, ..p.base }) && p2.route@ == r2
            } else {
                p2.base == p.base && p2.route@ == route_set(Seq::empty())
            },
            None => p2.base == p.base && p2.route@ == p.route@,
        }
    })
    &&& forall|j: int| 0 <= j < g0.pawns@.len() && j != pi ==> #[trigger] g1.pawns@[j] == g0.pawns@[j]
    &&& g1.pawns@.len() == g0.pawns@.len()
    &&& g1.buildings@ == g0.buildings@
    &&& g1.tilemap == g0.tilemap
    &&& g1.resources@ == g0.resources@
    &&& g1.effects@ == g0.effects@
    &&& g1.tick == g0.tick
}

/// What `take_personal_space` does to the pawn in slot `pi` of `g0` (giving `g1`):
/// a pawn that can move and stands on another pawn picks one of the four steps
/// aside; it takes that step when it can walk there and otherwise stays.
pub open spec fn personal_space_outcome(g0: G, g1: G, pi: int) -> bool {
    &&& g1.pawns@[pi] is Some
    &&& ({
        let p = g0.pawns@[pi].unwrap();
        let p2 = g1.pawns@[pi].unwrap();
        if spec_can_move(p.typ) && other_pawn_on(g0, pi, p.base.tile) {
            exists|k: int| 0 <= k < 4 && {
                let d = (#[trigger] aside_steps()[k]);
                let dst = ((p.base.tile.0 + d.0) as i16, (p.base.tile.1 + d.1) as i16);
                if spec_can_walk_on(p.typ, g0.tilemap.spec_at(dst)) {
                    &&& p2.base == (Base { tile: dst, ..p.base })
                    &&& p2.route@ == route_set(Seq::empty())
                    &&& p2.typ == p.typ && p2.home == p.home && p2.cargo == p.cargo && p2.target == p.target && p2.task == p.task
                } else {
                    g1.pawns@ == g0.pawns@
                }
            }
        } else {
            g1.pawns@ == g0.pawns@
        }
    })
    &&& forall|j: int| 0 <= j < g0.pawns@.len() && j != pi ==> #[trigger] g1.pawns@[j] == g0.pawns@[j]
    &&& g1.pawns@.len() == g0.pawns@.len()
    &&& g1.buildings@ == g0.buildings@
    &&& g1.tilemap == g0.tilemap
    &&& g1.resources@ == g0.resources@
    &&& g1.effects@ == g0.effects@
    &&& g1.tick == g0.tick
}

/// No pawn of `g` hostile to `team` lies strictly within the squared distance
/// `radius_sq` of `tile` and strictly nearer to it than the pawn `id`, nor equally
/// near in a lower slot.
pub open spec fn nearest_hostile(g: G, tile: TilePos, team: Team, radius_sq: int, id: Id) -> bool {
    let d = spec_distance_squared(g.get_pawn(id).unwrap().base.tile, tile);
    forall|j: int| 0 <= j < g.pawns@.len() && (#[trigger] g.pawns@[j]) is Some
        && g.pawns@[j].unwrap().base.team != team
        && spec_distance_squared(g.pawns@[j].unwrap().base.tile, tile) < radius_sq
        ==> d <= spec_distance_squared(g.pawns@[j].unwrap().base.tile, tile)
            && (j < id.index ==> d < spec_distance_squared(g.pawns@[j].unwrap().base.tile, tile))
}

/// What `find_target` does to the pawn in slot `pi` of `g0` (giving `g1`).
pub open spec fn find_target_outcome(g0: G, g1: G, pi: int) -> bool {
    &&& g1.pawns@[pi] is Some
    &&& ({
        let p = g0.pawns@[pi].unwrap();
        let p2 = g1.pawns@[pi].unwrap();
        &&& p2.base == (Base { sleep: spec_sleep_more(p.base.sleep, 1), ..p.base })
        &&& p2.typ == p.typ && p2.home == p.home && p2.cargo == p.cargo && p2.task == p.task && p2.route@ == p.route@
        &&& (p2.target is Some ==> (g0.get_pawn(p2.target.unwrap()) matches Some(v) && v.base.team != p.base.team
            && spec_distance_squared(v.base.tile, p.base.tile) < 144))
        &&& (p2.target is Some ==> nearest_hostile(g0, p.base.tile, p.base.team, 144, p2.target.unwrap()))
        &&& (p2.target is None ==> forall|j: int| 0 <= j < g0.pawns@.len() && (#[trigger] g0.pawns@[j]) is Some
            ==> !(g0.pawns@[j].unwrap().base.team != p.base.team
                && spec_distance_squared(g0.pawns@[j].unwrap().base.tile, p.base.tile) < 144))
    })
    &&& forall|j: int| 0 <= j < g0.pawns@.len() && j != pi ==> #[trigger] g1.pawns@[j] == g0.pawns@[j]
    &&& g1.pawns@.len() == g0.pawns@.len()
    &&& g1.buildings@ == g0.buildings@
    &&& g1.tilemap == g0.tilemap
    &&& g1.resources@ == g0.resources@
    &&& g1.effects@ == g0.effects@
    &&& g1.tick == g0.tick
}

/// Pawn `victim` of `g0` took `amount` damage, giving `g1`, where `fx` are the
/// effects before: with health to spare it loses that much health and nothing else
/// changes; otherwise it is killed (see `killed`).
pub open spec fn damage_outcome(g0: G, g1: G, victim: Id, amount: u8, fx: Seq<(u64, Effect)>) -> bool {
    let v = g0.get_pawn(victim).unwrap();
    if v.base.health > amount {
        &&& g1.get_pawn(victim) == Some(Pawn { base: Base { health: (v.base.health - amount) as u8, ..v.base }, ..v })
        &&& forall|q: Id| q != victim ==> #[trigger] g1.get_pawn(q) == g0.get_pawn(q)
        &&& g1.pawns@.len() == g0.pawns@.len()
        &&& g1.buildings@ == g0.buildings@
        &&& g1.resources@ == g0.resources@
        &&& g1.effects@ == fx
        &&& g1.tilemap == g0.tilemap
        &&& g1.tick == g0.tick
    } else {
        killed(g0, g1, victim, fx)
    }
}

/// `g1` is `g0` with the pawn in slot `pi` sleeping one more tick.
pub open spec fn slept_one(g0: G, g1: G, pi: int) -> bool {
    let p = g0.pawns@[pi].unwrap();
    &&& g0.pawns@[pi] is Some
    &&& only_pawn_changed(g0, g1, pi)
    &&& g1.pawns@[pi].unwrap() == (Pawn { base: Base { sleep: spec_sleep_more(p.base.sleep, 1), ..p.base }, ..p })
}

/// The bolt drawn when the pawn in slot `pi` of `g` attacks `victim`.
pub open spec fn attack_bolt(g: G, pi: int, victim: Id) -> (u64, Effect) {
    let a = spec_tile_center(g.pawns@[pi].unwrap().base.tile);
    let b = spec_tile_center(g.get_pawn(victim).unwrap().base.tile);
    ((g.tick + 1) as u64, Effect::Bolt(crate::effects::Bolt { start: (a.0 as i32, a.1 as i32), end: (b.0 as i32, b.1 as i32) }))
}

/// What `attack` does when the pawn in slot `pi` of `g0` attacks `victim` (giving
/// `g1`): a bolt is drawn from the attacker to the victim, the victim takes the
/// attacker's strength in damage, and the attacker sleeps one tick.
pub open spec fn attack_outcome(g0: G, g1: G, pi: int, victim: Id) -> bool {
    let p = g0.pawns@[pi].unwrap();
    exists|gm: G| #[trigger] damage_outcome(g0, gm, victim, spec_attack_strength(p.typ), g0.effects@.push(attack_bolt(g0, pi, victim)))
        && slept_one(gm, g1, pi)
}

/// Looking for a target picks the nearest hostile pawn within 12 tiles: when a pawn
/// `j` hostile to the seeker stands strictly within 12 tiles of it, the seeker gets
/// a target, hostile and within 12 tiles, at least as near as `j`, and strictly
/// nearer when `j` comes first in storage order.
pub proof fn lemma_find_target_nearest(g0: G, g1: G, pi: int, j: int)
    requires
        0 <= pi < g0.pawns@.len(),
        g0.pawns@[pi] is Some,
        find_target_outcome(g0, g1, pi),
        0 <= j < g0.pawns@.len(),
        g0.pawns@[j] is Some,
        g0.pawns@[j].unwrap().base.team != g0.pawns@[pi].unwrap().base.team,
        spec_distance_squared(g0.pawns@[j].unwrap().base.tile, g0.pawns@[pi].unwrap().base.tile) < 144,
    ensures
        ({
            let seeker = g0.pawns@[pi].unwrap();
            let other = g0.pawns@[j].unwrap();
            let t = g1.pawns@[pi].unwrap().target;
            &&& t is Some
            &&& g0.get_pawn(t.unwrap()) is Some
            &&& g0.get_pawn(t.unwrap()).unwrap().base.team != seeker.base.team
            &&& spec_distance_squared(g0.get_pawn(t.unwrap()).unwrap().base.tile, seeker.base.tile) < 144
            &&& spec_distance_squared(g0.get_pawn(t.unwrap()).unwrap().base.tile, seeker.base.tile)
                <= spec_distance_squared(other.base.tile, seeker.base.tile)
            &&& (j < t.unwrap().index ==> spec_distance_squared(g0.get_pawn(t.unwrap()).unwrap().base.tile, seeker.base.tile)
                < spec_distance_squared(other.base.tile, seeker.base.tile))
        }),
{
}

impl G {
    /// Deal `amount` damage to pawn `victim` (its health does not go below 0); a pawn
    /// left without health is killed.
    pub fn deal_damage(&mut self, victim: Id, amount: u8)
        requires
            old(self).wf(),
            old(self).get_pawn(victim) is Some,
            old(self).tick + 30 <= u64::MAX,
        ensures
            ui_kept(*old(self), *final(self)),
            buildings_kept(*old(self), *final(self)),
            final(self).wf(),
            damage_outcome(*old(self), *final(self), victim, amount, old(self).effects@),
    {
        let pi = victim.index as usize;
        let ghost g0 = *self;
        let mut p = self.take_pawn(pi);
        p.base.health = if p.base.health > amount { p.base.health - amount } else { 0 };
        let dead = p.base.health == 0;
        self.put_pawn(pi, p);
        proof {
            lemma_pawn_replaced(g0, *self, pi as int);
            assert forall|q: Id| q != victim implies #[trigger] self.get_pawn(q) == g0.get_pawn(q) by {
                if q.type_id == EntityType::Pawn && 0 <= q.index < self.pawns@.len() && q.index == pi {
                    assert(g0.pawns@[pi as int].unwrap().base.id == victim);
                }
            }
        }
        if dead {
            let ghost g1 = *self;
            self.kill_pawn(victim);
            proof {
                let v0 = g0.get_pawn(victim).unwrap();
                let v1 = g1.get_pawn(victim).unwrap();
                assert(v1.home == v0.home && v1.cargo == v0.cargo && v1.base.tile == v0.base.tile);
                assert forall|c: Id| g0.get_building(c) is Some implies #[trigger] self.get_building(c) is Some by {
                    assert(g1.get_building(c) == g0.get_building(c));
                }
                assert forall|c: Id| v0.home != Some(c) implies #[trigger] self.get_building(c) == g0.get_building(c) by {
                    assert(g1.get_building(c) == g0.get_building(c));
                }
                assert forall|q: Id| q != victim implies #[trigger] self.get_pawn(q) == g0.get_pawn(q) by {
                    assert(g1.get_pawn(q) == g0.get_pawn(q));
                }
                if v0.home is Some {
                    assert(g1.get_building(v0.home.unwrap()) == g0.get_building(v0.home.unwrap()));
                }
            }
        }
    }

    /// Take one step along the route of the pawn in slot `pi`, if any step is left:
    /// onto the next tile when the pawn can walk there, otherwise the route is dropped.
    pub fn walk_to_destination(&mut self, pi: usize)
        requires
            old(self).wf(),
            pi < old(self).pawns@.len(),
            old(self).pawns@[pi as int] is Some,
        ensures
            ui_kept(*old(self), *final(self)),
            buildings_kept(*old(self), *final(self)),
            final(self).wf(),
            walk_outcome(*old(self), *final(self), pi as int),
    {
        let ghost g0 = *self;
        let mut p = self.take_pawn(pi);
        proof { assert(p.route.wf()); }
        match p.route.next() {
            Some(next_tile) => {
                if p.can_walk_on_tile(self.tilemap.at(next_tile)) {
                    p.base.tile = next_tile;
                } else {
                    p.route.clear();
                }
            },
            None => {},
        }
        self.put_pawn(pi, p);
        proof { lemma_pawn_replaced(g0, *self, pi as int); }
    }

    /// Move the pawn in slot `pi` straight to `dst` (dropping its route) if it can
    /// walk there; otherwise nothing changes.
    pub fn teleport_to(&mut self, pi: usize, dst: TilePos)
        requires
            old(self).wf(),
            pi < old(self).pawns@.len(),
            old(self).pawns@[pi as int] is Some,
        ensures
            ui_kept(*old(self), *final(self)),
            buildings_kept(*old(self), *final(self)),
            final(self).wf(),
            final(self).pawns@[pi as int] is Some,
            ({
                let p = old(self).pawns@[pi as int].unwrap();
                let p2 = final(self).pawns@[pi as int].unwrap();
                if spec_can_walk_on(p.typ, old(self).tilemap.spec_at(dst)) {
                    &&& p2.base == (Base { tile: dst, ..p.base })
                    &&& p2.route@ == route_set(Seq::empty())
                    &&& p2.typ == p.typ && p2.home == p.home && p2.cargo == p.cargo && p2.target == p.target && p2.task == p.task
                } else {
                    final(self).pawns@ == old(self).pawns@
                }
            }),
            forall|j: int| 0 <= j < old(self).pawns@.len() && j != pi ==> #[trigger] final(self).pawns@[j] == old(self).pawns@[j],
            final(self).pawns@.len() == old(self).pawns@.len(),
            final(self).buildings@ == old(self).buildings@,
            final(self).tilemap == old(self).tilemap,
            final(self).resources@ == old(self).resources@,
            final(self).effects@ == old(self).effects@,
            final(self).tick == old(self).tick,
    {
        let walkable = match &self.pawns[pi] {
            Some(p) => p.can_walk_on_tile(self.tilemap.at(dst)),
            None => false,
        };
        if walkable {
            let ghost g0 = *self;
            let mut p = self.take_pawn(pi);
            p.base.tile = dst;
            p.route.clear();
            self.put_pawn(pi, p);
            proof { lemma_pawn_replaced(g0, *self, pi as int); }
        }
    }

    /// Whether another pawn stands on the tile of the pawn in slot `pi`.
    pub fn standing_on_other(&self, pi: usize) -> (r: bool)
        requires
            self.wf(),
            pi < self.pawns@.len(),
            self.pawns@[pi as int] is Some,
        ensures
            r == other_pawn_on(*self, pi as int, self.pawns@[pi as int].unwrap().base.tile),
    {
        let t = match &self.pawns[pi] {
            Some(p) => p.base.tile,
            None => (0, 0),
        };
        let mut j: usize = 0;
        while j < self.pawns.len()
            invariant
                self.wf(),
                pi < self.pawns@.len(),
                t == self.pawns@[pi as int].unwrap().base.tile,
                j <= self.pawns@.len(),
                forall|k: int| 0 <= k < j && k != pi && (#[trigger] self.pawns@[k]) is Some ==> self.pawns@[k].unwrap().base.tile != t,
            decreases self.pawns.len() - j,
        {
            if j != pi {
                match &self.pawns[j] {
                    Some(q) => {
                        if q.base.tile.0 == t.0 && q.base.tile.1 == t.1 {
                            return true;
                        }
                    },
                    None => {},
                }
            }
            j = j + 1;
        }
        false
    }

    /// If the pawn in slot `pi` can move and stands on another pawn, it steps aside
    /// to a random one of its four neighbouring tiles (if it can walk there).
    pub fn take_personal_space(&mut self, pi: usize)
        requires
            old(self).wf(),
            pi < old(self).pawns@.len(),
            old(self).pawns@[pi as int] is Some,
            has_neighbors(old(self).pawns@[pi as int].unwrap().base.tile),
        ensures
            ui_kept(*old(self), *final(self)),
            buildings_kept(*old(self), *final(self)),
            final(self).wf(),
            personal_space_outcome(*old(self), *final(self), pi as int),
    {
        let (can_move, t) = match &self.pawns[pi] {
            Some(p) => (p.can_move(), p.base.tile),
            None => (false, (0, 0)),
        };
        if !can_move {
            return;
        }
        if self.standing_on_other(pi) {
            let steps: [(i16, i16); 4] = [(-1, 0), (1, 0), (0, -1), (0, 1)];
            proof { assert(steps@ =~= aside_steps()); }
            let d = self.pick_random(&steps);
            let ghost k = choose|k: int| 0 <= k < 4 && d == aside_steps()[k];
            let dst = (t.0 + d.0, t.1 + d.1);
            let ghost g1 = *self;
            self.teleport_to(pi, dst);
            proof {
                assert(aside_steps()[k] == d);
            }
        }
    }

    /// Pick the nearest hostile pawn within 12 tiles as the target of the pawn in
    /// slot `pi` (none if there is none), then sleep one tick.
    pub fn find_target(&mut self, pi: usize)
        requires
            old(self).wf(),
            pi < old(self).pawns@.len(),
            old(self).pawns@[pi as int] is Some,
        ensures
            ui_kept(*old(self), *final(self)),
            buildings_kept(*old(self), *final(self)),
            final(self).wf(),
            find_target_outcome(*old(self), *final(self), pi as int),
    {
        let (tile, team) = match &self.pawns[pi] {
            Some(p) => (p.base.tile, p.base.team),
            None => ((0, 0), crate::team::Team(0)),
        };
        let target = self.find_hostile_pawn(tile, 12, team);
        let ghost g0 = *self;
        let mut p = self.take_pawn(pi);
        p.target = target;
        p.base.sleep(1);
        self.put_pawn(pi, p);
        proof { lemma_pawn_replaced(g0, *self, pi as int); }
    }

    /// The pawn in slot `pi` attacks pawn `victim`: a bolt is drawn between their
    /// centers, the victim takes the attacker's strength in damage, and the attacker
    /// sleeps one tick.
    pub fn attack(&mut self, pi: usize, victim: Id)
        requires
            old(self).wf(),
            pi < old(self).pawns@.len(),
            old(self).pawns@[pi as int] is Some,
            old(self).get_pawn(victim) is Some,
            victim.index != pi,
            old(self).tick + 30 <= u64::MAX,
        ensures
            ui_kept(*old(self), *final(self)),
            buildings_kept(*old(self), *final(self)),
            final(self).wf(),
            attack_outcome(*old(self), *final(self), pi as int, victim),
    {
        let (start, strength) = match &self.pawns[pi] {
            Some(p) => (tile_center(p.base.tile), p.attack_strength()),
            None => ((0, 0), 0),
        };
        let end = match self.pawn(victim) {
            Some(v) => tile_center(v.base.tile),
            None => (0, 0),
        };
        let ghost g0 = *self;
        self.effects.add_bolt(self.tick, start, end);
        proof { lemma_pawn_replaced(g0, *self, pi as int); }
        let ghost g1 = *self;
        self.deal_damage(victim, strength);
        proof {
            let q = Id { index: pi as u32, type_id: EntityType::Pawn };
            assert(q != victim);
            assert(self.get_pawn(q) == g1.get_pawn(q));
        }
        let ghost g2 = *self;
        let mut p = self.take_pawn(pi);
        p.base.sleep(1);
        self.put_pawn(pi, p);
        proof {
            lemma_pawn_replaced(g2, *self, pi as int);
            let q = Id { index: pi as u32, type_id: EntityType::Pawn };
            assert(g2.pawns@[pi as int] == g1.pawns@[pi as int]) by {
                assert(g1.pawns@[pi as int].unwrap().base.id == q);
                assert(g2.get_pawn(q) == g1.get_pawn(q));
            }
            assert(attack_bolt(g0, pi as int, victim) == ((g0.tick + 1) as u64, Effect::Bolt(crate::effects::Bolt { start, end })));
            assert(damage_outcome(g0, g2, victim, strength, g0.effects@.push(attack_bolt(g0, pi as int, victim)))) by {
                let v = g0.get_pawn(victim).unwrap();
                assert(g1.get_pawn(victim) == g0.get_pawn(victim));
                assert(forall|c: Id| #[trigger] g1.get_building(c) == g0.get_building(c));
                assert forall|qq: Id| qq != victim implies #[trigger] g1.get_pawn(qq) == g0.get_pawn(qq) by {}
            }
            assert(slept_one(g2, *self, pi as int));
        }
    }
}

} // verus!
