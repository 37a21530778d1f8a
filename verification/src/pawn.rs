//! Pawns: the units that walk, work and fight.
use vstd::prelude::*;
use crate::building::Building;
use crate::entity::{Base, Id};
use crate::geom::{TilePos, spec_contains};
use crate::pawn_typ::{PawnTyp, spec_pawn_sprite, spec_attack_strength, spec_can_move, spec_can_walk_on, spec_is_worker, spec_pawn_health};
use crate::resource::ResourceTyp;
use crate::route::{Route, route_destination, route_finished, route_set};
use crate::team::Team;
use crate::tile::{Sprite, Tile};

verus! {

/// What a worker pawn does upon reaching its destination.
#[derive(Clone, Copy, PartialEq, Eq, Debug, Structural)]
pub enum Task {
    /// Nothing planned.
    Idle,
    /// Pick up this resource from the map at the destination.
    Harvest(ResourceTyp),
    /// Take this resource from the output of that building at the destination.
    TakeFromBuilding(Id, ResourceTyp),
    /// Bring the current cargo home.
    HomeDelivery,
    /// Bring the current cargo to that building at the destination.
    DeliverToBuilding(Id),
}

/// A pawn.
pub struct Pawn {
    pub base: Base,
    pub typ: PawnTyp,
    /// Where the pawn is going.
    pub route: Route,
    /// The building it works at, if any.
    pub home: Option<Id>,
    /// The resource it carries, if any.
    pub cargo: Option<ResourceTyp>,
    /// The entity it attacks, if any.
    pub target: Option<Id>,
    /// What to do upon reaching the destination.
    pub task: Task,
}

/// Ticks needed to pick up a resource.
pub const PICKUP_DELAY: u8 = 1;

/// Ticks paused after failing at something, so as not to retry too aggressively.
pub const FAIL_DELAY: u8 = 5;

impl Pawn {
    /// A new pawn of kind `typ` at `tile` in `team`: full health, no route, no home,
    /// no cargo, no target, no task, not yet stored.
    pub fn new(typ: PawnTyp, tile: TilePos, team: Team) -> (p: Pawn)
        ensures
            p.base == Base::new_spec(tile, team, spec_pawn_health(typ)),
            p.typ == typ,
            p.route.wf(),
            p.route@ == route_set(Seq::empty()),
            p.home is None,
            p.cargo is None,
            p.target is None,
            p.task == Task::Idle,
    {
        Pawn {
            base: Base::new(tile, team, typ.default_health()),
            typ,
            route: Route::new(),
            home: None,
            cargo: None,
            target: None,
            task: Task::Idle,
        }
    }

    /// Whether the pawn can move.
    pub fn can_move(&self) -> (r: bool)
        ensures
            r == spec_can_move(self.typ),
    {
        self.typ.can_move()
    }

    /// Whether the pawn may work at `building`: it is a worker of the same team.
    pub fn can_assign_to(&self, building: &Building) -> (r: bool)
        ensures
            r == (spec_is_worker(self.typ) && self.base.team == building.base.team),
    {
        if !self.typ.is_worker() {
            return false;
        }
        if self.base.team.0 != building.base.team.0 {
            return false;
        }
        true
    }

    /// Final tile of the pawn's route, if any.
    pub fn destination(&self) -> (d: Option<TilePos>)
        ensures
            d == route_destination(self.route@),
    {
        self.route.destination()
    }

    /// The resource the pawn carries, if any.
    pub fn cargo(&self) -> (c: Option<ResourceTyp>)
        ensures
            c == self.cargo,
    {
        self.cargo
    }

    /// Whether the pawn has walked its whole route.
    pub fn is_at_destination(&self) -> (r: bool)
        requires
            self.route.wf(),
        ensures
            r == route_finished(self.route@),
    {
        self.route.is_finished()
    }

    /// Whether the pawn can walk on `tile`.
    pub fn can_walk_on_tile(&self, tile: Tile) -> (r: bool)
        ensures
            r == spec_can_walk_on(self.typ, tile),
    {
        self.typ.can_walk_on(tile)
    }

    /// Damage the pawn deals per attack.
    pub fn attack_strength(&self) -> (r: u8)
        ensures
            r == spec_attack_strength(self.typ),
    {
        self.typ.attack_strength()
    }

    /// Whether the pawn attacks at all.
    pub fn can_attack(&self) -> (r: bool)
        ensures
            r == (spec_attack_strength(self.typ) != 0),
    {
        self.attack_strength() != 0
    }

    /// Whether the pawn stands on the footprint of `building`.
    pub fn is_at_building(&self, building: &Building) -> (r: bool)
        requires
            building.wf(),
        ensures
            r == spec_contains(building.spec_bounds(), self.base.tile),
    {
        building.bounds().contains(self.base.tile)
    }

    /// Sprite of the pawn (depends on kind and team).
    pub fn sprite(&self) -> (s: Sprite)
        ensures
            s@ == spec_pawn_sprite(self.typ, self.base.team),
    {
        self.typ.sprite(self.base.team)
    }
}

} // verus!
