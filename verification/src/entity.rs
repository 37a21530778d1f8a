//! Entity identifiers and the state that every entity (pawn or building) has.
use vstd::prelude::*;
use crate::geom::TilePos;
use crate::team::Team;

verus! {

/// Which storage an entity lives in.
#[derive(Clone, Copy, PartialEq, Eq, Hash, Debug, Structural)]
pub enum EntityType {
    Pawn,
    Building,
}

/// Identifier of an entity: its slot number in the storage for its type.
#[derive(Clone, Copy, PartialEq, Eq, Hash, Debug, Structural)]
pub struct Id {
    pub index: u32,
    pub type_id: EntityType,
}

/// The identifier of no entity.
pub open spec fn invalid_id() -> Id {
    Id { index: u32::MAX, type_id: EntityType::Pawn }
}

impl Id {
    /// The identifier of no entity (given to entities before they are stored).
    pub fn invalid() -> (id: Id)
        ensures
            id == invalid_id(),
    {
        Id { index: u32::MAX, type_id: EntityType::Pawn }
    }

    /// Whether two identifiers are equal.
    pub fn same(&self, other: &Id) -> (r: bool)
        ensures
            r == (*self == *other),
    {
        self.index == other.index && self.type_id == other.type_id
    }
}

/// State shared by all entities.
#[derive(Clone, Copy, Debug)]
pub struct Base {
    pub id: Id,
    pub tile: TilePos,
    /// Number of ticks the entity still sleeps (does nothing).
    pub sleep: u8,
    pub team: Team,
    pub health: u8,
    /// Whether the entity's actions are logged.
    pub traced: bool,
}

/// Sleep counter after scheduling `ticks` more ticks of sleep (saturating at 255).
pub open spec fn spec_sleep_more(sleep: u8, ticks: u8) -> u8 {
    if sleep + ticks > 255 {
        255
    } else {
        (sleep + ticks) as u8
    }
}

impl Base {
    /// State of a new, not yet stored entity at `tile` of `team` with `health`.
    pub open spec fn new_spec(tile: TilePos, team: Team, health: u8) -> Base {
        Base { id: invalid_id(), tile, sleep: 0, team, health, traced: false }
    }

    /// State of a new, not yet stored entity.
    pub fn new(tile: TilePos, team: Team, health: u8) -> (b: Base)
        ensures
            b == Base::new_spec(tile, team, health),
    {
        Base { id: Id::invalid(), tile, sleep: 0, team, health, traced: false }
    }

    /// Count down one tick of sleep. Returns whether the entity was sleeping
    /// (and must skip this tick).
    pub fn tick_sleep(&mut self) -> (r: bool)
        ensures
            r == (old(self).sleep != 0),
            final(self).sleep == (if r { (old(self).sleep - 1) as u8 } else { 0u8 }),
            *final(self) == (Base { sleep: final(self).sleep, ..*old(self) }),
    {
        if self.sleep != 0 {
            self.sleep = self.sleep - 1;
            true
        } else {
            false
        }
    }

    /// Schedule `ticks` more ticks of sleep (saturating at 255).
    pub fn sleep(&mut self, ticks: u8)
        ensures
            *final(self) == (Base { sleep: spec_sleep_more(old(self).sleep, ticks), ..*old(self) }),
    {
        self.sleep = if self.sleep as u16 + ticks as u16 > 255 { 255 } else { self.sleep + ticks };
    }

    /// Whether the entity's actions are logged.
    pub fn traced(&self) -> (r: bool)
        ensures
            r == self.traced,
    {
        self.traced
    }
}

} // verus!
