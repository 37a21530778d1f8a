//! Kinds of buildings and their static properties.
use vstd::prelude::*;
use crate::pawn_typ::PawnTyp;
use crate::resource::ResourceTyp;
use crate::tile::{Sprite, Tile, spec_default_walkable};

verus! {

/// Kind of building.
#[derive(Clone, Copy, PartialEq, Eq, Debug, Structural)]
pub enum BuildingTyp {
    HQ,
    Farm,
    Quarry,
    StarNest,
    FoodPacker,
    RockPacker,
    IronMine,
    CoalMine,
}

/// Numeric code of a building kind (`HQ` is 1, ..., `CoalMine` is 8).
pub open spec fn building_code(b: BuildingTyp) -> nat {
    match b {
        BuildingTyp::HQ => 1,
        BuildingTyp::Farm => 2,
        BuildingTyp::Quarry => 3,
        BuildingTyp::StarNest => 4,
        BuildingTyp::FoodPacker => 5,
        BuildingTyp::RockPacker => 6,
        BuildingTyp::IronMine => 7,
        BuildingTyp::CoalMine => 8,
    }
}

/// Footprint (width, height) in tiles.
pub open spec fn spec_size(b: BuildingTyp) -> (u8, u8) {
    match b {
        BuildingTyp::HQ => (3, 3),
        BuildingTyp::Farm => (2, 2),
        BuildingTyp::Quarry => (2, 2),
        BuildingTyp::StarNest => (3, 3),
        BuildingTyp::FoodPacker => (3, 3),
        BuildingTyp::RockPacker => (3, 3),
        BuildingTyp::IronMine => (2, 2),
        BuildingTyp::CoalMine => (2, 2),
    }
}

/// Input slots (resource kind, capacity) of a building kind.
pub open spec fn spec_input_resources(b: BuildingTyp) -> Seq<(ResourceTyp, u16)> {
    match b {
        BuildingTyp::HQ => seq![(ResourceTyp::Dryweed, 1000u16), (ResourceTyp::Brick, 1000u16), (ResourceTyp::Iron, 1000u16)],
        BuildingTyp::Farm => seq![(ResourceTyp::Leaf, 10u16)],
        BuildingTyp::Quarry => seq![(ResourceTyp::Rock, 10u16)],
        BuildingTyp::StarNest => seq![(ResourceTyp::Leaf, 100u16)],
        BuildingTyp::FoodPacker => seq![(ResourceTyp::Leaf, 10u16)],
        BuildingTyp::RockPacker => seq![(ResourceTyp::Rock, 10u16)],
        BuildingTyp::IronMine => seq![(ResourceTyp::Ore, 10u16), (ResourceTyp::Coal, 10u16)],
        BuildingTyp::CoalMine => seq![(ResourceTyp::Coal, 10u16)],
    }
}

/// Output slots (resource kind, capacity) of a building kind.
pub open spec fn spec_output_resources(b: BuildingTyp) -> Seq<(ResourceTyp, u16)> {
    match b {
        BuildingTyp::Farm => seq![(ResourceTyp::Dryweed, 10u16)],
        BuildingTyp::Quarry => seq![(ResourceTyp::Brick, 10u16)],
        BuildingTyp::IronMine => seq![(ResourceTyp::Iron, 10u16)],
        _ => Seq::empty(),
    }
}

/// Kind and number of the workers that a building spawns.
pub open spec fn spec_default_workers(b: BuildingTyp) -> (PawnTyp, usize) {
    match b {
        BuildingTyp::HQ => (PawnTyp::Cat, 2),
        BuildingTyp::StarNest => (PawnTyp::Starfish, 10),
        BuildingTyp::IronMine => (PawnTyp::Cat, 2),
        BuildingTyp::CoalMine => (PawnTyp::Cat, 2),
        _ => (PawnTyp::Cat, 1),
    }
}

/// Whether a building of kind `b` can stand on tile `t`: star nests on water,
/// everything on generally walkable tiles.
pub open spec fn spec_can_build_on(b: BuildingTyp, t: Tile) -> bool {
    (b == BuildingTyp::StarNest && t == Tile::Water) || spec_default_walkable(t)
}

/// Health of a newly built building.
pub open spec fn spec_building_health() -> u8 {
    100
}

/// Name of the sprite that draws a building of kind `t`.
pub open spec fn spec_building_sprite(t: BuildingTyp) -> Seq<char> {
    match t {
        BuildingTyp::HQ => "hq"@,
        BuildingTyp::Farm => "shell_big"@,
        BuildingTyp::Quarry => "quarry"@,
        BuildingTyp::StarNest => "starnest"@,
        BuildingTyp::FoodPacker => "factory"@,
        BuildingTyp::RockPacker => "factory"@,
        BuildingTyp::IronMine => "quarry"@,
        BuildingTyp::CoalMine => "quarry"@,
    }
}

impl BuildingTyp {
    /// All building kinds, in order of their numeric code.
    pub fn all() -> (v: Vec<BuildingTyp>)
        ensures
            v@.len() == 8,
            forall|i: int| 0 <= i < 8 ==> building_code(#[trigger] v@[i]) == i + 1,
    {
        vec![
            BuildingTyp::HQ,
            BuildingTyp::Farm,
            BuildingTyp::Quarry,
            BuildingTyp::StarNest,
            BuildingTyp::FoodPacker,
            BuildingTyp::RockPacker,
            BuildingTyp::IronMine,
            BuildingTyp::CoalMine,
        ]
    }

    /// Sprite used to draw a building of this kind.
    pub fn sprite(&self) -> (s: Sprite)
        ensures
            s@ == spec_building_sprite(*self),
    {
        match self {
            BuildingTyp::HQ => "hq",
            BuildingTyp::Farm => "shell_big",
            BuildingTyp::Quarry => "quarry",
            BuildingTyp::StarNest => "starnest",
            BuildingTyp::FoodPacker => "factory",
            BuildingTyp::RockPacker => "factory",
            BuildingTyp::IronMine => "quarry",
            BuildingTyp::CoalMine => "quarry",
        }
    }

    /// Footprint size (width, height) in tiles.
    pub fn size(&self) -> (r: (u8, u8))
        ensures
            r == spec_size(*self),
    {
        match self {
            BuildingTyp::HQ => (3, 3),
            BuildingTyp::Farm => (2, 2),
            BuildingTyp::Quarry => (2, 2),
            BuildingTyp::StarNest => (3, 3),
            BuildingTyp::FoodPacker => (3, 3),
            BuildingTyp::RockPacker => (3, 3),
            BuildingTyp::IronMine => (2, 2),
            BuildingTyp::CoalMine => (2, 2),
        }
    }

    /// Input slots (resource kind, capacity) of this kind of building.
    pub fn input_resources(self) -> (v: Vec<(ResourceTyp, u16)>)
        ensures
            v@ == spec_input_resources(self),
    {
        let v = match self {
            BuildingTyp::HQ => vec![(ResourceTyp::Dryweed, 1000u16), (ResourceTyp::Brick, 1000u16), (ResourceTyp::Iron, 1000u16)],
            BuildingTyp::Farm => vec![(ResourceTyp::Leaf, 10u16)],
            BuildingTyp::Quarry => vec![(ResourceTyp::Rock, 10u16)],
            BuildingTyp::StarNest => vec![(ResourceTyp::Leaf, 100u16)],
            BuildingTyp::FoodPacker => vec![(ResourceTyp::Leaf, 10u16)],
            BuildingTyp::RockPacker => vec![(ResourceTyp::Rock, 10u16)],
            BuildingTyp::IronMine => vec![(ResourceTyp::Ore, 10u16), (ResourceTyp::Coal, 10u16)],
            BuildingTyp::CoalMine => vec![(ResourceTyp::Coal, 10u16)],
        };
        assert(v@ =~= spec_input_resources(self));
        v
    }

    /// Output slots (resource kind, capacity) of this kind of building.
    pub fn output_resources(self) -> (v: Vec<(ResourceTyp, u16)>)
        ensures
            v@ == spec_output_resources(self),
    {
        let v = match self {
            BuildingTyp::Farm => vec![(ResourceTyp::Dryweed, 10u16)],
            BuildingTyp::Quarry => vec![(ResourceTyp::Brick, 10u16)],
            BuildingTyp::IronMine => vec![(ResourceTyp::Iron, 10u16)],
            _ => Vec::new(),
        };
        assert(v@ =~= spec_output_resources(self));
        v
    }

    /// Kind and number of the workers that a building of this kind spawns.
    pub fn default_workers(self) -> (r: (PawnTyp, usize))
        ensures
            r == spec_default_workers(self),
    {
        match self {
            BuildingTyp::HQ => (PawnTyp::Cat, 2),
            BuildingTyp::Farm => (PawnTyp::Cat, 1),
            BuildingTyp::Quarry => (PawnTyp::Cat, 1),
            BuildingTyp::StarNest => (PawnTyp::Starfish, 10),
            BuildingTyp::FoodPacker => (PawnTyp::Cat, 1),
            BuildingTyp::RockPacker => (PawnTyp::Cat, 1),
            BuildingTyp::IronMine => (PawnTyp::Cat, 2),
            BuildingTyp::CoalMine => (PawnTyp::Cat, 2),
        }
    }

    /// Whether a building of this kind can stand on `tile`.
    pub fn can_build_on(self, tile: Tile) -> (r: bool)
        ensures
            r == spec_can_build_on(self, tile),
    {
        match (self, tile) {
            (BuildingTyp::StarNest, Tile::Water) => true,
            (_, t) => t.is_default_walkable(),
        }
    }

    /// Health of a newly built building of this kind.
    pub fn default_health(&self) -> (r: u8)
        ensures
            r == spec_building_health(),
    {
        100
    }
}

/// Every input and output slot of every building kind has a positive capacity, and
/// no building kind has two input slots, or two output slots, for the same resource.
pub proof fn lemma_slot_tables_well_formed(b: BuildingTyp)
    ensures
        forall|i: int| 0 <= i < spec_input_resources(b).len() ==> (#[trigger] spec_input_resources(b)[i]).1 > 0,
        forall|i: int| 0 <= i < spec_output_resources(b).len() ==> (#[trigger] spec_output_resources(b)[i]).1 > 0,
        forall|i: int, j: int| 0 <= i < j < spec_input_resources(b).len()
            ==> spec_input_resources(b)[i].0 != spec_input_resources(b)[j].0,
        forall|i: int, j: int| 0 <= i < j < spec_output_resources(b).len()
            ==> spec_output_resources(b)[i].0 != spec_output_resources(b)[j].0,
        spec_input_resources(b).len() <= 3,
        spec_output_resources(b).len() <= 2,
{
}

} // verus!
