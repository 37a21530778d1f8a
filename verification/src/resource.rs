//! Resource kinds (leaves, rocks, ...).
use vstd::prelude::*;
use crate::tile::Sprite;

verus! {

/// Kind of resource that lies on the map, is carried by pawns, or is stored in buildings.
#[derive(Clone, Copy, PartialEq, Eq, Debug, Structural)]
pub enum ResourceTyp {
    Leaf,
    Rock,
    Dryweed,
    Brick,
    Ore,
    Iron,
    Coal,
}

/// Numeric code of a resource kind (`Leaf` is 1, ..., `Coal` is 7).
pub open spec fn resource_code(r: ResourceTyp) -> nat {
    match r {
        ResourceTyp::Leaf => 1,
        ResourceTyp::Rock => 2,
        ResourceTyp::Dryweed => 3,
        ResourceTyp::Brick => 4,
        ResourceTyp::Ore => 5,
        ResourceTyp::Iron => 6,
        ResourceTyp::Coal => 7,
    }
}

/// Size of a table indexed by resource code (the largest code plus one).
pub const RESOURCE_COUNT: usize = 8;

/// Name of the sprite that draws resource `t`.
pub open spec fn spec_resource_sprite(t: ResourceTyp) -> Seq<char> {
    match t {
        ResourceTyp::Leaf => "leaf"@,
        ResourceTyp::Rock => "rock"@,
        ResourceTyp::Dryweed => "dryweed"@,
        ResourceTyp::Brick => "brick"@,
        ResourceTyp::Ore => "ore"@,
        ResourceTyp::Iron => "iron"@,
        ResourceTyp::Coal => "coal"@,
    }
}

impl ResourceTyp {
    /// All resource kinds, in order of their numeric code.
    pub fn all() -> (v: Vec<ResourceTyp>)
        ensures
            v@.len() == 7,
            forall|i: int| 0 <= i < 7 ==> resource_code(#[trigger] v@[i]) == i + 1,
    {
        vec![
            ResourceTyp::Leaf,
            ResourceTyp::Rock,
            ResourceTyp::Dryweed,
            ResourceTyp::Brick,
            ResourceTyp::Ore,
            ResourceTyp::Iron,
            ResourceTyp::Coal,
        ]
    }

    /// Numeric code of this resource kind, as an index into a table of `RESOURCE_COUNT` entries.
    pub fn as_usize(self) -> (r: usize)
        ensures
            r == resource_code(self),
            r < RESOURCE_COUNT,
    {
        match self {
            ResourceTyp::Leaf => 1,
            ResourceTyp::Rock => 2,
            ResourceTyp::Dryweed => 3,
            ResourceTyp::Brick => 4,
            ResourceTyp::Ore => 5,
            ResourceTyp::Iron => 6,
            ResourceTyp::Coal => 7,
        }
    }

    /// Sprite used to draw this resource.
    pub fn sprite(self) -> (s: Sprite)
        ensures
            s@ == spec_resource_sprite(self),
    {
        match self {
            ResourceTyp::Leaf => "leaf",
            ResourceTyp::Rock => "rock",
            ResourceTyp::Dryweed => "dryweed",
            ResourceTyp::Brick => "brick",
            ResourceTyp::Ore => "ore",
            ResourceTyp::Iron => "iron",
            ResourceTyp::Coal => "coal",
        }
    }

    /// Name of this resource kind, as shown to the player.
    pub fn name(self) -> (s: &'static str)
        ensures
            self == ResourceTyp::Leaf ==> s@ == "Leaf"@,
            self == ResourceTyp::Rock ==> s@ == "Rock"@,
            self == ResourceTyp::Dryweed ==> s@ == "Dryweed"@,
            self == ResourceTyp::Brick ==> s@ == "Brick"@,
            self == ResourceTyp::Ore ==> s@ == "Ore"@,
            self == ResourceTyp::Iron ==> s@ == "Iron"@,
            self == ResourceTyp::Coal ==> s@ == "Coal"@,
    {
        match self {
            ResourceTyp::Leaf => "Leaf",
            ResourceTyp::Rock => "Rock",
            ResourceTyp::Dryweed => "Dryweed",
            ResourceTyp::Brick => "Brick",
            ResourceTyp::Ore => "Ore",
            ResourceTyp::Iron => "Iron",
            ResourceTyp::Coal => "Coal",
        }
    }
}

} // verus!
