//! Kinds of pawns (the units that walk around).
use vstd::prelude::*;
use crate::team::Team;
use crate::tile::{Sprite, Tile, spec_default_walkable};

verus! {

/// Kind of pawn.
#[derive(Clone, Copy, PartialEq, Eq, Debug, Structural)]
pub enum PawnTyp {
    Kitten,
    Cat,
    Crab,
    Turret,
    Starfish,
}

/// Numeric code of a pawn kind (`Kitten` is 1, ..., `Starfish` is 5).
pub open spec fn pawn_code(p: PawnTyp) -> nat {
    match p {
        PawnTyp::Kitten => 1,
        PawnTyp::Cat => 2,
        PawnTyp::Crab => 3,
        PawnTyp::Turret => 4,
        PawnTyp::Starfish => 5,
    }
}

/// Whether pawns of kind `p` can walk on tile `t`.
pub open spec fn spec_can_walk_on(p: PawnTyp, t: Tile) -> bool {
    if p == PawnTyp::Starfish && (t == Tile::Water || t == Tile::Canal) {
        true
    } else if p == PawnTyp::Turret && t == Tile::Block {
        true
    } else {
        spec_default_walkable(t)
    }
}

/// Whether pawns of kind `p` can move at all.
pub open spec fn spec_can_move(p: PawnTyp) -> bool {
    p != PawnTyp::Turret
}

/// Whether pawns of kind `p` can work at a factory and carry resources.
pub open spec fn spec_is_worker(p: PawnTyp) -> bool {
    p == PawnTyp::Kitten || p == PawnTyp::Cat || p == PawnTyp::Starfish
}

/// Health of a newly spawned pawn of kind `p`.
pub open spec fn spec_pawn_health(p: PawnTyp) -> u8 {
    match p {
        PawnTyp::Kitten => 3,
        PawnTyp::Cat => 5,
        PawnTyp::Crab => 5,
        PawnTyp::Turret => 20,
        PawnTyp::Starfish => 4,
    }
}

/// Damage that a pawn of kind `p` deals per attack (0: it does not attack).
pub open spec fn spec_attack_strength(p: PawnTyp) -> u8 {
    match p {
        PawnTyp::Crab => 1,
        PawnTyp::Turret => 1,
        _ => 0,
    }
}

/// Name of the sprite of a pawn of kind `p` in team `team` (team 1 is drawn red,
/// team 2 blue).
pub open spec fn spec_pawn_sprite(p: PawnTyp, team: Team) -> Seq<char> {
    match p {
        PawnTyp::Kitten => "kit7"@,
        PawnTyp::Cat => if team == Team(1) { "Manneke_06"@ } else { "kit3"@ },
        PawnTyp::Crab => if team == Team(2) { "Manneke_40"@ } else { "Manneke_42"@ },
        PawnTyp::Turret => if team == Team(2) { "turretblue"@ } else { "turret"@ },
        PawnTyp::Starfish => "starfish"@,
    }
}

impl PawnTyp {
    /// All pawn kinds, in order of their numeric code.
    pub fn all() -> (v: Vec<PawnTyp>)
        ensures
            v@.len() == 5,
            forall|i: int| 0 <= i < 5 ==> pawn_code(#[trigger] v@[i]) == i + 1,
    {
        vec![PawnTyp::Kitten, PawnTyp::Cat, PawnTyp::Crab, PawnTyp::Turret, PawnTyp::Starfish]
    }

    /// Whether this kind of pawn can walk on `tile`: starfish swim in water and canals,
    /// turrets stand on blocks, all others walk where walking is generally possible.
    pub fn can_walk_on(&self, tile: Tile) -> (r: bool)
        ensures
            r == spec_can_walk_on(*self, tile),
    {
        match (self, tile) {
            (PawnTyp::Starfish, Tile::Water) => true,
            (PawnTyp::Starfish, Tile::Canal) => true,
            (PawnTyp::Turret, Tile::Block) => true,
            (_, t) => t.is_default_walkable(),
        }
    }

    /// Whether this kind of pawn can move (all but turrets).
    pub fn can_move(self) -> (r: bool)
        ensures
            r == spec_can_move(self),
    {
        match self {
            PawnTyp::Kitten => true,
            PawnTyp::Cat => true,
            PawnTyp::Crab => true,
            PawnTyp::Turret => false,
            PawnTyp::Starfish => true,
        }
    }

    /// Worker pawns can be assigned to work at a factory, and transport resources.
    /// Every worker can move.
    pub fn is_worker(self) -> (r: bool)
        ensures
            r == spec_is_worker(self),
            r ==> spec_can_move(self),
    {
        match self {
            PawnTyp::Kitten => true,
            PawnTyp::Cat => true,
            PawnTyp::Crab => false,
            PawnTyp::Turret => false,
            PawnTyp::Starfish => true,
        }
    }

    /// Health of a newly spawned pawn of this kind.
    pub fn default_health(self) -> (r: u8)
        ensures
            r == spec_pawn_health(self),
    {
        match self {
            PawnTyp::Kitten => 3,
            PawnTyp::Cat => 5,
            PawnTyp::Crab => 5,
            PawnTyp::Turret => 20,
            PawnTyp::Starfish => 4,
        }
    }

    /// Damage dealt per attack; 0 for kinds that do not attack.
    pub fn attack_strength(self) -> (r: u8)
        ensures
            r == spec_attack_strength(self),
    {
        match self {
            PawnTyp::Kitten => 0,
            PawnTyp::Cat => 0,
            PawnTyp::Crab => 1,
            PawnTyp::Turret => 1,
            PawnTyp::Starfish => 0,
        }
    }

    /// Sprite for a pawn of this kind in team `team` (team 1 is drawn red, team 2 blue).
    pub fn sprite(&self, team: Team) -> (s: Sprite)
        ensures
            s@ == spec_pawn_sprite(*self, team),
    {
        match self {
            PawnTyp::Kitten => "kit7",
            PawnTyp::Cat => if team.0 == 1 { "Manneke_06" } else { "kit3" },
            PawnTyp::Crab => if team.0 == 2 { "Manneke_40" } else { "Manneke_42" },
            PawnTyp::Turret => if team.0 == 2 { "turretblue" } else { "turret" },
            PawnTyp::Starfish => "starfish",
        }
    }
}

} // verus!
