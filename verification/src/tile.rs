//! Terrain tiles.
use vstd::prelude::*;

verus! {

/// Name of a sprite (image) in the sprite atlas.
pub type Sprite = &'static str;

/// Kind of terrain on one tile of the map.
#[derive(Clone, Copy, PartialEq, Eq, Debug, Structural)]
pub enum Tile {
    Dunes,
    Mountains,
    Sand,
    Snow,
    Water,
    Block,
    Canal,
    Farmland,
    Road,
    GreyStone,
}

/// Numeric code of a tile kind (`Dunes` is 1, ..., `GreyStone` is 10).
pub open spec fn tile_code(t: Tile) -> nat {
    match t {
        Tile::Dunes => 1,
        Tile::Mountains => 2,
        Tile::Sand => 3,
        Tile::Snow => 4,
        Tile::Water => 5,
        Tile::Block => 6,
        Tile::Canal => 7,
        Tile::Farmland => 8,
        Tile::Road => 9,
        Tile::GreyStone => 10,
    }
}

/// Whether one can generally walk on a kind of tile.
pub open spec fn spec_default_walkable(t: Tile) -> bool {
    t == Tile::Sand || t == Tile::Snow || t == Tile::Farmland || t == Tile::Road
}

/// Name of the sprite that draws tile `t`.
pub open spec fn spec_tile_sprite(t: Tile) -> Seq<char> {
    match t {
        Tile::Dunes => "dunes"@,
        Tile::Mountains => "mountains"@,
        Tile::Sand => "sand"@,
        Tile::Snow => "snow"@,
        Tile::Water => "water2"@,
        Tile::Block => "block24"@,
        Tile::Canal => "canal"@,
        Tile::Farmland => "farmland"@,
        Tile::Road => "road"@,
        Tile::GreyStone => "greystone"@,
    }
}

impl Tile {
    /// The default tile kind.
    pub fn default_tile() -> (t: Tile)
        ensures
            t == Tile::Dunes,
    {
        Tile::Dunes
    }

    /// All tile kinds, in order of their numeric code.
    pub fn all() -> (v: Vec<Tile>)
        ensures
            v@.len() == 10,
            forall|i: int| 0 <= i < 10 ==> tile_code(#[trigger] v@[i]) == i + 1,
    {
        vec![
            Tile::Dunes,
            Tile::Mountains,
            Tile::Sand,
            Tile::Snow,
            Tile::Water,
            Tile::Block,
            Tile::Canal,
            Tile::Farmland,
            Tile::Road,
            Tile::GreyStone,
        ]
    }

    /// Numeric code of this tile kind, as an index.
    pub fn as_usize(self) -> (r: usize)
        ensures
            r == tile_code(self),
    {
        match self {
            Tile::Dunes => 1,
            Tile::Mountains => 2,
            Tile::Sand => 3,
            Tile::Snow => 4,
            Tile::Water => 5,
            Tile::Block => 6,
            Tile::Canal => 7,
            Tile::Farmland => 8,
            Tile::Road => 9,
            Tile::GreyStone => 10,
        }
    }

    /// Sprite used to draw this tile.
    pub fn sprite(self) -> (s: Sprite)
        ensures
            s@ == spec_tile_sprite(self),
    {
        match self {
            Tile::Dunes => "dunes",
            Tile::Mountains => "mountains",
            Tile::Sand => "sand",
            Tile::Snow => "snow",
            Tile::Water => "water2",
            Tile::Block => "block24",
            Tile::Canal => "canal",
            Tile::Farmland => "farmland",
            Tile::Road => "road",
            Tile::GreyStone => "greystone",
        }
    }

    /// Whether water can stand on this tile (canals and farmland).
    pub fn can_have_water(self) -> (r: bool)
        ensures
            r == (self == Tile::Canal || self == Tile::Farmland),
    {
        match self {
            Tile::Canal | Tile::Farmland => true,
            _ => false,
        }
    }

    /// Whether one can generally walk on this kind of tile.
    pub fn is_default_walkable(self) -> (r: bool)
        ensures
            r == spec_default_walkable(self),
    {
        match self {
            Tile::Dunes => false,
            Tile::Mountains => false,
            Tile::Sand => true,
            Tile::Snow => true,
            Tile::Water => false,
            Tile::Block => false,
            Tile::Canal => false,
            Tile::Farmland => true,
            Tile::Road => true,
            Tile::GreyStone => false,
        }
    }
}

} // verus!
