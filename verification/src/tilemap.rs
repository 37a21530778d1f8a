//! The map of terrain tiles.
use vstd::prelude::*;
use crate::geom::TilePos;
use crate::tile::Tile;

verus! {

/// A `w` x `h` map of tiles, stored row by row. Tiles outside the map read as `Dunes`.
pub struct Tilemap {
    size: (u16, u16),
    tiles: Vec<Tile>,
}

/// Whether tile position `p` lies on a map of the given size.
pub open spec fn in_map(size: (u16, u16), p: TilePos) -> bool {
    0 <= p.0 < size.0 && 0 <= p.1 < size.1
}

/// Index in the row-by-row storage of position `p`.
pub open spec fn map_index(size: (u16, u16), p: TilePos) -> int {
    p.1 * size.0 + p.0
}

/// Tile at `p` on the test map of the given size: a lake of water at x in 2..5,
/// y in 3..7 with one sand tile at (4, 4), a field of blocks at x in 6..9, y in 2..5,
/// and dunes everywhere else.
pub open spec fn spec_testmap_tile(size: (u16, u16), p: TilePos) -> Tile {
    if !in_map(size, p) {
        Tile::Dunes
    } else if p.0 == 4 && p.1 == 4 {
        Tile::Sand
    } else if 2 <= p.0 < 5 && 3 <= p.1 < 7 {
        Tile::Water
    } else if 6 <= p.0 < 9 && 2 <= p.1 < 5 {
        Tile::Block
    } else {
        Tile::Dunes
    }
}

impl Tilemap {
    /// Width and height.
    pub closed spec fn spec_size(&self) -> (u16, u16) {
        self.size
    }

    /// Tile at position `p` (`Dunes` outside the map).
    pub closed spec fn spec_at(&self, p: TilePos) -> Tile {
        if in_map(self.size, p) {
            self.tiles@[map_index(self.size, p)]
        } else {
            Tile::Dunes
        }
    }

    /// The map stores exactly one tile per position.
    pub closed spec fn wf(&self) -> bool {
        self.tiles@.len() == self.size.0 * self.size.1
    }

    /// A map of the given size covered in dunes.
    pub fn new(size: (u16, u16)) -> (m: Tilemap)
        ensures
            m.wf(),
            m.spec_size() == size,
            forall|p: TilePos| #[trigger] m.spec_at(p) == Tile::Dunes,
    {
        assert(size.0 as int * size.1 as int <= 65535 * 65535) by (nonlinear_arith)
            requires
                size.0 <= 65535,
                size.1 <= 65535,
        ;
        let n = size.0 as usize * size.1 as usize;
        let mut tiles: Vec<Tile> = Vec::new();
        let mut i: usize = 0;
        while i < n
            invariant
                i <= n,
                n == size.0 * size.1,
                tiles@.len() == i,
                forall|j: int| 0 <= j < i ==> #[trigger] tiles@[j] == Tile::Dunes,
            decreases n - i,
        {
            tiles.push(Tile::Dunes);
            i = i + 1;
        }
        let m = Tilemap { size, tiles };
        assert forall|p: TilePos| #[trigger] m.spec_at(p) == Tile::Dunes by {
            if in_map(size, p) {
                lemma_map_index(size, p);
            }
        }
        m
    }

    fn index_of(&self, idx: TilePos) -> (i: usize)
        requires
            self.wf(),
            in_map(self.spec_size(), idx),
        ensures
            i == map_index(self.spec_size(), idx),
            i < self.tiles@.len(),
    {
        proof { lemma_map_index(self.size, idx); }
        let len = self.tiles.len();
        let a = idx.1 as usize;
        let b = self.size.0 as usize;
        let c = idx.0 as usize;
        assert(a * b + c < len);
        a * b + c
    }

    /// Width and height.
    pub fn size(&self) -> (r: (u16, u16))
        ensures
            r == self.spec_size(),
    {
        self.size
    }

    /// Tile at position `idx`; `Dunes` outside the map.
    pub fn at(&self, idx: TilePos) -> (t: Tile)
        requires
            self.wf(),
        ensures
            t == self.spec_at(idx),
    {
        if 0 <= idx.0 && (idx.0 as u16) < self.size.0 && 0 <= idx.1 && (idx.1 as u16) < self.size.1 {
            let i = self.index_of(idx);
            self.tiles[i]
        } else {
            Tile::Dunes
        }
    }

    /// Put tile `v` at position `idx`; positions outside the map are left alone.
    /// Every other position keeps its tile.
    pub fn set(&mut self, idx: TilePos, v: Tile)
        requires
            old(self).wf(),
        ensures
            final(self).wf(),
            final(self).spec_size() == old(self).spec_size(),
            in_map(old(self).spec_size(), idx) ==> final(self).spec_at(idx) == v,
            !in_map(old(self).spec_size(), idx) ==> final(self).spec_at(idx) == old(self).spec_at(idx),
            forall|p: TilePos| p != idx ==> #[trigger] final(self).spec_at(p) == old(self).spec_at(p),
    {
        if 0 <= idx.0 && (idx.0 as u16) < self.size.0 && 0 <= idx.1 && (idx.1 as u16) < self.size.1 {
            let i = self.index_of(idx);
            let ghost old_m = *self;
            self.tiles.set(i, v);
            proof {
                assert forall|p: TilePos| p != idx implies #[trigger] self.spec_at(p) == old_m.spec_at(p) by {
                    if in_map(self.size, p) {
                        lemma_map_index(self.size, p);
                        lemma_map_index_injective(self.size, p, idx);
                    }
                }
            }
        }
    }

    /// The test map (see `spec_testmap_tile`).
    pub fn testmap(size: (u16, u16)) -> (m: Tilemap)
        ensures
            m.wf(),
            m.spec_size() == size,
            forall|p: TilePos| #[trigger] m.spec_at(p) == spec_testmap_tile(size, p),
    {
        let mut m = Tilemap::new(size);
        let mut x: i16 = 2;
        while x < 5
            invariant
                2 <= x <= 5,
                m.wf(),
                m.spec_size() == size,
                forall|p: TilePos| #[trigger] m.spec_at(p) == (if in_map(size, p) && 2 <= p.0 < x && 3 <= p.1 < 7 {
                    Tile::Water
                } else {
                    Tile::Dunes
                }),
            decreases 5 - x,
        {
            let mut y: i16 = 3;
            while y < 7
                invariant
                    2 <= x < 5,
                    3 <= y <= 7,
                    m.wf(),
                    m.spec_size() == size,
                    forall|p: TilePos| #[trigger] m.spec_at(p) == (if in_map(size, p) && ((2 <= p.0 < x && 3 <= p.1 < 7) || (p.0 == x && 3 <= p.1 < y)) {
                        Tile::Water
                    } else {
                        Tile::Dunes
                    }),
                decreases 7 - y,
            {
                m.set((x, y), Tile::Water);
                y = y + 1;
            }
            x = x + 1;
        }
        let mut x: i16 = 6;
        while x < 9
            invariant
                6 <= x <= 9,
                m.wf(),
                m.spec_size() == size,
                forall|p: TilePos| #[trigger] m.spec_at(p) == (if !in_map(size, p) {
                    Tile::Dunes
                } else if 2 <= p.0 < 5 && 3 <= p.1 < 7 {
                    Tile::Water
                } else if 6 <= p.0 < x && 2 <= p.1 < 5 {
                    Tile::Block
                } else {
                    Tile::Dunes
                }),
            decreases 9 - x,
        {
            let mut y: i16 = 2;
            while y < 5
                invariant
                    6 <= x < 9,
                    2 <= y <= 5,
                    m.wf(),
                    m.spec_size() == size,
                    forall|p: TilePos| #[trigger] m.spec_at(p) == (if !in_map(size, p) {
                        Tile::Dunes
                    } else if 2 <= p.0 < 5 && 3 <= p.1 < 7 {
                        Tile::Water
                    } else if (6 <= p.0 < x && 2 <= p.1 < 5) || (p.0 == x && 2 <= p.1 < y) {
                        Tile::Block
                    } else {
                        Tile::Dunes
                    }),
                decreases 5 - y,
            {
                m.set((x, y), Tile::Block);
                y = y + 1;
            }
            x = x + 1;
        }
        m.set((4, 4), Tile::Sand);
        m
    }
}

/// A position on the map is stored at a valid index.
pub proof fn lemma_map_index(size: (u16, u16), p: TilePos)
    requires
        in_map(size, p),
    ensures
        0 <= map_index(size, p) < size.0 * size.1,
{
    assert(0 <= p.1 * size.0 + p.0 < size.0 * size.1) by (nonlinear_arith)
        requires
            0 <= p.0 < size.0,
            0 <= p.1 < size.1,
    ;
}

/// Distinct positions on the map are stored at distinct indices.
pub proof fn lemma_map_index_injective(size: (u16, u16), p: TilePos, q: TilePos)
    requires
        in_map(size, p),
        in_map(size, q),
        p != q,
    ensures
        map_index(size, p) != map_index(size, q),
{
    if p.1 == q.1 {
        assert(p.0 != q.0);
    } else if p.1 < q.1 {
        assert(p.1 * size.0 + p.0 < q.1 * size.0 + q.0) by (nonlinear_arith)
            requires
                0 <= p.0 < size.0,
                0 <= q.0,
                p.1 < q.1,
        ;
    } else {
        assert(q.1 * size.0 + q.0 < p.1 * size.0 + p.0) by (nonlinear_arith)
            requires
                0 <= q.0 < size.0,
                0 <= p.0,
                q.1 < p.1,
        ;
    }
}

/// Whether water flows over position `pos` of `tilemap` (canals and open water).
pub fn can_flow(tilemap: &Tilemap, pos: TilePos) -> (r: bool)
    requires
        tilemap.wf(),
    ensures
        r == (tilemap.spec_at(pos) == Tile::Canal || tilemap.spec_at(pos) == Tile::Water),
{
    match tilemap.at(pos) {
        Tile::Canal | Tile::Water => true,
        _ => false,
    }
}

} // verus!
