//! Tile coordinates, world (pixel) coordinates and rectangles of tiles.
use vstd::prelude::*;

verus! {

/// Position of a tile on the map (x, y).
pub type TilePos = (i16, i16);

/// Position in world coordinates, in pixels (x, y).
pub type WorldPos = (i32, i32);

/// Size of a tile in pixels.
pub const TILE_SIZE: u32 = 24;

/// Size of a tile in pixels, signed.
pub const TILE_ISIZE: i32 = 24;

/// Rust's integer division, which rounds towards zero.
pub open spec fn div_trunc(a: int, b: int) -> int
    recommends
        b > 0,
{
    if a >= 0 {
        a / b
    } else {
        -((-a) / b)
    }
}

/// Squared Euclidean distance between two tiles.
pub open spec fn spec_distance_squared(a: TilePos, b: TilePos) -> int {
    (a.0 - b.0) * (a.0 - b.0) + (a.1 - b.1) * (a.1 - b.1)
}

/// World position of the top left corner of tile `t`.
pub open spec fn spec_tile_pos(t: TilePos) -> (int, int) {
    (t.0 * 24, t.1 * 24)
}

/// Whether a tile's four neighbours all have representable coordinates.
pub open spec fn has_neighbors(p: TilePos) -> bool {
    i16::MIN < p.0 < i16::MAX && i16::MIN < p.1 < i16::MAX
}

/// The four neighbours of a tile, in the order left, up, right, down.
pub open spec fn spec_neighbors4(p: TilePos) -> Seq<TilePos> {
    seq![
        ((p.0 - 1) as i16, p.1),
        (p.0, (p.1 - 1) as i16),
        ((p.0 + 1) as i16, p.1),
        (p.0, (p.1 + 1) as i16),
    ]
}

/// World position (top left corner, in pixels) of a tile.
pub fn tile_to_pos(t: TilePos) -> (p: WorldPos)
    ensures
        p.0 == spec_tile_pos(t).0,
        p.1 == spec_tile_pos(t).1,
{
    (t.0 as i32 * TILE_ISIZE, t.1 as i32 * TILE_ISIZE)
}

/// Tile that contains a world position, where the division by the tile size rounds
/// towards zero and the quotient fits in a tile coordinate.
pub fn pos_to_tile(p: WorldPos) -> (t: TilePos)
    requires
        i16::MIN <= div_trunc(p.0 as int, 24) <= i16::MAX,
        i16::MIN <= div_trunc(p.1 as int, 24) <= i16::MAX,
    ensures
        t.0 == div_trunc(p.0 as int, 24),
        t.1 == div_trunc(p.1 as int, 24),
{
    let x = p.0 / TILE_ISIZE;
    let y = p.1 / TILE_ISIZE;
    (x as i16, y as i16)
}

/// Squared Euclidean distance between two tiles.
pub fn distance_squared(a: TilePos, b: TilePos) -> (d: i64)
    ensures
        d == spec_distance_squared(a, b),
{
    let dx = a.0 as i64 - b.0 as i64;
    let dy = a.1 as i64 - b.1 as i64;
    assert(dx * dx <= 65535 * 65535) by (nonlinear_arith)
        requires
            -65535 <= dx <= 65535,
    ;
    assert(dy * dy <= 65535 * 65535) by (nonlinear_arith)
        requires
            -65535 <= dy <= 65535,
    ;
    assert(0 <= dx * dx) by (nonlinear_arith);
    assert(0 <= dy * dy) by (nonlinear_arith);
    dx * dx + dy * dy
}

/// The four neighbours of a tile, in the order left, up, right, down.
pub fn neighbors4(pos: TilePos) -> (n: [TilePos; 4])
    requires
        has_neighbors(pos),
    ensures
        n@ == spec_neighbors4(pos),
{
    let n = [(pos.0 - 1, pos.1), (pos.0, pos.1 - 1), (pos.0 + 1, pos.1), (pos.0, pos.1 + 1)];
    assert(n@ =~= spec_neighbors4(pos));
    n
}

/// A rectangle of tiles: `min` is the top left corner (included), `max` the bottom
/// right corner (excluded by `contains`, included by `contains_incl`).
#[derive(Clone, Copy, Debug)]
pub struct TileBounds {
    pub min: TilePos,
    pub max: TilePos,
}

/// Whether `p` lies in the half-open rectangle `[min, max)`.
pub open spec fn spec_contains(b: TileBounds, p: TilePos) -> bool {
    b.min.0 <= p.0 < b.max.0 && b.min.1 <= p.1 < b.max.1
}

/// Whether `p` lies in the closed rectangle `[min, max]`.
pub open spec fn spec_contains_incl(b: TileBounds, p: TilePos) -> bool {
    b.min.0 <= p.0 <= b.max.0 && b.min.1 <= p.1 <= b.max.1
}

/// Whether two half-open rectangles share a tile.
pub open spec fn spec_overlaps(a: TileBounds, b: TileBounds) -> bool {
    a.min.0 < b.max.0 && b.min.0 < a.max.0 && a.min.1 < b.max.1 && b.min.1 < a.max.1
}

impl TileBounds {
    /// Rectangle of `size` tiles whose top left corner is `min`.
    pub fn with_size(min: TilePos, size: (u8, u8)) -> (b: TileBounds)
        requires
            min.0 + size.0 <= i16::MAX,
            min.1 + size.1 <= i16::MAX,
        ensures
            b.min == min,
            b.max.0 == min.0 + size.0,
            b.max.1 == min.1 + size.1,
    {
        TileBounds { min, max: (min.0 + size.0 as i16, min.1 + size.1 as i16) }
    }

    /// Whether `p` lies in `[min, max)`.
    pub fn contains(&self, p: TilePos) -> (r: bool)
        ensures
            r == spec_contains(*self, p),
    {
        self.min.0 <= p.0 && p.0 < self.max.0 && self.min.1 <= p.1 && p.1 < self.max.1
    }

    /// Whether `p` lies in `[min, max]`.
    pub fn contains_incl(&self, p: TilePos) -> (r: bool)
        ensures
            r == spec_contains_incl(*self, p),
    {
        self.min.0 <= p.0 && p.0 <= self.max.0 && self.min.1 <= p.1 && p.1 <= self.max.1
    }

    /// Whether the two rectangles share a tile.
    pub fn overlaps(&self, other: &TileBounds) -> (r: bool)
        ensures
            r == spec_overlaps(*self, *other),
    {
        self.min.0 < other.max.0 && other.min.0 < self.max.0 && self.min.1 < other.max.1 && other.min.1
            < self.max.1
    }
}

/// Two non-empty rectangles overlap exactly when some tile lies in both.
pub proof fn lemma_overlaps_iff_common_tile(a: TileBounds, b: TileBounds)
    requires
        a.min.0 < a.max.0 && a.min.1 < a.max.1,
        b.min.0 < b.max.0 && b.min.1 < b.max.1,
    ensures
        spec_overlaps(a, b) <==> exists|p: TilePos| spec_contains(a, p) && spec_contains(b, p),
{
    if spec_overlaps(a, b) {
        let x: i16 = if a.min.0 >= b.min.0 { a.min.0 } else { b.min.0 };
        let y: i16 = if a.min.1 >= b.min.1 { a.min.1 } else { b.min.1 };
        assert(spec_contains(a, (x, y)) && spec_contains(b, (x, y)));
    }
}

proof fn lemma_unit_step(a: TilePos, b: TilePos)
    requires
        (a.0 - b.0 == 0 && (a.1 - b.1 == 1 || a.1 - b.1 == -1)) || (a.1 - b.1 == 0 && (a.0 - b.0 == 1 || a.0
            - b.0 == -1)),
    ensures
        spec_distance_squared(a, b) == 1,
{
    let dx = a.0 - b.0;
    let dy = a.1 - b.1;
    assert(dx * dx + dy * dy == 1) by (nonlinear_arith)
        requires
            (dx == 0 && (dy == 1 || dy == -1)) || (dy == 0 && (dx == 1 || dx == -1)),
    ;
}

/// Every neighbour of a tile is at squared distance 1 from it.
pub proof fn lemma_neighbors_adjacent(p: TilePos)
    requires
        has_neighbors(p),
    ensures
        forall|i: int| 0 <= i < 4 ==> spec_distance_squared(p, #[trigger] spec_neighbors4(p)[i]) == 1,
{
    assert forall|i: int| 0 <= i < 4 implies spec_distance_squared(p, #[trigger] spec_neighbors4(p)[i]) == 1 by {
        let n = spec_neighbors4(p);
        if i == 0 {
            assert(n[0].0 == p.0 - 1 && n[0].1 == p.1);
            lemma_unit_step(p, n[0]);
            assert(p.0 - n[0].0 == 1 && p.1 - n[0].1 == 0);
        } else if i == 1 {
            assert(n[1].0 == p.0 && n[1].1 == p.1 - 1);
            lemma_unit_step(p, n[1]);
            assert(p.0 - n[1].0 == 0 && p.1 - n[1].1 == 1);
        } else if i == 2 {
            assert(n[2].0 == p.0 + 1 && n[2].1 == p.1);
            lemma_unit_step(p, n[2]);
            assert(p.0 - n[2].0 == -1 && p.1 - n[2].1 == 0);
        } else {
            assert(n[3].0 == p.0 && n[3].1 == p.1 + 1);
            lemma_unit_step(p, n[3]);
            assert(p.0 - n[3].0 == 0 && p.1 - n[3].1 == -1);
        }
    }
}

} // verus!
