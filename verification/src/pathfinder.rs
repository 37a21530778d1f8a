//! Path finding on the tile grid (A* from the `pathfinding` crate) and the
//! neighbourhoods it walks.
use vstd::prelude::*;
use crate::geom::{TilePos, distance_squared, has_neighbors, neighbors4, spec_distance_squared, spec_neighbors4};
use crate::tile::Tile;
use crate::world::G;
use itertools::Itertools;
use pathfinding::prelude::astar;

verus! {

/// Whether every tile within `max_dist` of `start` (and `start` itself) has
/// four neighbours with representable coordinates.
pub open spec fn region_fits(start: TilePos, max_dist: u16) -> bool {
    &&& i16::MIN < start.0 - max_dist
    &&& start.0 + max_dist < i16::MAX
    &&& i16::MIN < start.1 - max_dist
    &&& start.1 + max_dist < i16::MAX
}

/// Whether `b` is one of the four neighbours of `a`.
pub open spec fn is_step(a: TilePos, b: TilePos) -> bool {
    spec_neighbors4(a).contains(b)
}

/// `path` leads from `start` to `goal` by steps to neighbouring tiles, each tile
/// after the first lying strictly within `max_dist` of `start` and accepted by
/// `walkable`.
pub open spec fn is_walk<W: Fn(TilePos) -> bool>(path: Seq<TilePos>, start: TilePos, goal: TilePos, max_dist: u16, walkable: W) -> bool {
    &&& path.len() >= 1
    &&& path[0] == start
    &&& path.last() == goal
    &&& forall|i: int| 0 <= i < path.len() - 1 ==> {
        &&& is_step(path[i], #[trigger] path[i + 1])
        &&& spec_distance_squared(start, path[i + 1]) < max_dist * max_dist
        &&& call_ensures(walkable, (path[i + 1],), true)
    }
}

/// `path` leads from `start` to `goal` by steps to neighbouring tiles, each tile
/// after the first lying strictly within `max_dist` of `start` (whether the tiles
/// can be walked on left aside).
pub open spec fn is_route(path: Seq<TilePos>, start: TilePos, goal: TilePos, max_dist: u16) -> bool {
    &&& path.len() >= 1
    &&& path[0] == start
    &&& path.last() == goal
    &&& forall|i: int| 0 <= i < path.len() - 1 ==> {
        &&& is_step(path[i], #[trigger] path[i + 1])
        &&& spec_distance_squared(start, path[i + 1]) < max_dist * max_dist
    }
}

/// `walkable` may refuse some tile of `path` after the first.
pub open spec fn walk_blocked<W: Fn(TilePos) -> bool>(path: Seq<TilePos>, walkable: W) -> bool {
    exists|i: int| 1 <= i < path.len() && call_ensures(walkable, (#[trigger] path[i],), false)
}

/// Position of a tile within `max_dist` of `start` in a row-by-row numbering of
/// the square of side `2 * max_dist + 1` around `start`.
pub open spec fn box_key(t: TilePos, start: TilePos, max_dist: u16) -> int {
    (t.0 - start.0 + max_dist) * (2 * max_dist + 1) + (t.1 - start.1 + max_dist)
}

proof fn lemma_key_parts(a: int, b: int, c: int, d: int, w: int)
    requires
        w > 0,
        0 <= b < w,
        0 <= d < w,
        0 <= a,
        0 <= c,
        a * w + b == c * w + d,
    ensures
        a == c,
        b == d,
{
    if a > c {
        assert((a - c) * w >= w) by (nonlinear_arith)
            requires
                a - c >= 1,
                w > 0,
        ;
        assert(a * w - c * w == (a - c) * w) by (nonlinear_arith);
    } else if a < c {
        assert((c - a) * w >= w) by (nonlinear_arith)
            requires
                c - a >= 1,
                w > 0,
        ;
        assert(c * w - a * w == (c - a) * w) by (nonlinear_arith);
    }
}

/// A walk that never repeats a tile has at most as many tiles as the square of
/// side `2 * max_dist + 1` around its start.
pub proof fn lemma_walk_len_bound<W: Fn(TilePos) -> bool>(path: Seq<TilePos>, start: TilePos, goal: TilePos, max_dist: u16, walkable: W)
    requires
        is_walk(path, start, goal, max_dist, walkable),
        path.no_duplicates(),
    ensures
        path.len() <= (2 * max_dist + 1) * (2 * max_dist + 1),
{
    let w: int = 2 * max_dist + 1;
    let m: int = max_dist as int;
    let inbox = |t: TilePos| -m <= t.0 - start.0 <= m && -m <= t.1 - start.1 <= m;
    assert forall|i: int| 0 <= i < path.len() implies #[trigger] inbox(path[i]) by {
        if i > 0 {
            let t = path[i];
            assert(path[(i - 1) + 1] == t);
            let dx = start.0 - t.0;
            let dy = start.1 - t.1;
            assert(spec_distance_squared(start, t) == dx * dx + dy * dy);
            assert(-m <= dx <= m && -m <= dy <= m) by (nonlinear_arith)
                requires
                    dx * dx + dy * dy < m * m,
                    m >= 0,
            ;
        }
    }
    let x = path.to_set();
    let f = |t: TilePos| box_key(t, start, max_dist);
    path.unique_seq_to_set();
    assert(vstd::relations::injective_on(f, x)) by {
        assert forall|t1: TilePos, t2: TilePos| x.contains(t1) && x.contains(t2) && #[trigger] f(t1) == #[trigger] f(t2)
            implies t1 == t2 by {
            let i1 = choose|i: int| 0 <= i < path.len() && path[i] == t1;
            let i2 = choose|i: int| 0 <= i < path.len() && path[i] == t2;
            assert(inbox(path[i1]) && inbox(path[i2]));
            lemma_key_parts(t1.0 - start.0 + m, t1.1 - start.1 + m, t2.0 - start.0 + m, t2.1 - start.1 + m, w);
        }
    }
    let y = x.map(f);
    vstd::set_lib::lemma_map_size(x, y, f);
    assert(y.subset_of(vstd::set_lib::set_int_range(0, w * w))) by {
        assert forall|k: int| y.contains(k) implies vstd::set_lib::set_int_range(0, w * w).contains(k) by {
            let t = choose|t: TilePos| x.contains(t) && f(t) == k;
            let i = choose|i: int| 0 <= i < path.len() && path[i] == t;
            assert(inbox(path[i]));
            let a = t.0 - start.0 + m;
            let b = t.1 - start.1 + m;
            assert(0 <= a * w + b < w * w) by (nonlinear_arith)
                requires
                    0 <= a < w,
                    0 <= b < w,
            ;
        }
    }
    vstd::set_lib::lemma_int_range(0, w * w);
    vstd::set_lib::lemma_len_subset(y, vstd::set_lib::set_int_range(0, w * w));
}

/// `v` lists the neighbours of `cursor` at the increasing positions `ks` (in the
/// order left, up, right, down) that lie strictly within `max_dist` of `start` and
/// that `walkable` accepted, each with the cost `cost` gave for it; `walkable`
/// refused every other neighbour within reach.
pub open spec fn successors_from<W: Fn(TilePos) -> bool, C: Fn(TilePos) -> u8>(
    ks: Seq<int>,
    v: Seq<(TilePos, i32)>,
    cursor: TilePos,
    start: TilePos,
    max_dist: u16,
    walkable: W,
    cost: C,
) -> bool {
    &&& ks.len() == v.len()
    &&& forall|i: int, j: int| 0 <= i < j < ks.len() ==> ks[i] < ks[j]
    &&& forall|i: int| 0 <= i < ks.len() ==> item_ok(ks[i], #[trigger] v[i], cursor, start, max_dist, walkable, cost)
    &&& forall|k: int| 0 <= k < 4 && !ks.contains(k) ==> {
        let q = #[trigger] spec_neighbors4(cursor)[k];
        spec_distance_squared(start, q) >= max_dist * max_dist || call_ensures(walkable, (q,), false)
    }
}

/// `item` is the neighbour of `cursor` at position `k`, lies strictly within
/// `max_dist` of `start`, was accepted by `walkable`, and carries the cost `cost`
/// gave for it.
pub open spec fn item_ok<W: Fn(TilePos) -> bool, C: Fn(TilePos) -> u8>(
    k: int,
    item: (TilePos, i32),
    cursor: TilePos,
    start: TilePos,
    max_dist: u16,
    walkable: W,
    cost: C,
) -> bool {
    &&& 0 <= k < 4
    &&& item.0 == spec_neighbors4(cursor)[k]
    &&& spec_distance_squared(start, item.0) < max_dist * max_dist
    &&& call_ensures(walkable, (item.0,), true)
    &&& 0 <= item.1 <= 255
    &&& call_ensures(cost, (item.0,), item.1 as u8)
}

/// A tile strictly within `max_dist` of a tile whose region fits has four
/// neighbours with representable coordinates.
pub proof fn lemma_near_has_neighbors(c: TilePos, t: TilePos, max_dist: u16)
    requires
        region_fits(c, max_dist),
        spec_distance_squared(c, t) < max_dist * max_dist,
    ensures
        has_neighbors(t),
{
    let dx = c.0 - t.0;
    let dy = c.1 - t.1;
    let m = max_dist as int;
    assert(-m <= dx <= m && -m <= dy <= m) by (nonlinear_arith)
        requires
            dx * dx + dy * dy < m * m,
            m >= 0,
    ;
}

/// A step between neighbouring tiles can be taken back.
pub proof fn lemma_step_back(a: TilePos, b: TilePos)
    requires
        has_neighbors(a),
        is_step(a, b),
    ensures
        is_step(b, a),
{
    let k = choose|k: int| 0 <= k < 4 && spec_neighbors4(a)[k] == b;
    assert(spec_neighbors4(b)[(k + 2) % 4] == a);
}

/// `s` read backwards.
pub open spec fn reversed<A>(s: Seq<A>) -> Seq<A> {
    Seq::new(s.len(), |i: int| s[s.len() - 1 - i])
}

/// The tiles of `v`, last first.
pub fn reverse_tiles(v: &Vec<TilePos>) -> (r: Vec<TilePos>)
    ensures
        r@ == reversed(v@),
{
    let mut r: Vec<TilePos> = Vec::new();
    let mut i: usize = v.len();
    while i > 0
        invariant
            i <= v@.len(),
            r@.len() == v@.len() - i,
            forall|j: int| 0 <= j < r@.len() ==> #[trigger] r@[j] == v@[v@.len() - 1 - j],
        decreases i,
    {
        i = i - 1;
        r.push(v[i]);
    }
    proof { assert(r@ =~= reversed(v@)); }
    r
}

/// Integer square root: the `r` with `r * r <= n < (r + 1) * (r + 1)`.
pub fn isqrt(n: u64) -> (r: u64)
    requires
        n < 0x4_0000_0000,
    ensures
        r * r <= n < (r + 1) * (r + 1),
{
    let mut lo: u64 = 0;
    let mut hi: u64 = 0x2_0000;
    assert(hi * hi == 0x4_0000_0000) by (nonlinear_arith)
        requires
            hi == 0x2_0000,
    ;
    while hi - lo > 1
        invariant
            lo < hi <= 0x2_0000,
            lo * lo <= n < hi * hi,
        decreases hi - lo,
    {
        let mid = lo + (hi - lo) / 2;
        assert(mid * mid < 0x4_0000_0000) by (nonlinear_arith)
            requires
                mid < 0x2_0000,
        ;
        if mid * mid <= n {
            lo = mid;
        } else {
            hi = mid;
        }
    }
    lo
}

/// The neighbours of `cursor` that lie strictly within `max_dist` of `start` and that
/// `walkable` accepts, in the order left, up, right, down, each with the cost of
/// entering it.
pub fn weighted_successors<W: Fn(TilePos) -> bool, C: Fn(TilePos) -> u8>(
    cursor: TilePos,
    start: TilePos,
    max_dist: u16,
    walkable: &W,
    cost: &C,
) -> (v: Vec<(TilePos, i32)>)
    requires
        has_neighbors(cursor),
        forall|p: TilePos| walkable.requires((p,)),
        forall|p: TilePos| cost.requires((p,)),
    ensures
        exists|ks: Seq<int>| #[trigger] successors_from(ks, v@, cursor, start, max_dist, *walkable, *cost),
{
    let ns = neighbors4(cursor);
    assert(0 <= max_dist * max_dist <= 65535 * 65535) by (nonlinear_arith)
        requires
            max_dist <= 65535,
    ;
    let max_sq: i64 = max_dist as i64 * max_dist as i64;
    let mut v: Vec<(TilePos, i32)> = Vec::new();
    let ghost mut ks: Seq<int> = Seq::empty();
    let mut k: usize = 0;
    while k < 4
        invariant
            k <= 4,
            ns@ == spec_neighbors4(cursor),
            max_sq == max_dist * max_dist,
            forall|p: TilePos| walkable.requires((p,)),
            forall|p: TilePos| cost.requires((p,)),
            ks.len() == v@.len(),
            forall|i: int, j: int| 0 <= i < j < ks.len() ==> ks[i] < ks[j],
            forall|i: int| 0 <= i < ks.len() ==> ks[i] < k,
            forall|i: int| 0 <= i < ks.len() ==> item_ok(ks[i], #[trigger] v@[i], cursor, start, max_dist, *walkable, *cost),
            forall|k2: int| 0 <= k2 < k && !ks.contains(k2) ==> {
                let q = #[trigger] spec_neighbors4(cursor)[k2];
                spec_distance_squared(start, q) >= max_dist * max_dist || call_ensures(*walkable, (q,), false)
            },
        decreases 4 - k,
    {
        let p = ns[k];
        let w = walkable(p);
        assert(p == spec_neighbors4(cursor)[k as int]);
        let ghost ks0 = ks;
        let ghost v0 = v@;
        let within = distance_squared(start, p) < max_sq;
        if w && within {
            let c = cost(p);
            v.push((p, c as i32));
            proof {
                ks = ks.push(k as int);
                assert(ks[ks.len() - 1] == k);
                assert(ks.contains(k as int));
                assert forall|i: int| 0 <= i < ks.len() implies item_ok(ks[i], #[trigger] v@[i], cursor, start, max_dist, *walkable, *cost) by {
                    if i < ks.len() - 1 {
                        assert(v@[i] == v0[i] && ks[i] == ks0[i]);
                    }
                }
            }
        } else {
            proof {
                assert(!ks.contains(k as int));
            }
        }
        proof {
            assert forall|k2: int| 0 <= k2 < k + 1 && !ks.contains(k2) implies {
                let q = #[trigger] spec_neighbors4(cursor)[k2];
                spec_distance_squared(start, q) >= max_dist * max_dist || call_ensures(*walkable, (q,), false)
            } by {
                if k2 < k {
                    if ks0.contains(k2) {
                        let i = choose|i: int| 0 <= i < ks0.len() && ks0[i] == k2;
                        assert(ks[i] == k2);
                    }
                }
            }
        }
        k = k + 1;
    }
    assert(successors_from(ks, v@, cursor, start, max_dist, *walkable, *cost));
    v
}

/// The eight-neighbourhood of `pos` on `g`: its four straight neighbours, then
/// its open diagonals (see `neighbors8`).
pub open spec fn spec_neighbors8(g: G, pos: TilePos) -> Seq<TilePos> {
    spec_neighbors4(pos) + open_diags(g, pos, 4)
}

/// Whether `b` is one of the eight-neighbours of `a` on `g`.
pub open spec fn is_step8(g: G, a: TilePos, b: TilePos) -> bool {
    spec_neighbors8(g, a).contains(b)
}

/// `path` leads from `start` to `goal` by steps to eight-neighbours on `g`, each
/// tile after the first lying strictly within `max_dist` of `start` (whether the
/// tiles can be walked on left aside).
pub open spec fn is_route8(g: G, path: Seq<TilePos>, start: TilePos, goal: TilePos, max_dist: u16) -> bool {
    &&& path.len() >= 1
    &&& path[0] == start
    &&& path.last() == goal
    &&& forall|i: int| 0 <= i < path.len() - 1 ==> {
        &&& is_step8(g, path[i], #[trigger] path[i + 1])
        &&& spec_distance_squared(start, path[i + 1]) < max_dist * max_dist
    }
}

/// A route on `g` by eight-neighbour steps (see `is_route8`) whose tiles after the
/// first `walkable` accepted.
pub open spec fn is_walk8<W: Fn(TilePos) -> bool>(g: G, path: Seq<TilePos>, start: TilePos, goal: TilePos, max_dist: u16, walkable: W) -> bool {
    &&& is_route8(g, path, start, goal, max_dist)
    &&& forall|i: int| 1 <= i < path.len() ==> call_ensures(walkable, (#[trigger] path[i],), true)
}

/// The eight-neighbours of `cursor` on `g` (straight ones first) that lie strictly
/// within `max_dist` of `start` and that `walkable` accepts, each with the cost of
/// the step: 2 for a straight one and 3 for a diagonal one, plus what `cost` gives
/// for the tile. `walkable` refused every other eight-neighbour within reach.
pub fn diag_successors<W: Fn(TilePos) -> bool, C: Fn(TilePos) -> u8>(
    g: &G,
    cursor: TilePos,
    start: TilePos,
    max_dist: u16,
    walkable: &W,
    cost: &C,
) -> (v: Vec<(TilePos, i32)>)
    requires
        g.wf(),
        has_neighbors(cursor),
        forall|p: TilePos| walkable.requires((p,)),
        forall|p: TilePos| cost.requires((p,)),
    ensures
        forall|i: int| 0 <= i < v@.len() ==> {
            let (q, w) = #[trigger] v@[i];
            &&& spec_neighbors8(*g, cursor).contains(q)
            &&& spec_distance_squared(start, q) < max_dist * max_dist
            &&& call_ensures(*walkable, (q,), true)
            &&& exists|c: u8| call_ensures(*cost, (q,), c)
                && w == (if spec_neighbors4(cursor).contains(q) { 2int } else { 3int }) + c
        },
        forall|q: TilePos| #[trigger] spec_neighbors8(*g, cursor).contains(q) && spec_distance_squared(start, q) < max_dist * max_dist
            && !(exists|i: int| 0 <= i < v@.len() && v@[i].0 == q) ==> call_ensures(*walkable, (q,), false),
{
    let n = neighbors8dist(g, cursor);
    let ghost n8 = spec_neighbors8(*g, cursor);
    assert(0 <= max_dist * max_dist <= 65535 * 65535) by (nonlinear_arith)
        requires
            max_dist <= 65535,
    ;
    let max_sq: i64 = max_dist as i64 * max_dist as i64;
    proof {
        assert forall|j: int| 0 <= j < n@.len() implies n@[j].0 == #[trigger] n8[j]
            && n@[j].1 == (if spec_neighbors4(cursor).contains(n8[j]) { 2int } else { 3int }) by {
            if j >= 4 {
                let d = open_diags(*g, cursor, 4)[j - 4];
                assert(n8[j] == d);
                lemma_diag_not_straight(*g, cursor, j - 4);
            } else {
                assert(spec_neighbors4(cursor).contains(n8[j]));
            }
        }
    }
    let mut v: Vec<(TilePos, i32)> = Vec::new();
    let mut i: usize = 0;
    while i < n.len()
        invariant
            n8 == spec_neighbors8(*g, cursor),
            n@.len() == n8.len(),
            forall|j: int| 0 <= j < n@.len() ==> n@[j].0 == #[trigger] n8[j]
                && n@[j].1 == (if spec_neighbors4(cursor).contains(n8[j]) { 2int } else { 3int }),
            i <= n@.len(),
            max_sq == max_dist * max_dist,
            forall|p: TilePos| walkable.requires((p,)),
            forall|p: TilePos| cost.requires((p,)),
            forall|k: int| 0 <= k < v@.len() ==> {
                let (q, w) = #[trigger] v@[k];
                &&& n8.contains(q)
                &&& spec_distance_squared(start, q) < max_dist * max_dist
                &&& call_ensures(*walkable, (q,), true)
                &&& exists|c: u8| call_ensures(*cost, (q,), c)
                    && w == (if spec_neighbors4(cursor).contains(q) { 2int } else { 3int }) + c
            },
            forall|j: int| 0 <= j < i && spec_distance_squared(start, #[trigger] n8[j]) < max_dist * max_dist
                ==> call_ensures(*walkable, (n8[j],), false) || exists|k: int| 0 <= k < v@.len() && v@[k].0 == n8[j],
        decreases n.len() - i,
    {
        let (p, d) = n[i];
        proof { assert(n8[i as int] == p); }
        let ghost v0 = v@;
        let w = walkable(p);
        let within = distance_squared(start, p) < max_sq;
        if w && within {
            let c = cost(p);
            let wt: i32 = d + c as i32;
            v.push((p, wt));
            proof {
                assert(v@[v@.len() - 1] == (p, wt));
                assert(n8.contains(p));
            }
        }
        proof {
            assert forall|j: int| 0 <= j < i + 1 && spec_distance_squared(start, #[trigger] n8[j]) < max_dist * max_dist
                implies call_ensures(*walkable, (n8[j],), false) || exists|k: int| 0 <= k < v@.len() && v@[k].0 == n8[j] by {
                if j == i {
                    if w && within {
                        assert(v@[v@.len() - 1].0 == n8[j]);
                    }
                } else if exists|k: int| 0 <= k < v0.len() && v0[k].0 == n8[j] {
                    let k = choose|k: int| 0 <= k < v0.len() && v0[k].0 == n8[j];
                    assert(v@[k] == v0[k]);
                }
            }
        }
        i = i + 1;
    }
    proof {
        assert forall|q: TilePos| #[trigger] n8.contains(q) && spec_distance_squared(start, q) < max_dist * max_dist
            && !(exists|k: int| 0 <= k < v@.len() && v@[k].0 == q) implies call_ensures(*walkable, (q,), false) by {
            let j = choose|j: int| 0 <= j < n8.len() && n8[j] == q;
        }
    }
    v
}

/// A diagonal neighbour is not a straight one.
proof fn lemma_diag_not_straight(g: G, pos: TilePos, j: int)
    requires
        has_neighbors(pos),
        0 <= j < open_diags(g, pos, 4).len(),
    ensures
        !spec_neighbors4(pos).contains(open_diags(g, pos, 4)[j]),
{
    lemma_open_diags_are_diagonal(g, pos, 4);
    let d = open_diags(g, pos, 4)[j];
    if spec_neighbors4(pos).contains(d) {
        let k = choose|k: int| 0 <= k < 4 && spec_neighbors4(pos)[k] == d;
    }
}

/// Every open diagonal differs from `pos` by one in both coordinates.
proof fn lemma_open_diags_are_diagonal(g: G, pos: TilePos, n: nat)
    requires
        has_neighbors(pos),
        n <= 4,
    ensures
        forall|j: int| 0 <= j < open_diags(g, pos, n).len() ==> {
            let d = #[trigger] open_diags(g, pos, n)[j];
            (d.0 == pos.0 - 1 || d.0 == pos.0 + 1) && (d.1 == pos.1 - 1 || d.1 == pos.1 + 1)
        },
    decreases n,
{
    if n > 0 {
        lemma_open_diags_are_diagonal(g, pos, (n - 1) as nat);
        let k = n - 1;
        let t = diag_tile(pos, k);
        let dirs = straight_dirs();
        if k == 0 {
            assert(dirs[0] == (-1i16, 0i16) && dirs[1] == (0i16, -1i16));
        } else if k == 1 {
            assert(dirs[1] == (0i16, -1i16) && dirs[2] == (1i16, 0i16));
        } else if k == 2 {
            assert(dirs[2] == (1i16, 0i16) && dirs[3] == (0i16, 1i16));
        } else {
            assert(dirs[3] == (0i16, 1i16) && dirs[0] == (-1i16, 0i16));
        }
        assert((t.0 == pos.0 - 1 || t.0 == pos.0 + 1) && (t.1 == pos.1 - 1 || t.1 == pos.1 + 1));
        let prev = open_diags(g, pos, (n - 1) as nat);
        assert forall|j: int| 0 <= j < open_diags(g, pos, n).len() implies {
            let d = #[trigger] open_diags(g, pos, n)[j];
            (d.0 == pos.0 - 1 || d.0 == pos.0 + 1) && (d.1 == pos.1 - 1 || d.1 == pos.1 + 1)
        } by {
            if j < prev.len() {
                assert(open_diags(g, pos, n)[j] == prev[j]);
            } else {
                assert(open_diags(g, pos, n)[j] == t);
            }
        }
    }
}

/// The successors of `cursor` in a path search: with a map, its eight-neighbours on
/// it (see `diag_successors`), otherwise its four straight neighbours (see
/// `weighted_successors`).
pub fn path_successors<W: Fn(TilePos) -> bool, C: Fn(TilePos) -> u8>(
    diag: Option<&G>,
    cursor: TilePos,
    start: TilePos,
    max_dist: u16,
    walkable: &W,
    cost: &C,
) -> (v: Vec<(TilePos, i32)>)
    requires
        diag matches Some(g) ==> g.wf(),
        has_neighbors(cursor),
        forall|p: TilePos| walkable.requires((p,)),
        forall|p: TilePos| cost.requires((p,)),
    ensures
        diag is None ==> exists|ks: Seq<int>| #[trigger] successors_from(ks, v@, cursor, start, max_dist, *walkable, *cost),
        diag matches Some(g) ==> {
            &&& forall|i: int| 0 <= i < v@.len() ==> {
                let (q, w) = #[trigger] v@[i];
                &&& spec_neighbors8(*g, cursor).contains(q)
                &&& spec_distance_squared(start, q) < max_dist * max_dist
                &&& call_ensures(*walkable, (q,), true)
                &&& exists|c: u8| call_ensures(*cost, (q,), c)
                    && w == (if spec_neighbors4(cursor).contains(q) { 2int } else { 3int }) + c
            }
            &&& forall|q: TilePos| #[trigger] spec_neighbors8(*g, cursor).contains(q) && spec_distance_squared(start, q) < max_dist * max_dist
                && !(exists|i: int| 0 <= i < v@.len() && v@[i].0 == q) ==> call_ensures(*walkable, (q,), false)
        },
{
    match diag {
        Some(g) => diag_successors(g, cursor, start, max_dist, walkable, cost),
        None => weighted_successors(cursor, start, max_dist, walkable, cost),
    }
}

/// A* heuristic: the distance from `p` to `goal`, rounded down, plus the cost of
/// entering `p`.
pub fn path_heuristic<C: Fn(TilePos) -> u8>(p: TilePos, goal: TilePos, cost: &C) -> (h: i32)
    requires
        forall|q: TilePos| cost.requires((q,)),
    ensures
        exists|c: u8| #[trigger] call_ensures(*cost, (p,), c) && {
            let s = h - c;
            &&& 0 <= s
            &&& s * s <= spec_distance_squared(p, goal) < (s + 1) * (s + 1)
        },
{
    let d = distance_squared(p, goal);
    assert(0 <= (p.0 - goal.0) * (p.0 - goal.0)) by (nonlinear_arith);
    assert(0 <= (p.1 - goal.1) * (p.1 - goal.1)) by (nonlinear_arith);
    assert(d < 0x4_0000_0000) by (nonlinear_arith)
        requires
            d == (p.0 - goal.0) * (p.0 - goal.0) + (p.1 - goal.1) * (p.1 - goal.1),
            0 <= d,
            -65535 <= p.0 - goal.0 <= 65535,
            -65535 <= p.1 - goal.1 <= 65535,
    ;
    let s = isqrt(d as u64);
    assert(s < 0x2_0000) by (nonlinear_arith)
        requires
            s * s <= d,
            d < 0x4_0000_0000,
    ;
    let c = cost(p);
    s as i32 + c as i32
}

/// Whether every tile within `max_dist` of `start` has four neighbours with
/// representable coordinates.
pub fn fits_region(start: TilePos, max_dist: u16) -> (r: bool)
    ensures
        r == region_fits(start, max_dist),
{
    let m = max_dist as i32;
    -32768 < start.0 as i32 - m && start.0 as i32 + m < 32767 && -32768 < start.1 as i32 - m && start.1 as i32 + m < 32767
}

/// `pathfinding`'s `astar` from `start` to the first tile equal to `goal`, where the
/// successors of a tile are those that `path_successors` lists for it (its four
/// straight neighbours, or, when `diag` holds a map, its eight-neighbours on that
/// map) and the heuristic is `path_heuristic`. The crate's source shows that the
/// path it returns begins with `start`, ends with `goal`, and that each tile of it
/// is a successor of the tile before; that `start` is checked against `goal`
/// before anything else is looked at; and, since every tile that is expanded lies
/// within the region, that the costs it adds up (at most 258 a step) stay far below
/// `i32::MAX` when `max_dist` is at most 1000. The path follows the chain of
/// parents that the search recorded, which could not end if it came back to a
/// tile, so no tile occurs in it twice. The search only gives up after expanding
/// every tile it reached, so when `None` comes back, every route within the region
/// to `goal` passes a tile that `walkable` refused when the tile before it was
/// expanded. Not stated: that the path is a cheapest one.
#[verifier::external_body]
fn astar_to<W, C>(diag: Option<&G>, start: TilePos, goal: TilePos, max_dist: u16, walkable: &W, cost: &C) -> (r: Option<Vec<TilePos>>)
    where
        W: Fn(TilePos) -> bool,
        C: Fn(TilePos) -> u8,
    requires
        diag is Some ==> diag.unwrap().wf(),
        region_fits(start, max_dist),
        max_dist <= 1000,
        forall|p: TilePos| walkable.requires((p,)),
        forall|p: TilePos| cost.requires((p,)),
    ensures
        diag is None && r is Some ==> is_walk(r.unwrap()@, start, goal, max_dist, *walkable),
        diag is None && r is None ==> forall|path: Seq<TilePos>| #[trigger] is_route(path, start, goal, max_dist)
            ==> walk_blocked(path, *walkable),
        diag is Some && r is Some ==> is_walk8(*diag.unwrap(), r.unwrap()@, start, goal, max_dist, *walkable),
        diag is Some && r is None ==> forall|path: Seq<TilePos>| #[trigger] is_route8(*diag.unwrap(), path, start, goal, max_dist)
            ==> walk_blocked(path, *walkable),
        r is Some ==> r.unwrap()@.no_duplicates(),
        start == goal ==> r is Some && r.unwrap()@ == seq![start],
{
    astar(
        &start,
        |&c: &TilePos| path_successors(diag, c, start, max_dist, walkable, cost),
        |&p: &TilePos| path_heuristic(p, goal, cost),
        |&p: &TilePos| same_tile(p, goal),
    ).map(|(path, _)| path)
}

/// A path from `start` to `goal` over tiles that `walkable` accepts, entering a tile
/// costing what `cost` says, never leaving the tiles strictly within `max_dist` of
/// `start` (found with A*), never repeating a tile. `None` only when every such
/// route passes a tile that `walkable` may refuse.
pub fn weighted_path_to<W: Fn(TilePos) -> bool, C: Fn(TilePos) -> u8>(
    start: TilePos,
    goal: TilePos,
    max_dist: u16,
    walkable: W,
    cost: C,
) -> (r: Option<Vec<TilePos>>)
    requires
        region_fits(start, max_dist),
        max_dist <= 1000,
        forall|p: TilePos| walkable.requires((p,)),
        forall|p: TilePos| cost.requires((p,)),
    ensures
        start == goal ==> (r matches Some(path) && path@ == seq![start]),
        r matches Some(path) ==> is_walk(path@, start, goal, max_dist, walkable),
        r matches Some(path) ==> path@.no_duplicates(),
        r is None ==> forall|path: Seq<TilePos>| #[trigger] is_route(path, start, goal, max_dist) ==> walk_blocked(path, walkable),
{
    astar_to(None, start, goal, max_dist, &walkable, &cost)
}

/// A path from `start` to `goal` on `g` by steps to eight-neighbours (see
/// `neighbors8`: a diagonal step is open where one of the two straight neighbours
/// beside it has the kind of tile of the tile it starts from), over tiles that
/// `walkable` accepts, never leaving the tiles strictly within `max_dist` of
/// `start` (found with A*). A straight step costs 2 and a diagonal one 3, plus
/// what `cost` gives for the tile entered. No tile occurs twice. `None` only when
/// every such route passes a tile that `walkable` may refuse.
pub fn weighted_path_with_diag<W: Fn(TilePos) -> bool, C: Fn(TilePos) -> u8>(
    g: &G,
    start: TilePos,
    goal: TilePos,
    max_dist: u16,
    walkable: W,
    cost: C,
) -> (r: Option<Vec<TilePos>>)
    requires
        g.wf(),
        region_fits(start, max_dist),
        max_dist <= 1000,
        forall|p: TilePos| walkable.requires((p,)),
        forall|p: TilePos| cost.requires((p,)),
    ensures
        start == goal ==> (r matches Some(path) && path@ == seq![start]),
        r matches Some(path) ==> is_walk8(*g, path@, start, goal, max_dist, walkable),
        r matches Some(path) ==> path@.no_duplicates(),
        r is None ==> forall|path: Seq<TilePos>| #[trigger] is_route8(*g, path, start, goal, max_dist) ==> walk_blocked(path, walkable),
{
    let diag = Some(g);
    let r = astar_to(diag, start, goal, max_dist, &walkable, &cost);
    proof {
        assert(*diag.unwrap() == *g);
        if r is None {
            assert forall|path: Seq<TilePos>| #[trigger] is_route8(*g, path, start, goal, max_dist) implies walk_blocked(path, walkable) by {
                assert(is_route8(*diag.unwrap(), path, start, goal, max_dist));
            }
        }
    }
    r
}

/// The four straight directions, in the order left, up, right, down.
pub open spec fn straight_dirs() -> Seq<(i16, i16)> {
    seq![(-1i16, 0i16), (0i16, -1i16), (1i16, 0i16), (0i16, 1i16)]
}

/// Tile `pos` moved by `d`.
pub open spec fn moved(pos: TilePos, d: (i16, i16)) -> TilePos {
    ((pos.0 + d.0) as i16, (pos.1 + d.1) as i16)
}

/// Whether the diagonal between straight directions `k` and `k + 1` (the last
/// one pairs with the first) is open from `pos`: one of the two straight
/// neighbours it passes has the same kind of tile as `pos`.
pub open spec fn diag_open(g: G, pos: TilePos, k: int) -> bool {
    let d1 = straight_dirs()[k];
    let d2 = straight_dirs()[(k + 1) % 4];
    g.tilemap.spec_at(moved(pos, d1)) == g.tilemap.spec_at(pos) || g.tilemap.spec_at(moved(pos, d2)) == g.tilemap.spec_at(pos)
}

/// The diagonal between straight directions `k` and `k + 1`, seen from `pos`.
pub open spec fn diag_tile(pos: TilePos, k: int) -> TilePos {
    moved(moved(pos, straight_dirs()[k]), straight_dirs()[(k + 1) % 4])
}

/// The open diagonals from `pos` among the first `n` pairs of directions.
pub open spec fn open_diags(g: G, pos: TilePos, n: nat) -> Seq<TilePos>
    decreases n,
{
    if n == 0 {
        Seq::empty()
    } else if diag_open(g, pos, n - 1) {
        open_diags(g, pos, (n - 1) as nat).push(diag_tile(pos, n - 1))
    } else {
        open_diags(g, pos, (n - 1) as nat)
    }
}

/// `Itertools::circular_tuple_windows` on four directions, collected: each
/// direction paired with the next one, the last one paired with the first.
#[verifier::external_body]
fn circular_pairs(dirs: [(i16, i16); 4]) -> (r: Vec<((i16, i16), (i16, i16))>)
    ensures
        r@.len() == 4,
        forall|k: int| 0 <= k < 4 ==> #[trigger] r@[k] == (dirs@[k], dirs@[(k + 1) % 4]),
{
    dirs.into_iter().circular_tuple_windows().collect()
}

/// The four straight neighbours of `pos` (left, up, right, down), then each
/// diagonal neighbour that one of the two straight neighbours beside it makes
/// reachable: that straight neighbour has the same kind of tile as `pos`.
pub fn neighbors8(g: &G, pos: TilePos) -> (v: Vec<TilePos>)
    requires
        g.wf(),
        has_neighbors(pos),
    ensures
        v@ == spec_neighbors4(pos) + open_diags(*g, pos, 4),
{
    let center = g.tile_at(pos);
    let dirs: [(i16, i16); 4] = [(-1, 0), (0, -1), (1, 0), (0, 1)];
    proof { assert(dirs@ =~= straight_dirs()); }
    let pairs = circular_pairs(dirs);
    let ns = neighbors4(pos);
    let mut v: Vec<TilePos> = Vec::new();
    v.push(ns[0]);
    v.push(ns[1]);
    v.push(ns[2]);
    v.push(ns[3]);
    assert(v@ =~= spec_neighbors4(pos) + open_diags(*g, pos, 0));
    let mut k: usize = 0;
    while k < 4
        invariant
            g.wf(),
            has_neighbors(pos),
            center == g.tilemap.spec_at(pos),
            dirs@ == straight_dirs(),
            pairs@.len() == 4,
            forall|j: int| 0 <= j < 4 ==> #[trigger] pairs@[j] == (dirs@[j], dirs@[(j + 1) % 4]),
            k <= 4,
            v@ == spec_neighbors4(pos) + open_diags(*g, pos, k as nat),
        decreases 4 - k,
    {
        let (d1, d2) = pairs[k];
        assert(pairs@[k as int] == (dirs@[k as int], dirs@[(k as int + 1) % 4]));
        let a = (pos.0 + d1.0, pos.1 + d1.1);
        let b = (pos.0 + d2.0, pos.1 + d2.1);
        if g.tile_at(a) == center || g.tile_at(b) == center {
            v.push((a.0 + d2.0, a.1 + d2.1));
        }
        k = k + 1;
        assert(v@ =~= spec_neighbors4(pos) + open_diags(*g, pos, k as nat));
    }
    v
}

/// `neighbors8` with the distance of each step: 2 for a straight step and 3 for a
/// diagonal one (3/2 stands for the square root of 2).
pub fn neighbors8dist(g: &G, pos: TilePos) -> (v: Vec<(TilePos, i32)>)
    requires
        g.wf(),
        has_neighbors(pos),
    ensures
        v@.len() == 4 + open_diags(*g, pos, 4).len(),
        forall|i: int| 0 <= i < 4 ==> #[trigger] v@[i] == (spec_neighbors4(pos)[i], 2i32),
        forall|i: int| 4 <= i < v@.len() ==> #[trigger] v@[i] == (open_diags(*g, pos, 4)[i - 4], 3i32),
{
    let n = neighbors8(g, pos);
    let mut v: Vec<(TilePos, i32)> = Vec::new();
    let mut i: usize = 0;
    while i < n.len()
        invariant
            n@ == spec_neighbors4(pos) + open_diags(*g, pos, 4),
            i <= n@.len(),
            v@.len() == i,
            forall|j: int| 0 <= j < i ==> #[trigger] v@[j] == (n@[j], if j < 4 { 2i32 } else { 3i32 }),
        decreases n.len() - i,
    {
        let d: i32 = if i < 4 { 2 } else { 3 };
        v.push((n[i], d));
        i = i + 1;
    }
    v
}

/// Whether two tiles are the same.
pub fn same_tile(a: TilePos, b: TilePos) -> (r: bool)
    ensures
        r == (a == b),
{
    a.0 == b.0 && a.1 == b.1
}

} // verus!
