//! A pawn's planned route: a list of tiles and how far along it the pawn has walked.
use vstd::prelude::*;
use crate::geom::TilePos;

verus! {

/// Abstract state of a route: the planned tiles and the number already walked.
pub struct RouteView {
    pub steps: Seq<TilePos>,
    pub walked: nat,
}

/// A planned route. `next` hands out the tiles one after the other.
#[derive(Debug)]
pub struct Route {
    i: u32,
    steps: Vec<TilePos>,
}

impl View for Route {
    type V = RouteView;

    closed spec fn view(&self) -> RouteView {
        RouteView { steps: self.steps@, walked: self.i as nat }
    }
}

/// Result and new state of asking route `r` for its next tile.
pub open spec fn route_next(r: RouteView) -> (Option<TilePos>, RouteView) {
    if r.walked < r.steps.len() {
        (Some(r.steps[r.walked as int]), RouteView { steps: r.steps, walked: r.walked + 1 })
    } else {
        (None, r)
    }
}

/// Final tile of route `r`, if it has any.
pub open spec fn route_destination(r: RouteView) -> Option<TilePos> {
    if r.steps.len() > 0 {
        Some(r.steps.last())
    } else {
        None
    }
}

/// Whether every tile of route `r` has been handed out.
pub open spec fn route_finished(r: RouteView) -> bool {
    r.walked == r.steps.len()
}

/// A freshly set route along `path`.
pub open spec fn route_set(path: Seq<TilePos>) -> RouteView {
    RouteView { steps: path, walked: 0 }
}

impl Route {
    /// A route is well formed when the walked count stays within the tiles, and
    /// the number of tiles fits the counter.
    pub open spec fn wf(&self) -> bool {
        self@.walked <= self@.steps.len() && self@.steps.len() <= u32::MAX
    }

    /// The empty route.
    pub fn new() -> (r: Route)
        ensures
            r.wf(),
            r@ == route_set(Seq::empty()),
    {
        Route { i: 0, steps: Vec::new() }
    }

    /// Hand out the next tile of the route, if any is left.
    pub fn next(&mut self) -> (t: Option<TilePos>)
        requires
            old(self).wf(),
        ensures
            final(self).wf(),
            (t, final(self)@) == route_next(old(self)@),
    {
        if (self.i as usize) < self.steps.len() {
            let pos = self.steps[self.i as usize];
            self.i = self.i + 1;
            Some(pos)
        } else {
            None
        }
    }

    /// Replace the route by `path`, starting from its first tile.
    pub fn set(&mut self, path: Vec<TilePos>)
        requires
            path@.len() <= u32::MAX,
        ensures
            final(self).wf(),
            final(self)@ == route_set(path@),
    {
        self.i = 0;
        self.steps = path;
    }

    /// Forget the route.
    pub fn clear(&mut self)
        ensures
            final(self).wf(),
            final(self)@ == route_set(Seq::empty()),
    {
        self.i = 0;
        self.steps.clear();
    }

    /// Final tile of the route, if it has any.
    pub fn destination(&self) -> (d: Option<TilePos>)
        ensures
            d == route_destination(self@),
    {
        if self.steps.len() > 0 {
            Some(self.steps[self.steps.len() - 1])
        } else {
            None
        }
    }

    /// Whether every tile of the route has been handed out.
    pub fn is_finished(&self) -> (r: bool)
        requires
            self.wf(),
        ensures
            r == route_finished(self@),
    {
        self.i as usize == self.steps.len()
    }
}

/// Walking `k` tiles of a route, one `next` after the other.
pub open spec fn route_advance(r: RouteView, k: nat) -> RouteView
    decreases k,
{
    if k == 0 {
        r
    } else {
        route_next(route_advance(r, (k - 1) as nat)).1
    }
}

/// After a route is set to `path`, the `k`-th call of `next` hands out `path[k]`, the
/// route is finished exactly when all tiles have been handed out, and then `next`
/// hands out nothing more. Walking never changes the destination.
pub proof fn lemma_route_replays_path(path: Seq<TilePos>, k: nat)
    ensures
        k <= path.len() ==> route_advance(route_set(path), k) == (RouteView { steps: path, walked: k }),
        k < path.len() ==> route_next(route_advance(route_set(path), k)).0 == Some(path[k as int]),
        k <= path.len() ==> (route_finished(route_advance(route_set(path), k)) <==> k == path.len()),
        k <= path.len() ==> route_destination(route_advance(route_set(path), k)) == route_destination(route_set(path)),
        route_next(route_advance(route_set(path), path.len())).0 is None,
    decreases k,
{
    if k > 0 {
        lemma_route_replays_path(path, (k - 1) as nat);
    }
    lemma_route_advance_full(path, path.len());
}

proof fn lemma_route_advance_full(path: Seq<TilePos>, k: nat)
    requires
        k <= path.len(),
    ensures
        route_advance(route_set(path), k) == (RouteView { steps: path, walked: k }),
    decreases k,
{
    if k > 0 {
        lemma_route_advance_full(path, (k - 1) as nat);
    }
}

/// A cleared route has no destination, is finished, and hands out nothing.
pub proof fn lemma_cleared_route_is_finished()
    ensures
        route_destination(route_set(Seq::empty())) is None,
        route_finished(route_set(Seq::empty())),
        route_next(route_set(Seq::empty())).0 is None,
{
}

} // verus!
