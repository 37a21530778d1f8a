//! Where a worker finds what it needs: the nearest resource lying on the map, and
//! the nearest building of its team that accepts or provides a resource.
use vstd::prelude::*;
use crate::building::{Building, find_slot};
use crate::entity::{EntityType, Id};
use crate::geom::{TilePos, distance_squared, spec_distance_squared};
use crate::resource::ResourceTyp;
use crate::team::Team;
use crate::world::G;

verus! {

/// Whether `b` has room to receive one `res`.
pub open spec fn accepts(b: Building, res: ResourceTyp) -> bool {
    match find_slot(b.spec_inputs(), res) {
        Some(i) => b.spec_inputs()[i].amount < b.spec_inputs()[i].max,
        None => false,
    }
}

/// Whether one `res` can be collected from `b`.
pub open spec fn provides(b: Building, res: ResourceTyp) -> bool {
    match find_slot(b.spec_outputs(), res) {
        Some(i) => b.spec_outputs()[i].amount > 0,
        None => false,
    }
}

/// Whether slot content `b` is a building of `team` that provides (`provider`) or
/// accepts (otherwise) `res`.
pub open spec fn serves(b: Option<Building>, team: Team, res: ResourceTyp, provider: bool) -> bool {
    &&& b is Some
    &&& b.unwrap().base.team == team
    &&& if provider { provides(b.unwrap(), res) } else { accepts(b.unwrap(), res) }
}

/// `r` is the building nearest to `from` among those of `team` that provide or
/// accept `res` (the first one in storage order among equally near ones), or
/// `None` when there is none.
pub open spec fn is_nearest_serving(g: G, from: TilePos, team: Team, res: ResourceTyp, provider: bool, r: Option<Id>) -> bool {
    match r {
        None => forall|j: int| 0 <= j < g.buildings@.len() ==> !serves(#[trigger] g.buildings@[j], team, res, provider),
        Some(id) => {
            &&& id.type_id == EntityType::Building
            &&& 0 <= id.index < g.buildings@.len()
            &&& serves(g.buildings@[id.index as int], team, res, provider)
            &&& forall|j: int| 0 <= j < g.buildings@.len() && serves(#[trigger] g.buildings@[j], team, res, provider)
                ==> spec_distance_squared(g.buildings@[id.index as int].unwrap().base.tile, from)
                    <= spec_distance_squared(g.buildings@[j].unwrap().base.tile, from)
            &&& forall|j: int| 0 <= j < id.index && serves(#[trigger] g.buildings@[j], team, res, provider)
                ==> spec_distance_squared(g.buildings@[id.index as int].unwrap().base.tile, from)
                    < spec_distance_squared(g.buildings@[j].unwrap().base.tile, from)
        },
    }
}

/// The building nearest to `from` among those of `team` that provide or accept
/// `res` (see `is_nearest_serving`, which pins it down).
pub open spec fn nearest_serving(g: G, from: TilePos, team: Team, res: ResourceTyp, provider: bool) -> Option<Id> {
    choose|r: Option<Id>| is_nearest_serving(g, from, team, res, provider, r)
}

/// At most one answer meets `is_nearest_serving`.
pub proof fn lemma_nearest_serving_unique(g: G, from: TilePos, team: Team, res: ResourceTyp, provider: bool, r1: Option<Id>, r2: Option<Id>)
    requires
        is_nearest_serving(g, from, team, res, provider, r1),
        is_nearest_serving(g, from, team, res, provider, r2),
    ensures
        r1 == r2,
{
    match (r1, r2) {
        (Some(a), Some(b)) => {
            let i = a.index as int;
            let j = b.index as int;
            assert(serves(g.buildings@[i], team, res, provider));
            assert(serves(g.buildings@[j], team, res, provider));
            if i < j {
                assert(false);
            } else if j < i {
                assert(false);
            }
        },
        (Some(a), None) => {
            assert(serves(g.buildings@[a.index as int], team, res, provider));
        },
        (None, Some(b)) => {
            assert(serves(g.buildings@[b.index as int], team, res, provider));
        },
        (None, None) => {},
    }
}

/// `r` is a tile holding `typ` that is nearest to `from` among all tiles holding
/// `typ`, or `None` when no tile holds `typ`.
pub open spec fn is_nearest_resource(g: G, from: TilePos, typ: ResourceTyp, r: Option<TilePos>) -> bool {
    match r {
        None => forall|t: TilePos| g.resources@.contains_key(t) ==> #[trigger] g.resources@[t] != typ,
        Some(t) => {
            &&& g.resources@.contains_key(t)
            &&& g.resources@[t] == typ
            &&& forall|u: TilePos| g.resources@.contains_key(u) && #[trigger] g.resources@[u] == typ
                ==> spec_distance_squared(t, from) <= spec_distance_squared(u, from)
        },
    }
}

impl G {
    /// The building nearest to `from` among those of `team` that provide
    /// (`provider`) or accept (otherwise) one `res`; the first one in storage order
    /// among equally near ones.
    fn find_near_building(&self, from: TilePos, team: Team, res: ResourceTyp, provider: bool) -> (r: Option<Id>)
        requires
            self.wf(),
        ensures
            is_nearest_serving(*self, from, team, res, provider, r),
    {
        let mut best: Option<(usize, i64)> = None;
        let mut j: usize = 0;
        while j < self.buildings.len()
            invariant
                self.wf(),
                j <= self.buildings@.len(),
                match best {
                    None => forall|k: int| 0 <= k < j ==> !serves(#[trigger] self.buildings@[k], team, res, provider),
                    Some((bi, d)) => {
                        &&& bi < j
                        &&& serves(self.buildings@[bi as int], team, res, provider)
                        &&& d == spec_distance_squared(self.buildings@[bi as int].unwrap().base.tile, from)
                        &&& forall|k: int| 0 <= k < j && serves(#[trigger] self.buildings@[k], team, res, provider)
                            ==> d <= spec_distance_squared(self.buildings@[k].unwrap().base.tile, from)
                        &&& forall|k: int| 0 <= k < bi && serves(#[trigger] self.buildings@[k], team, res, provider)
                            ==> d < spec_distance_squared(self.buildings@[k].unwrap().base.tile, from)
                    },
                },
            decreases self.buildings.len() - j,
        {
            match &self.buildings[j] {
                Some(b) => {
                    proof { assert(self.buildings@[j as int].unwrap().wf()); }
                    let ok = if b.base.team.0 == team.0 {
                        if provider { b.can_provide(res) } else { b.can_accept(res) }
                    } else {
                        false
                    };
                    if ok {
                        let d = distance_squared(b.base.tile, from);
                        match best {
                            None => {
                                best = Some((j, d));
                            },
                            Some((_, bd)) => {
                                if d < bd {
                                    best = Some((j, d));
                                }
                            },
                        }
                    }
                },
                None => {},
            }
            j = j + 1;
        }
        match best {
            None => None,
            Some((bi, _)) => {
                proof { assert(self.buildings@[bi as int] is Some); }
                Some(Id { index: bi as u32, type_id: EntityType::Building })
            },
        }
    }

    /// The building of `team` nearest to `from` that has room for one `res`.
    pub fn find_near_receptor(&self, from: TilePos, team: Team, res: ResourceTyp) -> (r: Option<Id>)
        requires
            self.wf(),
        ensures
            is_nearest_serving(*self, from, team, res, false, r),
            r == nearest_serving(*self, from, team, res, false),
    {
        let r = self.find_near_building(from, team, res, false);
        proof { lemma_nearest_serving_unique(*self, from, team, res, false, r, nearest_serving(*self, from, team, res, false)); }
        r
    }

    /// The building of `team` nearest to `from` that has one `res` to collect.
    pub fn find_near_provider(&self, from: TilePos, team: Team, res: ResourceTyp) -> (r: Option<Id>)
        requires
            self.wf(),
        ensures
            is_nearest_serving(*self, from, team, res, true, r),
            r == nearest_serving(*self, from, team, res, true),
    {
        let r = self.find_near_building(from, team, res, true);
        proof { lemma_nearest_serving_unique(*self, from, team, res, true, r, nearest_serving(*self, from, team, res, true)); }
        r
    }

    /// A tile nearest to `from` among those where a `typ` lies. Among equally near
    /// tiles, the first in the order the resource map hands them out.
    pub fn find_near_resource(&self, from: TilePos, typ: ResourceTyp) -> (r: Option<TilePos>)
        ensures
            is_nearest_resource(*self, from, typ, r),
    {
        let entries = self.resources.iter();
        let mut best: Option<(TilePos, i64)> = None;
        let mut i: usize = 0;
        while i < entries.len()
            invariant
                i <= entries@.len(),
                forall|k: int| 0 <= k < entries@.len() ==> self.resources@.contains_key((#[trigger] entries@[k]).0)
                    && self.resources@[entries@[k].0] == entries@[k].1,
                forall|t: TilePos| self.resources@.contains_key(t) ==> exists|k: int| 0 <= k < entries@.len() && (#[trigger] entries@[k]).0 == t,
                match best {
                    None => forall|k: int| 0 <= k < i ==> (#[trigger] entries@[k]).1 != typ,
                    Some((t, d)) => {
                        &&& self.resources@.contains_key(t)
                        &&& self.resources@[t] == typ
                        &&& d == spec_distance_squared(t, from)
                        &&& forall|k: int| 0 <= k < i && (#[trigger] entries@[k]).1 == typ ==> d <= spec_distance_squared(entries@[k].0, from)
                    },
                },
            decreases entries.len() - i,
        {
            let (t, res) = entries[i];
            if res == typ {
                let d = distance_squared(t, from);
                match best {
                    None => {
                        best = Some((t, d));
                    },
                    Some((_, bd)) => {
                        if d < bd {
                            best = Some((t, d));
                        }
                    },
                }
            }
            i = i + 1;
        }
        proof {
            match best {
                None => {
                    assert forall|t: TilePos| self.resources@.contains_key(t) implies #[trigger] self.resources@[t] != typ by {
                        let k = choose|k: int| 0 <= k < entries@.len() && (#[trigger] entries@[k]).0 == t;
                        assert(entries@[k].1 != typ);
                    }
                },
                Some((t, d)) => {
                    assert forall|u: TilePos| self.resources@.contains_key(u) && #[trigger] self.resources@[u] == typ
                        implies spec_distance_squared(t, from) <= spec_distance_squared(u, from) by {
                        let k = choose|k: int| 0 <= k < entries@.len() && (#[trigger] entries@[k]).0 == u;
                        assert(entries@[k].1 == typ);
                    }
                },
            }
        }
        match best {
            None => None,
            Some((t, _)) => Some(t),
        }
    }
}

} // verus!
