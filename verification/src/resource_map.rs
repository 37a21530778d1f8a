//! Resources lying on the map, at most one per tile, kept in an `fnv` hash map.
use vstd::prelude::*;
use crate::geom::TilePos;
use crate::resource::ResourceTyp;
use fnv::FnvHashMap;

verus! {

#[verifier::external_type_specification]
#[verifier::external_body]
pub struct ExFnvHasher(fnv::FnvHasher);

#[verifier::external_type_specification]
#[verifier::external_body]
#[verifier::reject_recursive_types(H)]
pub struct ExBuildHasherDefault<H>(std::hash::BuildHasherDefault<H>);

/// The (tile, resource) entries held by an `FnvHashMap`.
pub uninterp spec fn fnv_entries(m: FnvHashMap<TilePos, ResourceTyp>) -> Map<TilePos, ResourceTyp>;

/// `FnvHashMap::default()`: an empty map.
#[verifier::external_body]
fn fnv_new() -> (r: FnvHashMap<TilePos, ResourceTyp>)
    ensures
        fnv_entries(r).dom().is_empty(),
{
    FnvHashMap::default()
}

/// `HashMap::get` (copied): the resource stored for `k`, if any.
#[verifier::external_body]
fn fnv_get(m: &FnvHashMap<TilePos, ResourceTyp>, k: TilePos) -> (r: Option<ResourceTyp>)
    ensures
        r == (if fnv_entries(*m).contains_key(k) { Some(fnv_entries(*m)[k]) } else { None }),
{
    m.get(&k).copied()
}

/// `HashMap::insert`: stores `v` for `k` and returns the value stored before, if any.
#[verifier::external_body]
fn fnv_insert(m: &mut FnvHashMap<TilePos, ResourceTyp>, k: TilePos, v: ResourceTyp) -> (r: Option<ResourceTyp>)
    ensures
        fnv_entries(*final(m)) == fnv_entries(*old(m)).insert(k, v),
        r == (if fnv_entries(*old(m)).contains_key(k) { Some(fnv_entries(*old(m))[k]) } else { None }),
{
    m.insert(k, v)
}

/// `HashMap::remove`: removes the entry for `k` and returns its value, if any.
#[verifier::external_body]
fn fnv_remove(m: &mut FnvHashMap<TilePos, ResourceTyp>, k: TilePos) -> (r: Option<ResourceTyp>)
    ensures
        fnv_entries(*final(m)) == fnv_entries(*old(m)).remove(k),
        r == (if fnv_entries(*old(m)).contains_key(k) { Some(fnv_entries(*old(m))[k]) } else { None }),
{
    m.remove(&k)
}

/// `HashMap::keys`, copied into a vector: every key exactly once, in the map's
/// iteration order (which the map does not promise).
#[verifier::external_body]
fn fnv_keys(m: &FnvHashMap<TilePos, ResourceTyp>) -> (r: Vec<TilePos>)
    ensures
        r@.no_duplicates(),
        r@.to_set() == fnv_entries(*m).dom(),
{
    m.keys().copied().collect()
}

/// Resources lying on the map, at most one per tile.
pub struct ResourceMap {
    at_tile: FnvHashMap<TilePos, ResourceTyp>,
}

impl View for ResourceMap {
    type V = Map<TilePos, ResourceTyp>;

    closed spec fn view(&self) -> Map<TilePos, ResourceTyp> {
        fnv_entries(self.at_tile)
    }
}

impl ResourceMap {
    /// A map with no resources.
    pub fn new() -> (m: ResourceMap)
        ensures
            m@ == Map::<TilePos, ResourceTyp>::empty(),
    {
        let m = ResourceMap { at_tile: fnv_new() };
        assert(m@ =~= Map::<TilePos, ResourceTyp>::empty());
        m
    }

    /// Resource lying at `tile`, if any.
    pub fn at(&self, tile: TilePos) -> (r: Option<ResourceTyp>)
        ensures
            r == (if self@.contains_key(tile) { Some(self@[tile]) } else { None }),
    {
        fnv_get(&self.at_tile, tile)
    }

    /// Put `v` at `tile`; returns what lay there before.
    pub fn insert(&mut self, tile: TilePos, v: ResourceTyp) -> (r: Option<ResourceTyp>)
        ensures
            final(self)@ == old(self)@.insert(tile, v),
            r == (if old(self)@.contains_key(tile) { Some(old(self)@[tile]) } else { None }),
    {
        fnv_insert(&mut self.at_tile, tile, v)
    }

    /// Pick up what lies at `tile`; returns it.
    pub fn remove(&mut self, tile: TilePos) -> (r: Option<ResourceTyp>)
        ensures
            final(self)@ == old(self)@.remove(tile),
            r == (if old(self)@.contains_key(tile) { Some(old(self)@[tile]) } else { None }),
    {
        fnv_remove(&mut self.at_tile, tile)
    }

    /// Every (tile, resource) entry exactly once, in an order the map does not promise.
    pub fn iter(&self) -> (v: Vec<(TilePos, ResourceTyp)>)
        ensures
            v@.len() == self@.dom().len(),
            forall|i: int| 0 <= i < v@.len() ==> self@.contains_key((#[trigger] v@[i]).0) && self@[v@[i].0] == v@[i].1,
            forall|t: TilePos| self@.contains_key(t) ==> exists|i: int| 0 <= i < v@.len() && (#[trigger] v@[i]).0 == t,
            forall|i: int, j: int| 0 <= i < v@.len() && 0 <= j < v@.len() && i != j ==> v@[i].0 != v@[j].0,
    {
        let keys = fnv_keys(&self.at_tile);
        proof { keys@.unique_seq_to_set(); }
        let mut v: Vec<(TilePos, ResourceTyp)> = Vec::new();
        let mut i: usize = 0;
        while i < keys.len()
            invariant
                keys@.no_duplicates(),
                keys@.to_set() == self@.dom(),
                i <= keys@.len(),
                v@.len() == i,
                forall|k: int| 0 <= k < i ==> (#[trigger] v@[k]).0 == keys@[k] && self@.contains_key(keys@[k]) && self@[keys@[k]] == v@[k].1,
            decreases keys.len() - i,
        {
            let k = keys[i];
            proof { assert(keys@.to_set().contains(keys@[i as int])); }
            match self.at(k) {
                Some(r) => v.push((k, r)),
                None => {
                    proof { assert(false); }
                },
            }
            i = i + 1;
        }
        proof {
            assert forall|t: TilePos| self@.contains_key(t) implies exists|i: int| 0 <= i < v@.len() && (#[trigger] v@[i]).0 == t by {
                assert(keys@.to_set().contains(t));
                let i = choose|i: int| 0 <= i < keys@.len() && keys@[i] == t;
                assert(v@[i].0 == t);
            }
        }
        v
    }
}

} // verus!
