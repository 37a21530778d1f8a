//! Lists of entity identifiers without repetition (the workers of a building, the
//! selection).
use vstd::prelude::*;
use crate::entity::Id;

verus! {

/// The test "is not `id`".
pub open spec fn ne_id(id: Id) -> spec_fn(Id) -> bool {
    |x: Id| x != id
}

/// `s` without `id`.
pub open spec fn without_id(s: Seq<Id>, id: Id) -> Seq<Id> {
    s.filter(ne_id(id))
}

/// `s` with `id` added at the end, unless it is already there.
pub open spec fn with_id(s: Seq<Id>, id: Id) -> Seq<Id> {
    if s.contains(id) {
        s
    } else {
        s.push(id)
    }
}

/// Remove `id` from `v`, keeping the order of the others.
pub fn remove_id(v: &mut Vec<Id>, id: Id)
    ensures
        final(v)@ == without_id(old(v)@, id),
{
    let ghost s = v@;
    let mut kept: Vec<Id> = Vec::new();
    let mut i: usize = 0;
    while i < v.len()
        invariant
            s == v@,
            i <= s.len(),
            kept@ == s.take(i as int).filter(ne_id(id)),
        decreases s.len() - i,
    {
        let x = v[i];
        proof {
            reveal_with_fuel(Seq::<_>::filter, 1);
            assert(s.take(i + 1).drop_last() =~= s.take(i as int));
        }
        if !x.same(&id) {
            kept.push(x);
        }
        i = i + 1;
    }
    proof { assert(s.take(s.len() as int) =~= s); }
    *v = kept;
}

/// Whether `v` holds `id`.
pub fn contains_id(v: &Vec<Id>, id: Id) -> (r: bool)
    ensures
        r == v@.contains(id),
{
    let mut i: usize = 0;
    while i < v.len()
        invariant
            i <= v@.len(),
            forall|j: int| 0 <= j < i ==> v@[j] != id,
        decreases v.len() - i,
    {
        if v[i].same(&id) {
            return true;
        }
        i = i + 1;
    }
    false
}

/// Add `id` at the end of `v` unless it is already there.
pub fn add_id(v: &mut Vec<Id>, id: Id)
    ensures
        final(v)@ == with_id(old(v)@, id),
{
    if !contains_id(v, id) {
        v.push(id);
    }
}

/// Facts about removing: the result holds exactly the other elements, keeps their
/// distinctness, and is no longer.
pub proof fn lemma_without_id(s: Seq<Id>, id: Id)
    ensures
        forall|x: Id| without_id(s, id).contains(x) <==> (s.contains(x) && x != id),
        (forall|i: int, j: int| 0 <= i < s.len() && 0 <= j < s.len() && i != j ==> s[i] != s[j]) ==> (forall|
            i: int,
            j: int,
        |
            0 <= i < without_id(s, id).len() && 0 <= j < without_id(s, id).len() && i != j ==> without_id(s, id)[i]
                != without_id(s, id)[j]),
        without_id(s, id).len() <= s.len(),
{
    let p = ne_id(id);
    s.lemma_filter_len(p);
    assert forall|x: Id| without_id(s, id).contains(x) <==> (s.contains(x) && x != id) by {
        if without_id(s, id).contains(x) {
            s.lemma_filter_contains_rev(p, x);
        }
        if s.contains(x) && x != id {
            let k = choose|k: int| 0 <= k < s.len() && s[k] == x;
            s.lemma_filter_contains(p, k);
        }
    }
    if forall|i: int, j: int| 0 <= i < s.len() && 0 <= j < s.len() && i != j ==> s[i] != s[j] {
        lemma_filter_no_duplicates(s, p);
    }
}

/// Filtering a sequence without repetition gives a sequence without repetition.
pub proof fn lemma_filter_no_duplicates(s: Seq<Id>, p: spec_fn(Id) -> bool)
    requires
        s.no_duplicates(),
    ensures
        s.filter(p).no_duplicates(),
    decreases s.len(),
{
    if s.len() > 0 {
        let init = s.drop_last();
        let x = s.last();
        assert(init.push(x) =~= s);
        assert(init.no_duplicates());
        lemma_filter_no_duplicates(init, p);
        init.lemma_filter_push(x, p);
        if p(x) {
            if init.filter(p).contains(x) {
                init.lemma_filter_contains_rev(p, x);
                let k = choose|k: int| 0 <= k < init.len() && init[k] == x;
                assert(s[k] == s[s.len() - 1]);
            }
            let f = init.filter(p);
            assert forall|i: int, j: int| 0 <= i < f.push(x).len() && 0 <= j < f.push(x).len() && i != j implies f.push(x)[i] != f.push(x)[j] by {
                if i < f.len() && j < f.len() {
                } else if i < f.len() {
                    assert(f[i] != x) by {
                        if f[i] == x {
                            assert(f.contains(x));
                        }
                    }
                } else if j < f.len() {
                    assert(f[j] != x) by {
                        if f[j] == x {
                            assert(f.contains(x));
                        }
                    }
                }
            }
        }
    }
}

/// Facts about adding: the result holds the old elements and `id`, and keeps distinctness.
pub proof fn lemma_with_id(s: Seq<Id>, id: Id)
    ensures
        forall|x: Id| with_id(s, id).contains(x) <==> (s.contains(x) || x == id),
        (forall|i: int, j: int| 0 <= i < s.len() && 0 <= j < s.len() && i != j ==> s[i] != s[j]) ==> (forall|
            i: int,
            j: int,
        | 0 <= i < with_id(s, id).len() && 0 <= j < with_id(s, id).len() && i != j ==> with_id(s, id)[i] != with_id(s, id)[j]),
{
    if !s.contains(id) {
        assert forall|x: Id| with_id(s, id).contains(x) <==> (s.contains(x) || x == id) by {
            if with_id(s, id).contains(x) {
                let k = choose|k: int| 0 <= k < s.len() + 1 && s.push(id)[k] == x;
                if k < s.len() {
                    assert(s[k] == x);
                }
            }
            if s.contains(x) {
                let k = choose|k: int| 0 <= k < s.len() && s[k] == x;
                assert(s.push(id)[k] == x);
            }
            if x == id {
                assert(s.push(id)[s.len() as int] == x);
            }
        }
    }
}

} // verus!
