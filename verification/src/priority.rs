//! Which resource slot of its home a worker serves first.
use vstd::prelude::*;
use crate::building::Building;
use crate::resource_slot::ResourceSlot;
use itertools::Itertools;

verus! {

/// Whether a slot is an input or an output of its building.
#[derive(Clone, Copy, PartialEq, Eq, Debug, Structural)]
pub enum InOut {
    In,
    Out,
}

/// How full a slot is, in percent, rounded down.
pub open spec fn slot_pct(s: ResourceSlot) -> int {
    (s.amount as int * 100) / (s.max as int)
}

/// Whether a worker can serve slot `s`: an input that is not full, or an output
/// that is not empty.
pub open spec fn slot_needs(io: InOut, s: ResourceSlot) -> bool {
    match io {
        InOut::In => s.amount < s.max,
        InOut::Out => s.amount > 0,
    }
}

/// How urgent slot `s` is (lower is more urgent): an input by how full it is, an
/// output by how empty it is.
pub open spec fn priority_key(io: InOut, s: ResourceSlot) -> int {
    match io {
        InOut::In => slot_pct(s),
        InOut::Out => 100 - slot_pct(s),
    }
}

/// The slots of `s` that a worker can serve, in order, each marked `io`.
pub open spec fn open_slots(s: Seq<ResourceSlot>, io: InOut) -> Seq<(InOut, ResourceSlot)>
    decreases s.len(),
{
    if s.len() == 0 {
        Seq::empty()
    } else if slot_needs(io, s.last()) {
        open_slots(s.drop_last(), io).push((io, s.last()))
    } else {
        open_slots(s.drop_last(), io)
    }
}

/// Each entry of `open_slots(s, io)` is marked `io` and is one of the slots of `s`.
pub proof fn lemma_open_slots_from(s: Seq<ResourceSlot>, io: InOut)
    ensures
        forall|k: int| 0 <= k < open_slots(s, io).len() ==> (#[trigger] open_slots(s, io)[k]).0 == io
            && s.contains(open_slots(s, io)[k].1),
    decreases s.len(),
{
    if s.len() > 0 {
        lemma_open_slots_from(s.drop_last(), io);
        assert forall|k: int| 0 <= k < open_slots(s, io).len() implies (#[trigger] open_slots(s, io)[k]).0 == io
            && s.contains(open_slots(s, io)[k].1) by {
            let rest = open_slots(s.drop_last(), io);
            if k < rest.len() {
                assert(open_slots(s, io)[k] == rest[k]);
                let j = choose|j: int| 0 <= j < s.drop_last().len() && s.drop_last()[j] == rest[k].1;
                assert(s[j] == rest[k].1);
            } else {
                assert(s[s.len() - 1] == s.last());
            }
        }
    }
}

/// The slots of building `b` that a worker can serve: open inputs, then open outputs.
pub open spec fn priority_candidates(b: Building) -> Seq<(InOut, ResourceSlot)> {
    open_slots(b.spec_inputs(), InOut::In) + open_slots(b.spec_outputs(), InOut::Out)
}

/// `order` lists `c[ps[0]], c[ps[1]], ...`, each position once, by increasing
/// urgency key, and equally urgent slots in their order in `c`.
pub open spec fn order_witness(c: Seq<(InOut, ResourceSlot)>, order: Seq<(InOut, ResourceSlot)>, ps: Seq<int>) -> bool {
    &&& ps.len() == order.len()
    &&& order.len() == c.len()
    &&& forall|k: int| 0 <= k < ps.len() ==> 0 <= #[trigger] ps[k] < c.len() && order[k] == c[ps[k]]
    &&& forall|k: int, l: int| 0 <= k < l < ps.len() ==> #[trigger] in_priority_order(order, ps, k, l)
}

/// Entry `k` of `order` (from position `ps[k]`) comes rightly before entry `l`:
/// it is more urgent, or as urgent and from an earlier position.
pub open spec fn in_priority_order(order: Seq<(InOut, ResourceSlot)>, ps: Seq<int>, k: int, l: int) -> bool {
    ||| priority_key(order[k].0, order[k].1) < priority_key(order[l].0, order[l].1)
    ||| priority_key(order[k].0, order[k].1) == priority_key(order[l].0, order[l].1) && ps[k] < ps[l]
}

/// `order` is `c` sorted by urgency, equally urgent slots keeping their order.
pub open spec fn is_priority_order(c: Seq<(InOut, ResourceSlot)>, order: Seq<(InOut, ResourceSlot)>) -> bool {
    exists|ps: Seq<int>| #[trigger] order_witness(c, order, ps)
}

/// `Itertools::sorted_by_key` on (key, position) pairs, keyed by the first element,
/// collected. The sort is stable (the crate's documentation says so), so equally
/// keyed pairs keep their order, which is that of their positions since each
/// position is the pair's index.
#[verifier::external_body]
fn sort_by_key_stable(v: Vec<(i32, usize)>) -> (w: Vec<(i32, usize)>)
    requires
        forall|i: int| 0 <= i < v@.len() ==> (#[trigger] v@[i]).1 == i,
    ensures
        w@.len() == v@.len(),
        forall|k: int| 0 <= k < w@.len() ==> (#[trigger] w@[k]).1 < v@.len() && w@[k] == v@[w@[k].1 as int],
        forall|k: int, l: int| 0 <= k < l < w@.len() ==> {
            ||| (#[trigger] w@[k]).0 < (#[trigger] w@[l]).0
            ||| w@[k].0 == w@[l].0 && w@[k].1 < w@[l].1
        },
{
    v.into_iter().sorted_by_key(|x| x.0).collect()
}

/// Append to `v` the slots of `s` that a worker can serve, each marked `io`.
fn push_open_slots(v: &mut Vec<(InOut, ResourceSlot)>, s: &Vec<ResourceSlot>, io: InOut)
    ensures
        final(v)@ == old(v)@ + open_slots(s@, io),
{
    let mut i: usize = 0;
    while i < s.len()
        invariant
            i <= s@.len(),
            v@ == old(v)@ + open_slots(s@.take(i as int), io),
        decreases s.len() - i,
    {
        let slot = s[i];
        let needs = match io {
            InOut::In => slot.amount < slot.max,
            InOut::Out => slot.amount > 0,
        };
        proof { assert(s@.take(i + 1).drop_last() =~= s@.take(i as int)); }
        if needs {
            v.push((io, slot));
        }
        proof { assert(old(v)@ + open_slots(s@.take(i + 1), io) =~= v@); }
        i = i + 1;
    }
    proof { assert(s@.take(s@.len() as int) =~= s@); }
}

/// The slots of `home` a worker can serve (inputs that are not full, outputs that
/// are not empty), most urgent first: inputs by how full they are, outputs by how
/// empty they are; equally urgent slots keep their order (inputs before outputs).
pub fn slots_by_priority(home: &Building) -> (order: Vec<(InOut, ResourceSlot)>)
    requires
        home.wf(),
    ensures
        is_priority_order(priority_candidates(*home), order@),
{
    let mut c: Vec<(InOut, ResourceSlot)> = Vec::new();
    let ins = home.inputs();
    let outs = home.outputs();
    push_open_slots(&mut c, &ins, InOut::In);
    push_open_slots(&mut c, &outs, InOut::Out);
    proof {
        assert(c@ =~= priority_candidates(*home));
        lemma_open_slots_from(home.spec_inputs(), InOut::In);
        lemma_open_slots_from(home.spec_outputs(), InOut::Out);
        let a = open_slots(home.spec_inputs(), InOut::In);
        let b = open_slots(home.spec_outputs(), InOut::Out);
        assert forall|k: int| 0 <= k < c@.len() implies (#[trigger] c@[k]).1.max > 0 && c@[k].1.amount <= c@[k].1.max by {
            if k < a.len() {
                assert(c@[k] == a[k]);
                let j = choose|j: int| 0 <= j < home.spec_inputs().len() && home.spec_inputs()[j] == a[k].1;
                assert(home.spec_inputs()[j].wf());
            } else {
                assert(c@[k] == b[k - a.len()]);
                let j = choose|j: int| 0 <= j < home.spec_outputs().len() && home.spec_outputs()[j] == b[k - a.len()].1;
                assert(home.spec_outputs()[j].wf());
            }
        }
    }
    let mut keyed: Vec<(i32, usize)> = Vec::new();
    let mut i: usize = 0;
    while i < c.len()
        invariant
            i <= c@.len(),
            keyed@.len() == i,
            forall|k: int| 0 <= k < i ==> (#[trigger] keyed@[k]).1 == k && keyed@[k].0 == priority_key(c@[k].0, c@[k].1),
            forall|k: int| 0 <= k < c@.len() ==> (#[trigger] c@[k]).1.max > 0 && c@[k].1.amount <= c@[k].1.max,
        decreases c.len() - i,
    {
        let (io, slot) = c[i];
        let pct = slot.fullness_pct();
        assert(pct <= 100) by (nonlinear_arith)
            requires
                pct == (slot.amount as int * 100) / (slot.max as int),
                slot.amount <= slot.max,
                slot.max > 0,
        ;
        let key: i32 = match io {
            InOut::In => pct as i32,
            InOut::Out => 100 - pct as i32,
        };
        keyed.push((key, i));
        i = i + 1;
    }
    let sorted = sort_by_key_stable(keyed);
    let mut order: Vec<(InOut, ResourceSlot)> = Vec::new();
    let ghost mut ps: Seq<int> = Seq::empty();
    let mut k: usize = 0;
    while k < sorted.len()
        invariant
            k <= sorted@.len(),
            sorted@.len() == c@.len(),
            keyed@.len() == c@.len(),
            forall|j: int| 0 <= j < keyed@.len() ==> (#[trigger] keyed@[j]).1 == j && keyed@[j].0 == priority_key(c@[j].0, c@[j].1),
            forall|j: int| 0 <= j < sorted@.len() ==> (#[trigger] sorted@[j]).1 < keyed@.len() && sorted@[j] == keyed@[sorted@[j].1 as int],
            order@.len() == k,
            ps.len() == k,
            forall|j: int| 0 <= j < k ==> ps[j] == (#[trigger] sorted@[j]).1 && order@[j] == c@[ps[j]],
        decreases sorted.len() - k,
    {
        let pos = sorted[k].1;
        order.push(c[pos]);
        proof { ps = ps.push(pos as int); }
        k = k + 1;
    }
    proof {
        assert forall|a: int, b: int| 0 <= a < b < ps.len() implies #[trigger] in_priority_order(order@, ps, a, b) by {
            assert(sorted@[a] == keyed@[sorted@[a].1 as int]);
            assert(sorted@[b] == keyed@[sorted@[b].1 as int]);
        }
        assert forall|j: int| 0 <= j < ps.len() implies 0 <= #[trigger] ps[j] < c@.len() && order@[j] == c@[ps[j]] by {
            assert(ps[j] == sorted@[j].1);
        }
        assert(order_witness(priority_candidates(*home), order@, ps));
    }
    order
}

} // verus!
