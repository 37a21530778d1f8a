//! Storage of a building's resource slots in `smallvec::SmallVec`s (inline for up to
//! three inputs and two outputs). Only the calls into `smallvec` live here.
use vstd::prelude::*;
use crate::resource_slot::ResourceSlot;
use smallvec::SmallVec;

verus! {

/// Input slots of a building: a `SmallVec` with inline room for three slots.
#[verifier::external_body]
pub struct InputSlots {
    v: SmallVec<[ResourceSlot; 3]>,
}

/// Output slots of a building: a `SmallVec` with inline room for two slots.
#[verifier::external_body]
pub struct OutputSlots {
    v: SmallVec<[ResourceSlot; 2]>,
}

/// The slots held, in order, by a building's input slots.
pub uninterp spec fn input_slots(v: InputSlots) -> Seq<ResourceSlot>;

/// The slots held, in order, by a building's output slots.
pub uninterp spec fn output_slots(v: OutputSlots) -> Seq<ResourceSlot>;

/// `SmallVec::from_vec`: the small vector holds the vector's items in the same order.
#[verifier::external_body]
pub(crate) fn inputs_from_vec(v: Vec<ResourceSlot>) -> (r: InputSlots)
    ensures
        input_slots(r) == v@,
{
    InputSlots { v: SmallVec::from_vec(v) }
}

/// `SmallVec::len`: the number of items held.
#[verifier::external_body]
pub(crate) fn inputs_len(v: &InputSlots) -> (n: usize)
    ensures
        n == input_slots(*v).len(),
{
    v.v.len()
}

/// Indexing a `SmallVec` (through its `Index` impl): a copy of item `i`.
#[verifier::external_body]
pub(crate) fn inputs_get(v: &InputSlots, i: usize) -> (s: ResourceSlot)
    requires
        i < input_slots(*v).len(),
    ensures
        s == input_slots(*v)[i as int],
{
    v.v[i]
}

/// Assigning through `IndexMut` of a `SmallVec`: item `i` is replaced by `s`, all others stay.
#[verifier::external_body]
pub(crate) fn inputs_set(v: &mut InputSlots, i: usize, s: ResourceSlot)
    requires
        i < input_slots(*old(v)).len(),
    ensures
        input_slots(*final(v)) == input_slots(*old(v)).update(i as int, s),
{
    v.v[i] = s;
}

/// `SmallVec::from_vec`: the small vector holds the vector's items in the same order.
#[verifier::external_body]
pub(crate) fn outputs_from_vec(v: Vec<ResourceSlot>) -> (r: OutputSlots)
    ensures
        output_slots(r) == v@,
{
    OutputSlots { v: SmallVec::from_vec(v) }
}

/// `SmallVec::len`: the number of items held.
#[verifier::external_body]
pub(crate) fn outputs_len(v: &OutputSlots) -> (n: usize)
    ensures
        n == output_slots(*v).len(),
{
    v.v.len()
}

/// Indexing a `SmallVec` (through its `Index` impl): a copy of item `i`.
#[verifier::external_body]
pub(crate) fn outputs_get(v: &OutputSlots, i: usize) -> (s: ResourceSlot)
    requires
        i < output_slots(*v).len(),
    ensures
        s == output_slots(*v)[i as int],
{
    v.v[i]
}

/// Assigning through `IndexMut` of a `SmallVec`: item `i` is replaced by `s`, all others stay.
#[verifier::external_body]
pub(crate) fn outputs_set(v: &mut OutputSlots, i: usize, s: ResourceSlot)
    requires
        i < output_slots(*old(v)).len(),
    ensures
        output_slots(*final(v)) == output_slots(*old(v)).update(i as int, s),
{
    v.v[i] = s;
}

} // verus!
