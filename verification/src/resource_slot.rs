//! A building's input or output store for one kind of resource.
use vstd::prelude::*;
use crate::resource::ResourceTyp;

verus! {

/// A factory input or output slot. Holds up to `max` resources of kind `typ`.
/// E.g. `Leaf: 7 out of 100`.
#[derive(Clone, Copy, PartialEq, Eq, Debug, Structural)]
pub struct ResourceSlot {
    /// Kind of resource stored.
    pub typ: ResourceTyp,
    /// Current amount stored. Always at most `max`.
    pub amount: u16,
    /// Maximum amount stored.
    pub max: u16,
}

/// Result and new slot of taking one item out of `s`.
pub open spec fn slot_take_one(s: ResourceSlot) -> (Option<ResourceTyp>, ResourceSlot) {
    if s.amount > 0 {
        (Some(s.typ), ResourceSlot { amount: (s.amount - 1) as u16, ..s })
    } else {
        (None, s)
    }
}

/// Result and new slot of taking `n` items out of `s`.
pub open spec fn slot_take(s: ResourceSlot, n: u16) -> (Option<()>, ResourceSlot) {
    if s.amount >= n {
        (Some(()), ResourceSlot { amount: (s.amount - n) as u16, ..s })
    } else {
        (None, s)
    }
}

/// Result and new slot of adding one item to `s`.
pub open spec fn slot_add_one(s: ResourceSlot) -> (Option<()>, ResourceSlot) {
    if s.amount < s.max {
        (Some(()), ResourceSlot { amount: (s.amount + 1) as u16, ..s })
    } else {
        (None, s)
    }
}

impl ResourceSlot {
    /// A slot is well formed when its capacity is positive and its amount does not exceed it.
    pub open spec fn wf(self) -> bool {
        0 < self.max && self.amount <= self.max
    }

    /// An empty slot for resource `typ` with capacity `max`.
    pub fn new(typ: ResourceTyp, max: u16) -> (s: ResourceSlot)
        requires
            max > 0,
        ensures
            s.typ == typ,
            s.max == max,
            s.amount == 0,
            s.wf(),
    {
        ResourceSlot { typ, max, amount: 0 }
    }

    /// Whether the slot holds as much as it can.
    pub fn is_full(&self) -> (r: bool)
        ensures
            r == (self.amount >= self.max),
    {
        self.amount >= self.max
    }

    /// How full the slot is, in percent, rounded down.
    pub fn fullness_pct(&self) -> (r: u32)
        requires
            self.max > 0,
        ensures
            r == (self.amount as int * 100) / (self.max as int),
    {
        (self.amount as u32 * 100) / (self.max as u32)
    }

    /// Whether the slot holds nothing.
    pub fn is_empty(&self) -> (r: bool)
        ensures
            r == (self.amount == 0),
    {
        self.amount == 0
    }

    /// Take one resource: returns its kind when the slot was not empty, `None` otherwise.
    pub fn try_take_one(&mut self) -> (r: Option<ResourceTyp>)
        ensures
            (r, *final(self)) == slot_take_one(*old(self)),
    {
        if self.amount > 0 {
            self.amount = self.amount - 1;
            Some(self.typ)
        } else {
            None
        }
    }

    /// Whether the slot holds at least `n` items, so that `take(n)` succeeds.
    pub fn has_at_least(&self, n: u16) -> (r: bool)
        ensures
            r == (self.amount >= n),
    {
        self.amount >= n
    }

    /// Take `n` items: `Some(())` when the slot held at least `n`, `None` (and no change) otherwise.
    pub fn take(&mut self, n: u16) -> (r: Option<()>)
        ensures
            (r, *final(self)) == slot_take(*old(self), n),
    {
        if self.amount >= n {
            self.amount = self.amount - n;
            Some(())
        } else {
            None
        }
    }

    /// Whether `n` more items fit into the slot.
    pub fn can_accept(&self, n: u16) -> (r: bool)
        ensures
            r == (self.amount + n <= self.max),
    {
        self.amount as u32 + n as u32 <= self.max as u32
    }

    /// Add one item: `Some(())` when there was room, `None` (and no change) otherwise.
    pub fn add_one(&mut self) -> (r: Option<()>)
        ensures
            (r, *final(self)) == slot_add_one(*old(self)),
    {
        if self.amount < self.max {
            self.amount = self.amount + 1;
            Some(())
        } else {
            None
        }
    }

    /// Current amount stored.
    pub fn amount(&self) -> (r: u16)
        ensures
            r == self.amount,
    {
        self.amount
    }

    /// The stored amount, for reading and writing in place.
    pub fn get_amount(&mut self) -> (r: &mut u16)
        ensures
            *r == old(self).amount,
            *final(self) == (ResourceSlot { amount: *final(r), ..*old(self) }),
    {
        &mut self.amount
    }
}

/// Taking, taking `n` and adding keep a slot well formed.
pub proof fn lemma_slot_ops_keep_wf(s: ResourceSlot, n: u16)
    requires
        s.wf(),
    ensures
        slot_take_one(s).1.wf(),
        slot_take(s, n).1.wf(),
        slot_add_one(s).1.wf(),
{
}

/// Adding one item and then taking one gives back the kind of the slot and the slot as it was.
pub proof fn lemma_add_then_take_restores(s: ResourceSlot)
    requires
        slot_add_one(s).0 is Some,
    ensures
        slot_take_one(slot_add_one(s).1) == (Some(s.typ), s),
{
}

/// Taking one item and then adding one succeeds and gives back the slot as it was.
pub proof fn lemma_take_then_add_restores(s: ResourceSlot)
    requires
        s.wf(),
        slot_take_one(s).0 is Some,
    ensures
        slot_add_one(slot_take_one(s).1) == (Some(()), s),
{
}

/// Taking `n` succeeds exactly when the slot has at least `n` items; taking `a` and then `b`
/// items is the same as taking `a + b` items at once.
pub proof fn lemma_take_composes(s: ResourceSlot, a: u16, b: u16)
    requires
        a + b <= u16::MAX,
    ensures
        (slot_take(s, a).0 is Some) == (s.amount >= a),
        slot_take(s, a).0 is Some && slot_take(slot_take(s, a).1, b).0 is Some
            ==> slot_take(slot_take(s, a).1, b).1 == slot_take(s, (a + b) as u16).1,
        (slot_take(s, (a + b) as u16).0 is Some) ==> (slot_take(s, a).0 is Some && slot_take(slot_take(s, a).1, b).0 is Some),
{
}

/// A well formed slot is full exactly when it cannot accept one more item, and then adding fails.
pub proof fn lemma_full_iff_no_room(s: ResourceSlot)
    requires
        s.wf(),
    ensures
        (s.amount >= s.max) == !(s.amount + 1 <= s.max),
        (s.amount >= s.max) == (slot_add_one(s).0 is None),
{
}

/// One of the operations that change a slot's amount.
#[derive(Clone, Copy, Debug)]
pub enum SlotOp {
    /// `add_one`.
    AddOne,
    /// `try_take_one`.
    TakeOne,
    /// `take(n)`.
    Take(u16),
}

/// The slot after operation `op` on `s`.
pub open spec fn slot_apply(s: ResourceSlot, op: SlotOp) -> ResourceSlot {
    match op {
        SlotOp::AddOne => slot_add_one(s).1,
        SlotOp::TakeOne => slot_take_one(s).1,
        SlotOp::Take(n) => slot_take(s, n).1,
    }
}

/// The slot after the operations `ops` on `s`, in order.
pub open spec fn slot_apply_all(s: ResourceSlot, ops: Seq<SlotOp>) -> ResourceSlot
    decreases ops.len(),
{
    if ops.len() == 0 {
        s
    } else {
        slot_apply(slot_apply_all(s, ops.drop_last()), ops.last())
    }
}

/// However a fresh slot is filled and emptied, it keeps its kind and capacity and
/// never holds more than its capacity.
pub proof fn lemma_slot_ops_sequence(typ: ResourceTyp, max: u16, ops: Seq<SlotOp>)
    requires
        max > 0,
    ensures
        ({
            let s = slot_apply_all(ResourceSlot { typ, amount: 0, max }, ops);
            &&& s.wf()
            &&& s.typ == typ
            &&& s.max == max
        }),
    decreases ops.len(),
{
    if ops.len() > 0 {
        lemma_slot_ops_sequence(typ, max, ops.drop_last());
        let s = slot_apply_all(ResourceSlot { typ, amount: 0, max }, ops.drop_last());
        match ops.last() {
            SlotOp::Take(n) => lemma_slot_ops_keep_wf(s, n),
            _ => lemma_slot_ops_keep_wf(s, 0),
        }
    }
}

} // verus!
