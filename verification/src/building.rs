//! Buildings: factories, depots and nests with resource input and output slots.
use vstd::prelude::*;
use crate::building_typ::{BuildingTyp, lemma_slot_tables_well_formed, spec_building_health, spec_input_resources, spec_output_resources, spec_size};
use crate::entity::{Base, Id, spec_sleep_more};
use crate::geom::{TileBounds, TilePos, spec_contains};
use crate::resource::ResourceTyp;
use crate::resource_slot::{ResourceSlot, slot_add_one, slot_take, slot_take_one};
use crate::slots::{InputSlots, OutputSlots, input_slots, inputs_from_vec, inputs_get, inputs_len, inputs_set, output_slots, outputs_from_vec, outputs_get, outputs_len, outputs_set};
use crate::team::Team;

verus! {

/// Index of the slot for resource `res` in `s`, if there is one.
pub open spec fn find_slot(s: Seq<ResourceSlot>, res: ResourceTyp) -> Option<int> {
    if exists|i: int| 0 <= i < s.len() && s[i].typ == res {
        Some(choose|i: int| 0 <= i < s.len() && s[i].typ == res)
    } else {
        None
    }
}

/// No two slots in `s` hold the same kind of resource.
pub open spec fn slots_distinct(s: Seq<ResourceSlot>) -> bool {
    forall|i: int, j: int| 0 <= i < s.len() && 0 <= j < s.len() && i != j ==> s[i].typ != s[j].typ
}

/// Every slot in `s` is well formed.
pub open spec fn slots_wf(s: Seq<ResourceSlot>) -> bool {
    forall|i: int| 0 <= i < s.len() ==> (#[trigger] s[i]).wf()
}

/// Result and new slots after adding one `res` to the slot for `res` in `s`.
pub open spec fn slots_add_one(s: Seq<ResourceSlot>, res: ResourceTyp) -> (Option<()>, Seq<ResourceSlot>) {
    match find_slot(s, res) {
        Some(i) => (slot_add_one(s[i]).0, s.update(i, slot_add_one(s[i]).1)),
        None => (None, s),
    }
}

/// Result and new slots after taking one `res` out of the slot for `res` in `s`.
pub open spec fn slots_take_one(s: Seq<ResourceSlot>, res: ResourceTyp) -> (Option<ResourceTyp>, Seq<ResourceSlot>) {
    match find_slot(s, res) {
        Some(i) => (slot_take_one(s[i]).0, s.update(i, slot_take_one(s[i]).1)),
        None => (None, s),
    }
}

/// Empty slots for a table of (resource kind, capacity).
pub open spec fn fresh_slots(t: Seq<(ResourceTyp, u16)>) -> Seq<ResourceSlot> {
    t.map_values(|e: (ResourceTyp, u16)| ResourceSlot { typ: e.0, amount: 0, max: e.1 })
}

/// Resource kind and capacity of each slot in `s`.
pub open spec fn slot_kinds(s: Seq<ResourceSlot>) -> Seq<(ResourceTyp, u16)> {
    s.map_values(|x: ResourceSlot| (x.typ, x.max))
}

/// Inputs, outputs and entity state of building `b` after a factory step: when at
/// least `from_n` of `from` are in stock and the output slot for `to` is not full,
/// `from_n` of `from` are consumed, one `to` is produced and the building sleeps
/// `ticks` more ticks; otherwise nothing changes.
pub open spec fn factory_step(b: Building, from_n: u16, from: ResourceTyp, to: ResourceTyp, ticks: u8) -> (Seq<ResourceSlot>, Seq<ResourceSlot>, Base) {
    let i = find_slot(b.spec_inputs(), from).unwrap();
    let o = find_slot(b.spec_outputs(), to).unwrap();
    let ins = b.spec_inputs();
    let outs = b.spec_outputs();
    if ins[i].amount >= from_n && outs[o].amount < outs[o].max {
        (ins.update(i, slot_take(ins[i], from_n).1), outs.update(o, slot_add_one(outs[o]).1),
            Base { sleep: spec_sleep_more(b.base.sleep, ticks), ..b.base })
    } else {
        (ins, outs, b.base)
    }
}

/// No identifier occurs twice in `s`.
pub open spec fn ids_distinct(s: Seq<Id>) -> bool {
    forall|i: int, j: int| 0 <= i < s.len() && 0 <= j < s.len() && i != j ==> s[i] != s[j]
}

/// Footprint of a building of kind `typ` whose top left tile is `tile`.
pub open spec fn spec_footprint(tile: TilePos, typ: BuildingTyp) -> TileBounds {
    TileBounds {
        min: tile,
        max: ((tile.0 + spec_size(typ).0) as i16, (tile.1 + spec_size(typ).1) as i16),
    }
}

/// Whether the footprint of a building of kind `typ` at `tile` has representable corners.
pub open spec fn footprint_fits(tile: TilePos, typ: BuildingTyp) -> bool {
    tile.0 + spec_size(typ).0 <= i16::MAX && tile.1 + spec_size(typ).1 <= i16::MAX
}

/// Whether the footprint of a building of kind `typ` at `tile` has representable corners.
pub fn fits_footprint(tile: TilePos, typ: BuildingTyp) -> (r: bool)
    ensures
        r == footprint_fits(tile, typ),
{
    let (w, h) = typ.size();
    tile.0 as i32 + w as i32 <= i16::MAX as i32 && tile.1 as i32 + h as i32 <= i16::MAX as i32
}

/// Whether a building of kind `typ` accepts resources transferred from other buildings.
pub open spec fn spec_is_depot(typ: BuildingTyp) -> bool {
    typ == BuildingTyp::HQ || typ == BuildingTyp::FoodPacker || typ == BuildingTyp::RockPacker
}

/// A building: entity state, kind, assigned workers, and resource slots.
pub struct Building {
    pub base: Base,
    pub typ: BuildingTyp,
    /// Pawns that work here.
    pub workers: Vec<Id>,
    pub inputs: InputSlots,
    pub outputs: OutputSlots,
}

impl Building {
    /// The input slots, in order.
    pub open spec fn spec_inputs(&self) -> Seq<ResourceSlot> {
        input_slots(self.inputs)
    }

    /// The output slots, in order.
    pub open spec fn spec_outputs(&self) -> Seq<ResourceSlot> {
        output_slots(self.outputs)
    }

    /// Footprint of the building.
    pub open spec fn spec_bounds(&self) -> TileBounds {
        spec_footprint(self.base.tile, self.typ)
    }

    /// Well formed: slots well formed and one per resource kind, at most three
    /// inputs and two outputs, no worker listed twice, footprint representable, and
    /// the slots' kinds and capacities those of the building kind's tables.
    pub open spec fn wf(&self) -> bool {
        &&& slots_wf(self.spec_inputs())
        &&& slots_wf(self.spec_outputs())
        &&& slots_distinct(self.spec_inputs())
        &&& slots_distinct(self.spec_outputs())
        &&& self.spec_inputs().len() <= 3
        &&& self.spec_outputs().len() <= 2
        &&& ids_distinct(self.workers@)
        &&& footprint_fits(self.base.tile, self.typ)
        &&& slot_kinds(self.spec_inputs()) == spec_input_resources(self.typ)
        &&& slot_kinds(self.spec_outputs()) == spec_output_resources(self.typ)
    }

    /// A new building of kind `typ` at `tile` for `team`: empty slots as the kind's
    /// tables say, no workers, full health, not yet stored.
    pub fn new(typ: BuildingTyp, tile: TilePos, team: Team) -> (b: Building)
        requires
            footprint_fits(tile, typ),
        ensures
            b.wf(),
            b.base == Base::new_spec(tile, team, spec_building_health()),
            b.typ == typ,
            b.workers@ == Seq::<Id>::empty(),
            b.spec_inputs() == fresh_slots(spec_input_resources(typ)),
            b.spec_outputs() == fresh_slots(spec_output_resources(typ)),
    {
        proof { lemma_slot_tables_well_formed(typ); }
        let ins = typ.input_resources();
        let mut in_slots: Vec<ResourceSlot> = Vec::new();
        let mut i: usize = 0;
        while i < ins.len()
            invariant
                ins@ == spec_input_resources(typ),
                i <= ins@.len(),
                in_slots@ == fresh_slots(ins@.take(i as int)),
                forall|k: int| 0 <= k < ins@.len() ==> (#[trigger] ins@[k]).1 > 0,
            decreases ins.len() - i,
        {
            let (t, m) = ins[i];
            in_slots.push(ResourceSlot::new(t, m));
            proof { assert(ins@.take(i + 1) == ins@.take(i as int).push(ins@[i as int])); }
            i = i + 1;
        }
        proof { assert(ins@.take(ins@.len() as int) == ins@); }
        let outs = typ.output_resources();
        let mut out_slots: Vec<ResourceSlot> = Vec::new();
        let mut i: usize = 0;
        while i < outs.len()
            invariant
                outs@ == spec_output_resources(typ),
                i <= outs@.len(),
                out_slots@ == fresh_slots(outs@.take(i as int)),
                forall|k: int| 0 <= k < outs@.len() ==> (#[trigger] outs@[k]).1 > 0,
            decreases outs.len() - i,
        {
            let (t, m) = outs[i];
            out_slots.push(ResourceSlot::new(t, m));
            proof { assert(outs@.take(i + 1) == outs@.take(i as int).push(outs@[i as int])); }
            i = i + 1;
        }
        proof { assert(outs@.take(outs@.len() as int) == outs@); }
        let b = Building {
            base: Base::new(tile, team, typ.default_health()),
            typ,
            workers: Vec::new(),
            inputs: inputs_from_vec(in_slots),
            outputs: outputs_from_vec(out_slots),
        };
        proof {
            assert(ids_distinct(b.workers@));
            assert(slot_kinds(fresh_slots(ins@)) =~= ins@);
            assert(slot_kinds(fresh_slots(outs@)) =~= outs@);
        }
        b
    }
}

/// With distinct slots, the slot found for `res` is the one at any index holding `res`.
pub proof fn lemma_find_slot_at(s: Seq<ResourceSlot>, res: ResourceTyp, i: int)
    requires
        slots_distinct(s),
        0 <= i < s.len(),
        s[i].typ == res,
    ensures
        find_slot(s, res) == Some(i),
{
    let j = choose|j: int| 0 <= j < s.len() && s[j].typ == res;
    assert(0 <= j < s.len() && s[j].typ == res);
}

/// A slot found for `res` is an index holding `res`.
pub proof fn lemma_find_slot_some(s: Seq<ResourceSlot>, res: ResourceTyp)
    ensures
        find_slot(s, res) matches Some(i) ==> 0 <= i < s.len() && s[i].typ == res,
        find_slot(s, res) is None ==> forall|i: int| 0 <= i < s.len() ==> s[i].typ != res,
{
}

impl Building {
    /// Index of the input slot for `res`, if any.
    pub fn input_index(&self, res: ResourceTyp) -> (r: Option<usize>)
        requires
            slots_distinct(self.spec_inputs()),
        ensures
            r matches Some(i) ==> find_slot(self.spec_inputs(), res) == Some(i as int),
            r is None ==> find_slot(self.spec_inputs(), res) is None,
    {
        let n = inputs_len(&self.inputs);
        let mut i: usize = 0;
        while i < n
            invariant
                n == self.spec_inputs().len(),
                slots_distinct(self.spec_inputs()),
                i <= n,
                forall|j: int| 0 <= j < i ==> self.spec_inputs()[j].typ != res,
            decreases n - i,
        {
            let slot = inputs_get(&self.inputs, i);
            if slot.typ == res {
                proof { lemma_find_slot_at(self.spec_inputs(), res, i as int); }
                return Some(i);
            }
            i = i + 1;
        }
        None
    }

    /// Index of the output slot for `res`, if any.
    pub fn output_index(&self, res: ResourceTyp) -> (r: Option<usize>)
        requires
            slots_distinct(self.spec_outputs()),
        ensures
            r matches Some(i) ==> find_slot(self.spec_outputs(), res) == Some(i as int),
            r is None ==> find_slot(self.spec_outputs(), res) is None,
    {
        let n = outputs_len(&self.outputs);
        let mut i: usize = 0;
        while i < n
            invariant
                n == self.spec_outputs().len(),
                slots_distinct(self.spec_outputs()),
                i <= n,
                forall|j: int| 0 <= j < i ==> self.spec_outputs()[j].typ != res,
            decreases n - i,
        {
            let slot = outputs_get(&self.outputs, i);
            if slot.typ == res {
                proof { lemma_find_slot_at(self.spec_outputs(), res, i as int); }
                return Some(i);
            }
            i = i + 1;
        }
        None
    }

    /// The input slot for `res`, if any (amount and capacity for that resource).
    pub fn input(&self, res: ResourceTyp) -> (r: Option<ResourceSlot>)
        requires
            self.wf(),
        ensures
            r == (match find_slot(self.spec_inputs(), res) {
                Some(i) => Some(self.spec_inputs()[i]),
                None => None,
            }),
    {
        match self.input_index(res) {
            Some(i) => Some(inputs_get(&self.inputs, i)),
            None => None,
        }
    }

    /// The output slot for `res`, if any.
    pub fn output(&self, res: ResourceTyp) -> (r: Option<ResourceSlot>)
        requires
            self.wf(),
        ensures
            r == (match find_slot(self.spec_outputs(), res) {
                Some(i) => Some(self.spec_outputs()[i]),
                None => None,
            }),
    {
        match self.output_index(res) {
            Some(i) => Some(outputs_get(&self.outputs, i)),
            None => None,
        }
    }

    /// All input slots, in order.
    pub fn inputs(&self) -> (v: Vec<ResourceSlot>)
        ensures
            v@ == self.spec_inputs(),
    {
        let n = inputs_len(&self.inputs);
        let mut v: Vec<ResourceSlot> = Vec::new();
        let mut i: usize = 0;
        while i < n
            invariant
                n == self.spec_inputs().len(),
                i <= n,
                v@ == self.spec_inputs().take(i as int),
            decreases n - i,
        {
            v.push(inputs_get(&self.inputs, i));
            proof { assert(self.spec_inputs().take(i + 1) == self.spec_inputs().take(i as int).push(self.spec_inputs()[i as int])); }
            i = i + 1;
        }
        proof { assert(self.spec_inputs().take(n as int) == self.spec_inputs()); }
        v
    }

    /// All output slots, in order.
    pub fn outputs(&self) -> (v: Vec<ResourceSlot>)
        ensures
            v@ == self.spec_outputs(),
    {
        let n = outputs_len(&self.outputs);
        let mut v: Vec<ResourceSlot> = Vec::new();
        let mut i: usize = 0;
        while i < n
            invariant
                n == self.spec_outputs().len(),
                i <= n,
                v@ == self.spec_outputs().take(i as int),
            decreases n - i,
        {
            v.push(outputs_get(&self.outputs, i));
            proof { assert(self.spec_outputs().take(i + 1) == self.spec_outputs().take(i as int).push(self.spec_outputs()[i as int])); }
            i = i + 1;
        }
        proof { assert(self.spec_outputs().take(n as int) == self.spec_outputs()); }
        v
    }

    /// Whether every input slot is full.
    pub fn is_full(&self) -> (r: bool)
        ensures
            r == (forall|i: int| 0 <= i < self.spec_inputs().len() ==> #[trigger] self.spec_inputs()[i].amount >= self.spec_inputs()[i].max),
    {
        let n = inputs_len(&self.inputs);
        let mut i: usize = 0;
        while i < n
            invariant
                n == self.spec_inputs().len(),
                i <= n,
                forall|j: int| 0 <= j < i ==> #[trigger] self.spec_inputs()[j].amount >= self.spec_inputs()[j].max,
            decreases n - i,
        {
            let slot = inputs_get(&self.inputs, i);
            if !slot.is_full() {
                return false;
            }
            i = i + 1;
        }
        true
    }

    /// Depots accept resources transferred from other buildings: the headquarters
    /// and the packers are depots, farms, quarries, nests and mines are not.
    pub fn is_depot(&self) -> (r: bool)
        ensures
            r == spec_is_depot(self.typ),
    {
        match self.typ {
            BuildingTyp::HQ => true,
            BuildingTyp::Farm => false,
            BuildingTyp::Quarry => false,
            BuildingTyp::StarNest => false,
            BuildingTyp::FoodPacker => true,
            BuildingTyp::RockPacker => true,
            BuildingTyp::IronMine => false,
            BuildingTyp::CoalMine => false,
        }
    }

    /// Whether the building has an input slot for `res`.
    pub fn has_input(&self, res: ResourceTyp) -> (r: bool)
        requires
            self.wf(),
        ensures
            r == (find_slot(self.spec_inputs(), res) is Some),
    {
        self.input_index(res).is_some()
    }

    /// Whether the building has an output slot for `res`.
    pub fn has_output(&self, res: ResourceTyp) -> (r: bool)
        requires
            self.wf(),
        ensures
            r == (find_slot(self.spec_outputs(), res) is Some),
    {
        self.output_index(res).is_some()
    }

    /// Whether there is room to receive one `res`: an input slot for it that is not full.
    pub fn can_accept(&self, res: ResourceTyp) -> (r: bool)
        requires
            self.wf(),
        ensures
            r == (match find_slot(self.spec_inputs(), res) {
                Some(i) => self.spec_inputs()[i].amount < self.spec_inputs()[i].max,
                None => false,
            }),
    {
        match self.input(res) {
            None => false,
            Some(slot) => !slot.is_full(),
        }
    }

    /// Whether one `res` can be collected: an output slot for it that is not empty.
    pub fn can_provide(&self, res: ResourceTyp) -> (r: bool)
        requires
            self.wf(),
        ensures
            r == (match find_slot(self.spec_outputs(), res) {
                Some(i) => self.spec_outputs()[i].amount > 0,
                None => false,
            }),
    {
        match self.output(res) {
            None => false,
            Some(slot) => !slot.is_empty(),
        }
    }

    /// Add one `res` to its input slot. `None` (and no change) when there is no such
    /// slot or it is full.
    pub fn add_resource(&mut self, res: ResourceTyp) -> (r: Option<()>)
        requires
            old(self).wf(),
        ensures
            final(self).wf(),
            (r, final(self).spec_inputs()) == slots_add_one(old(self).spec_inputs(), res),
            final(self).spec_outputs() == old(self).spec_outputs(),
            final(self).base == old(self).base,
            final(self).typ == old(self).typ,
            final(self).workers == old(self).workers,
    {
        match self.input_index(res) {
            Some(i) => {
                let mut slot = inputs_get(&self.inputs, i);
                let r = slot.add_one();
                inputs_set(&mut self.inputs, i, slot);
                proof { lemma_update_keeps_slots(old(self).spec_inputs(), i as int, slot); }
                r
            },
            None => None,
        }
    }

    /// Take one `res` out of its input slot. `None` (and no change) when there is no
    /// such slot or it is empty.
    pub fn take_resource(&mut self, res: ResourceTyp) -> (r: Option<ResourceTyp>)
        requires
            old(self).wf(),
        ensures
            final(self).wf(),
            (r, final(self).spec_inputs()) == slots_take_one(old(self).spec_inputs(), res),
            final(self).spec_outputs() == old(self).spec_outputs(),
            final(self).base == old(self).base,
            final(self).typ == old(self).typ,
            final(self).workers == old(self).workers,
    {
        match self.input_index(res) {
            Some(i) => {
                let mut slot = inputs_get(&self.inputs, i);
                let r = slot.try_take_one();
                inputs_set(&mut self.inputs, i, slot);
                proof { lemma_update_keeps_slots(old(self).spec_inputs(), i as int, slot); }
                r
            },
            None => None,
        }
    }

    /// Take one `res` out of its output slot. `None` (and no change) when there is no
    /// such slot or it is empty.
    pub fn take_output(&mut self, res: ResourceTyp) -> (r: Option<ResourceTyp>)
        requires
            old(self).wf(),
        ensures
            final(self).wf(),
            (r, final(self).spec_outputs()) == slots_take_one(old(self).spec_outputs(), res),
            final(self).spec_inputs() == old(self).spec_inputs(),
            final(self).base == old(self).base,
            final(self).typ == old(self).typ,
            final(self).workers == old(self).workers,
    {
        match self.output_index(res) {
            Some(i) => {
                let mut slot = outputs_get(&self.outputs, i);
                let r = slot.try_take_one();
                outputs_set(&mut self.outputs, i, slot);
                proof { lemma_update_keeps_slots(old(self).spec_outputs(), i as int, slot); }
                r
            },
            None => None,
        }
    }

    /// Take `n` of `res` out of its input slot: `Some(())` when the slot exists and
    /// holds at least `n`, `None` (and no change) otherwise.
    pub fn take_input(&mut self, res: ResourceTyp, n: u16) -> (r: Option<()>)
        requires
            old(self).wf(),
        ensures
            final(self).wf(),
            match find_slot(old(self).spec_inputs(), res) {
                Some(i) => r == slot_take(old(self).spec_inputs()[i], n).0 && final(self).spec_inputs()
                    == old(self).spec_inputs().update(i, slot_take(old(self).spec_inputs()[i], n).1),
                None => r is None && final(self).spec_inputs() == old(self).spec_inputs(),
            },
            final(self).spec_outputs() == old(self).spec_outputs(),
            final(self).base == old(self).base,
            final(self).typ == old(self).typ,
            final(self).workers == old(self).workers,
    {
        match self.input_index(res) {
            Some(i) => {
                let mut slot = inputs_get(&self.inputs, i);
                let r = slot.take(n);
                inputs_set(&mut self.inputs, i, slot);
                proof { lemma_update_keeps_slots(old(self).spec_inputs(), i as int, slot); }
                r
            },
            None => None,
        }
    }

    /// Footprint of the building.
    pub fn bounds(&self) -> (b: TileBounds)
        requires
            self.wf(),
        ensures
            b == self.spec_bounds(),
    {
        TileBounds::with_size(self.base.tile, self.typ.size())
    }

    /// Tile where pawns enter the building (its top left tile).
    pub fn entrance(&self) -> (t: TilePos)
        ensures
            t == self.base.tile,
    {
        self.base.tile
    }

    /// Factory step: when at least `from_n` of `from` are in stock and the output slot
    /// for `to` is not full, consume `from_n` of `from`, produce one `to`, and sleep
    /// for `ticks` ticks. Otherwise nothing changes.
    pub fn tick_factory(&mut self, from_n: u16, from: ResourceTyp, to: ResourceTyp, ticks: u8)
        requires
            old(self).wf(),
            find_slot(old(self).spec_inputs(), from) is Some,
            find_slot(old(self).spec_outputs(), to) is Some,
        ensures
            final(self).wf(),
            (final(self).spec_inputs(), final(self).spec_outputs(), final(self).base) == factory_step(*old(self), from_n, from, to, ticks),
            final(self).typ == old(self).typ,
            final(self).workers == old(self).workers,
    {
        let i = self.input_index(from).unwrap();
        let o = self.output_index(to).unwrap();
        let mut from_slot = inputs_get(&self.inputs, i);
        let mut to_slot = outputs_get(&self.outputs, o);
        if from_slot.amount() >= from_n && !to_slot.is_full() {
            from_slot.take(from_n);
            to_slot.add_one();
            inputs_set(&mut self.inputs, i, from_slot);
            outputs_set(&mut self.outputs, o, to_slot);
            self.base.sleep(ticks);
            proof {
                lemma_update_keeps_slots(old(self).spec_inputs(), i as int, from_slot);
                lemma_update_keeps_slots(old(self).spec_outputs(), o as int, to_slot);
            }
        }
    }
}

/// Replacing a well formed slot by a well formed slot of the same kind keeps a
/// table of slots well formed and distinct.
pub proof fn lemma_update_keeps_slots(s: Seq<ResourceSlot>, i: int, v: ResourceSlot)
    requires
        slots_wf(s),
        slots_distinct(s),
        0 <= i < s.len(),
        v.typ == s[i].typ,
        v.wf(),
        v.max == s[i].max,
    ensures
        slots_wf(s.update(i, v)),
        slots_distinct(s.update(i, v)),
        slot_kinds(s.update(i, v)) == slot_kinds(s),
{
    assert(slot_kinds(s.update(i, v)) =~= slot_kinds(s));
    let t = s.update(i, v);
    assert forall|a: int, b: int| 0 <= a < t.len() && 0 <= b < t.len() && a != b implies t[a].typ != t[b].typ by {
        assert(t[a].typ == s[a].typ);
        assert(t[b].typ == s[b].typ);
    }
}

/// Kind and amount of each slot of `s`, in order.
pub open spec fn slot_contents(s: Seq<ResourceSlot>) -> Seq<(ResourceTyp, u16)> {
    s.map_values(|x: ResourceSlot| (x.typ, x.amount))
}

impl Building {
    /// Kind and amount of every slot: the inputs, then the outputs.
    pub fn iter_resources(&self) -> (r: Vec<(ResourceTyp, u16)>)
        ensures
            r@ == slot_contents(self.spec_inputs() + self.spec_outputs()),
    {
        let mut r: Vec<(ResourceTyp, u16)> = Vec::new();
        let n = inputs_len(&self.inputs);
        let mut i: usize = 0;
        while i < n
            invariant
                n == self.spec_inputs().len(),
                i <= n,
                r@ == slot_contents(self.spec_inputs().take(i as int)),
            decreases n - i,
        {
            let s = inputs_get(&self.inputs, i);
            r.push((s.typ, s.amount));
            proof {
                assert(self.spec_inputs().take(i + 1) =~= self.spec_inputs().take(i as int).push(s));
                assert(r@ =~= slot_contents(self.spec_inputs().take(i + 1)));
            }
            i = i + 1;
        }
        proof { assert(self.spec_inputs().take(n as int) =~= self.spec_inputs()); }
        let m = outputs_len(&self.outputs);
        let mut j: usize = 0;
        while j < m
            invariant
                m == self.spec_outputs().len(),
                j <= m,
                r@ == slot_contents(self.spec_inputs() + self.spec_outputs().take(j as int)),
            decreases m - j,
        {
            let s = outputs_get(&self.outputs, j);
            r.push((s.typ, s.amount));
            proof {
                assert(self.spec_inputs() + self.spec_outputs().take(j + 1)
                    =~= (self.spec_inputs() + self.spec_outputs().take(j as int)).push(s));
                assert(r@ =~= slot_contents(self.spec_inputs() + self.spec_outputs().take(j + 1)));
            }
            j = j + 1;
        }
        proof { assert(self.spec_outputs().take(m as int) =~= self.spec_outputs()); }
        r
    }
}

} // verus!
