//! Short-lived visual effects (bolts of an attack, craters of a destroyed entity).
use vstd::prelude::*;
use crate::geom::{TilePos, WorldPos};

verus! {

/// A bolt of energy from an attacker to its victim (world coordinates).
#[derive(Clone, Copy, Debug)]
pub struct Bolt {
    pub start: WorldPos,
    pub end: WorldPos,
}

/// A crater left on a tile.
#[derive(Clone, Copy, Debug)]
pub struct Crater {
    pub tile: TilePos,
}

/// A short-lived visual effect.
#[derive(Clone, Copy, Debug)]
pub enum Effect {
    Bolt(Bolt),
    Crater(Crater),
}

/// Number of simulation ticks an effect stays visible.
pub open spec fn spec_ttl(e: Effect) -> u64 {
    match e {
        Effect::Bolt(_) => 1,
        Effect::Crater(_) => 30,
    }
}

impl Bolt {
    /// Number of simulation ticks a bolt stays visible: one.
    pub fn ttl(&self) -> (r: u64)
        ensures
            r == 1,
    {
        1
    }
}

impl Crater {
    /// Number of simulation ticks a crater stays visible: thirty.
    pub fn ttl(&self) -> (r: u64)
        ensures
            r == 30,
    {
        30
    }
}

impl Effect {
    /// Number of simulation ticks this effect stays visible.
    pub fn ttl(&self) -> (r: u64)
        ensures
            r == spec_ttl(*self),
    {
        match self {
            Effect::Bolt(b) => b.ttl(),
            Effect::Crater(c) => c.ttl(),
        }
    }
}

/// Whether an effect with end of life `e.0` is still visible at tick `tick`.
pub open spec fn alive_at(tick: u64) -> spec_fn((u64, Effect)) -> bool {
    |e: (u64, Effect)| e.0 > tick
}

/// Current effects, each with the tick at which it ends.
pub struct Effects {
    effects: Vec<(u64, Effect)>,
}

impl View for Effects {
    type V = Seq<(u64, Effect)>;

    closed spec fn view(&self) -> Seq<(u64, Effect)> {
        self.effects@
    }
}

impl Effects {
    /// No effects.
    pub fn new() -> (r: Effects)
        ensures
            r@ == Seq::<(u64, Effect)>::empty(),
    {
        Effects { effects: Vec::new() }
    }

    /// Add `effect` at simulation tick `tick`; it ends `ttl` ticks later.
    pub fn add(&mut self, tick: u64, effect: Effect)
        requires
            tick + 30 <= u64::MAX,
        ensures
            final(self)@ == old(self)@.push(((tick + spec_ttl(effect)) as u64, effect)),
    {
        let ttl = effect.ttl();
        self.effects.push((tick + ttl, effect));
    }

    /// Add a bolt from `start` to `end` at simulation tick `tick`.
    pub fn add_bolt(&mut self, tick: u64, start: WorldPos, end: WorldPos)
        requires
            tick + 30 <= u64::MAX,
        ensures
            final(self)@ == old(self)@.push(((tick + 1) as u64, Effect::Bolt(Bolt { start, end }))),
    {
        self.add(tick, Effect::Bolt(Bolt { start, end }))
    }

    /// Add a crater at `tile` at simulation tick `tick`.
    pub fn add_crater(&mut self, tick: u64, tile: TilePos)
        requires
            tick + 30 <= u64::MAX,
        ensures
            final(self)@ == old(self)@.push(((tick + 30) as u64, Effect::Crater(Crater { tile }))),
    {
        self.add(tick, Effect::Crater(Crater { tile }))
    }

    /// Drop the effects that have ended by tick `tick`, keeping the others in order.
    pub fn expire(&mut self, tick: u64)
        ensures
            final(self)@ == old(self)@.filter(alive_at(tick)),
    {
        let mut kept: Vec<(u64, Effect)> = Vec::new();
        let mut i: usize = 0;
        let ghost s = self.effects@;
        while i < self.effects.len()
            invariant
                s == self.effects@,
                i <= s.len(),
                kept@ == s.take(i as int).filter(alive_at(tick)),
            decreases s.len() - i,
        {
            let e = self.effects[i];
            proof {
                reveal_with_fuel(Seq::<_>::filter, 1);
                assert(s.take(i + 1).drop_last() =~= s.take(i as int));
            }
            if e.0 > tick {
                kept.push(e);
            }
            i = i + 1;
        }
        proof { assert(s.take(s.len() as int) =~= s); }
        self.effects = kept;
    }

    /// The current effects, for drawing.
    pub fn active(&self) -> (v: &[(u64, Effect)])
        ensures
            v@ == self@,
    {
        self.effects.as_slice()
    }
}

/// An effect added at tick `t` is visible up to and including tick `t + ttl - 1` and
/// expired at tick `t + ttl`: a bolt lasts one tick, a crater thirty.
pub proof fn lemma_effect_lifetime(s: Seq<(u64, Effect)>, t: u64, e: Effect)
    requires
        t + 30 <= u64::MAX,
    ensures
        s.push(((t + spec_ttl(e)) as u64, e)).filter(alive_at((t + spec_ttl(e) - 1) as u64)).contains(((t + spec_ttl(e)) as u64, e)),
        !s.push(((t + spec_ttl(e)) as u64, e)).filter(alive_at((t + spec_ttl(e)) as u64)).contains(((t + spec_ttl(e)) as u64, e)),
{
    let s2 = s.push(((t + spec_ttl(e)) as u64, e));
    let x = ((t + spec_ttl(e)) as u64, e);
    if s2.filter(alive_at((t + spec_ttl(e)) as u64)).contains(x) {
        s2.lemma_filter_contains_rev(alive_at((t + spec_ttl(e)) as u64), x);
    }
    assert(s2[s.len() as int] == x);
    s2.lemma_filter_contains(alive_at((t + spec_ttl(e) - 1) as u64), s.len() as int);
}

} // verus!
