//! A hand-rolled monotonic clock: precise, monotonically increasing time readings
//! built from a raw clock that may jump (e.g. in the browser).
use vstd::prelude::*;

verus! {

/// Integer state of the monotonic clock.
#[derive(Clone, Copy, Debug)]
pub struct MonotonicClock {
    /// Number of frames (ticks) so far.
    pub frame: u64,
    /// Monotonically increasing microseconds since an arbitrary reference time.
    pub monotonic_micros: u64,
    /// The raw reading at the previous tick.
    pub prev_readout: u64,
    /// Microseconds between the last two in-sync readings.
    pub dt_micros: u32,
}

/// Largest jump between readings (in microseconds) that is taken at face value.
pub const MAX_STEP_MICROS: u64 = 10_000_000;

/// Increment used when the raw clock jumped backwards or too far ahead.
pub const RESYNC_MICROS: u64 = 100;

/// Whether raw reading `readout` follows `prev` closely enough to be trusted.
pub open spec fn in_sync(prev: u64, readout: u64) -> bool {
    readout > prev && readout < prev + MAX_STEP_MICROS
}

/// Clock state after a tick with raw reading `readout`.
pub open spec fn spec_clock_tick(c: MonotonicClock, readout: u64) -> MonotonicClock {
    if in_sync(c.prev_readout, readout) {
        MonotonicClock {
            frame: (c.frame + 1) as u64,
            monotonic_micros: (c.monotonic_micros + (readout - c.prev_readout)) as u64,
            prev_readout: readout,
            dt_micros: (readout - c.prev_readout) as u32,
        }
    } else {
        MonotonicClock {
            frame: (c.frame + 1) as u64,
            monotonic_micros: (c.monotonic_micros + RESYNC_MICROS) as u64,
            prev_readout: readout,
            dt_micros: c.dt_micros,
        }
    }
}

/// Whether a tick with raw reading `readout` can be taken without overflow: the
/// frame counter, the window compared with a later reading, and the clock itself
/// (advanced by the difference when in sync, by the re-sync increment otherwise).
pub open spec fn can_tick(c: MonotonicClock, readout: u64) -> bool {
    &&& c.frame < u64::MAX
    &&& readout > c.prev_readout ==> c.prev_readout + MAX_STEP_MICROS <= u64::MAX
    &&& in_sync(c.prev_readout, readout) ==> c.monotonic_micros + (readout - c.prev_readout) <= u64::MAX
    &&& !in_sync(c.prev_readout, readout) ==> c.monotonic_micros + RESYNC_MICROS <= u64::MAX
}

impl MonotonicClock {
    /// A clock at zero.
    pub fn new() -> (c: MonotonicClock)
        ensures
            c == (MonotonicClock { frame: 0, monotonic_micros: 0, prev_readout: 0, dt_micros: 0 }),
    {
        MonotonicClock { frame: 0, monotonic_micros: 0, prev_readout: 0, dt_micros: 0 }
    }

    /// To be called every time a new frame is rendered, with the raw clock reading in
    /// microseconds. A reading that follows the previous one by less than ten seconds
    /// advances the clock by the difference; any other reading re-synchronises the
    /// clock and advances it by 0.1 ms. Returns whether the reading was in sync.
    pub fn tick(&mut self, readout: u64) -> (synced: bool)
        requires
            can_tick(*old(self), readout),
        ensures
            synced == in_sync(old(self).prev_readout, readout),
            *final(self) == spec_clock_tick(*old(self), readout),
    {
        self.frame = self.frame + 1;
        if readout > self.prev_readout && readout < self.prev_readout + MAX_STEP_MICROS {
            let delta = readout - self.prev_readout;
            self.monotonic_micros = self.monotonic_micros + delta;
            self.prev_readout = readout;
            self.dt_micros = delta as u32;
            true
        } else {
            self.prev_readout = readout;
            self.monotonic_micros = self.monotonic_micros + RESYNC_MICROS;
            false
        }
    }

    /// Monotonically increasing microseconds since an arbitrary reference time.
    pub fn micros(&self) -> (r: u64)
        ensures
            r == self.monotonic_micros,
    {
        self.monotonic_micros
    }
}

/// The clock is monotonic: every tick counts the frame, remembers the reading, and
/// advances the clock by the difference of the readings when they are in sync and
/// by exactly 0.1 ms otherwise, so always by at least 0.1 ms or one microsecond and
/// by less than ten seconds.
pub proof fn lemma_clock_monotonic(c: MonotonicClock, readout: u64)
    requires
        can_tick(c, readout),
    ensures
        spec_clock_tick(c, readout).monotonic_micros > c.monotonic_micros,
        spec_clock_tick(c, readout).monotonic_micros < c.monotonic_micros + MAX_STEP_MICROS,
        spec_clock_tick(c, readout).frame == c.frame + 1,
        spec_clock_tick(c, readout).prev_readout == readout,
        in_sync(c.prev_readout, readout) ==> spec_clock_tick(c, readout).monotonic_micros - c.monotonic_micros
            == readout - c.prev_readout,
        !in_sync(c.prev_readout, readout) ==> spec_clock_tick(c, readout).monotonic_micros - c.monotonic_micros
            == RESYNC_MICROS,
{
}

} // verus!
