use vstd::prelude::*;

verus! {

/// `std::time::Instant` is opaque here: values of it are only obtained from
/// and handed back to the trusted time functions below.
#[verifier::external_type_specification]
#[verifier::external_body]
pub struct ExInstant(std::time::Instant);

/// Relies on std::time::Instant::now: a reading of the monotonic clock.
/// Nothing is promised of the reading itself.
pub assume_specification[ std::time::Instant::now ]() -> (r: std::time::Instant);

/// Relies on std::time::Instant::elapsed: the time that passed since the
/// instant was taken.  Nothing is promised of the amount.
pub assume_specification[ std::time::Instant::elapsed ](this: &std::time::Instant) -> (r: std::time::Duration);

/// Relies on std::time::Duration::as_nanos: the duration expressed as whole
/// nanoseconds.  Nothing is promised of the amount.
pub assume_specification[ std::time::Duration::as_nanos ](this: &std::time::Duration) -> (r: u128);

/// Frames per second derived from a frame delta in nanoseconds, truncated to
/// a whole number.  A zero delta (before the first tick, or a clock that did
/// not advance) deliberately reports 0 rather than an unbounded rate.
pub open spec fn fps_of(delta_nanos: u64) -> u64 {
    if delta_nanos == 0 {
        0
    } else {
        (1_000_000_000 as u64 / delta_nanos) as u64
    }
}

/// Tracks the start of the run, the instant of the most recent tick, and the
/// delta between the two most recent ticks, in nanoseconds.
pub struct Clock {
    pub start: std::time::Instant,
    pub prev: std::time::Instant,
    pub delta_nanos: u64,
}

impl Clock {
    /// A fresh clock: the delta is zero until the first tick.
    pub fn new() -> (c: Self)
        ensures
            c.delta_nanos == 0,
    {
        let now = std::time::Instant::now();
        Clock { start: now, prev: now, delta_nanos: 0 }
    }

    /// Advance the clock one frame: the delta becomes the time since the
    /// previous tick (saturated to `u64` nanoseconds), and the tick instant
    /// is replaced by a fresh reading.  The measured amount depends on the
    /// real clock, so nothing is promised of the new delta; the start of the
    /// run is kept.
    pub fn tick(&mut self)
        ensures
            final(self).start == old(self).start,
    {
        let d: u128 = self.prev.elapsed().as_nanos();
        self.prev = std::time::Instant::now();
        self.delta_nanos = if d > u64::MAX as u128 {
            u64::MAX
        } else {
            d as u64
        };
    }

    /// The delta measured by the most recent tick, in nanoseconds.
    pub fn dt(&self) -> (r: u64)
        ensures
            r == self.delta_nanos,
    {
        self.delta_nanos
    }

    /// Whole frames per second derived from the most recent delta; 0 before
    /// the first tick.
    pub fn fps(&self) -> (r: u64)
        ensures
            r == fps_of(self.delta_nanos),
    {
        if self.delta_nanos == 0 {
            0
        } else {
            1_000_000_000 / self.delta_nanos
        }
    }

    /// Nanoseconds elapsed since the clock was created.  The amount depends
    /// on the real clock, so nothing is promised of it.
    pub fn since_start(&self) -> u128 {
        self.start.elapsed().as_nanos()
    }
}

} // verus!
