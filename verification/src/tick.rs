//! The simulation tick: a wrapping sequence number identifying one fixed
//! simulation step, with modular distance and ordering, plus the tick
//! configuration and the manager that owns the monotonic counter.

use vstd::prelude::*;
use std::time::Duration;

verus! {

/// Modular distance from `b` forward to `a`: how many increments carry `b`
/// onto `a`. Always in `[0, 65536)` for arguments in `[0, 65536)`.
pub open spec fn tick_sub(a: int, b: int) -> int {
    if a >= b {
        a - b
    } else {
        a + 65536 - b
    }
}

/// Modular addition of a step count to a tick value, staying in `[0, 65536)`.
pub open spec fn tick_add(a: int, k: int) -> int {
    if a + k < 65536 {
        a + k
    } else {
        a + k - 65536
    }
}

/// `t` is strictly newer than `h` in sequence-number order: it lies within
/// half a span ahead of `h`.
pub open spec fn tick_newer(t: int, h: int) -> bool {
    0 < tick_sub(t, h) < 32768
}

/// A tick value is a residue modulo the tick span.
pub open spec fn tick_in_range(t: int) -> bool {
    0 <= t < 65536
}

/// Chain rule for modular distances: the distance from `c` to `b` is the
/// difference of the distances from `c` to `a` and from `b` to `a`, corrected
/// by one span when it would run negative.
pub proof fn lemma_tick_sub_chain(a: int, b: int, c: int)
    requires
        tick_in_range(a),
        tick_in_range(b),
        tick_in_range(c),
    ensures
        tick_sub(b, c) == if tick_sub(a, c) >= tick_sub(a, b) {
            tick_sub(a, c) - tick_sub(a, b)
        } else {
            tick_sub(a, c) - tick_sub(a, b) + 65536
        },
{
}

/// One fixed simulation step, identified by a wrapping sequence number.
/// Distances and ordering between ticks are modular, so comparisons remain
/// meaningful across the wrap boundary.
#[derive(Clone, Copy, PartialEq, Eq, Structural, Debug, Hash)]
pub struct Tick(pub u16);

impl Tick {
    /// Modular distance from `other` forward to `self`.
    pub fn distance_since(self, other: Tick) -> (d: u16)
        ensures
            d as int == tick_sub(self.0 as int, other.0 as int),
    {
        if self.0 >= other.0 {
            self.0 - other.0
        } else {
            self.0 + (65535 - other.0) + 1
        }
    }

    /// Whether `self` is strictly newer than `other` in modular order.
    pub fn is_newer_than(self, other: Tick) -> (r: bool)
        ensures
            r == tick_newer(self.0 as int, other.0 as int),
    {
        let d = self.distance_since(other);
        0 < d && d < 32768
    }

    /// The next tick, wrapping at the end of the span.
    pub fn next(self) -> (t: Tick)
        ensures
            t.0 as int == tick_add(self.0 as int, 1),
    {
        if self.0 == 65535 {
            Tick(0)
        } else {
            Tick(self.0 + 1)
        }
    }

    /// The tick `k` steps back, wrapping at the start of the span.
    pub fn minus(self, k: u16) -> (t: Tick)
        ensures
            t.0 as int == tick_sub(self.0 as int, k as int),
    {
        if self.0 >= k {
            Tick(self.0 - k)
        } else {
            Tick(self.0 + (65535 - k) + 1)
        }
    }
}

/// Immutable tick configuration: the real-time duration represented by one
/// simulation tick. Created once at session start and never mutated.
#[derive(Clone, Copy)]
pub struct TickConfig {
    pub tick_duration: Duration,
}

impl TickConfig {
    pub fn new(tick_duration: Duration) -> (c: TickConfig)
        ensures
            c.tick_duration == tick_duration,
    {
        TickConfig { tick_duration }
    }
}

/// Owns the monotonic simulation tick counter for one session. The counter is
/// advanced exactly once per fixed step by the driving scheduler; it wraps on
/// overflow, and all consumers compare ticks modularly.
pub struct TickManager {
    /// Tick configuration
    pub config: TickConfig,
    /// Current tick (sequence number of the fixed-step schedule)
    tick: Tick,
}

impl TickManager {
    /// The current tick, as seen by contracts.
    pub closed spec fn spec_tick(self) -> Tick {
        self.tick
    }

    /// The owned configuration, as seen by contracts.
    pub closed spec fn spec_config(self) -> TickConfig {
        self.config
    }

    pub fn from_config(config: TickConfig) -> (m: TickManager)
        ensures
            m.spec_tick() == (Tick(0u16)),
            m.spec_config() == config,
    {
        TickManager { config, tick: Tick(0) }
    }

    /// Advances the counter by exactly one step, wrapping at the end of the
    /// tick span.
    pub fn increment_tick(&mut self)
        ensures
            final(self).spec_tick().0 as int == tick_add(old(self).spec_tick().0 as int, 1),
            final(self).spec_config() == old(self).spec_config(),
    {
        self.tick = self.tick.next();
    }

    /// Privileged correction used once during connection alignment to bring
    /// this session's counter onto a peer's; not part of normal per-step flow.
    pub fn set_tick_to(&mut self, tick: Tick)
        ensures
            final(self).spec_tick() == tick,
            final(self).spec_config() == old(self).spec_config(),
    {
        self.tick = tick;
    }

    pub fn current_tick(&self) -> (t: Tick)
        ensures
            t == self.spec_tick(),
    {
        self.tick
    }
}

} // verus!
