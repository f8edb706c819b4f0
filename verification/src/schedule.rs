//! When the event loop animates and when it fetches fresh records. Times are
//! nanoseconds since the loop started.

use vstd::prelude::*;

verus! {

/// The animation period: a quarter of a second.
pub const TICK_NANOS: u64 = 250_000_000;

/// The refresh period: five seconds.
pub const REFRESH_NANOS: u64 = 5_000_000_000;

/// When the event loop last animated and last fetched fresh records.
pub struct Clock {
    pub last_tick: u64,
    pub last_refresh: u64,
}

impl Clock {
    /// No time has passed since `now`: neither is due.
    pub open spec fn settled(self, now: u64) -> bool {
        &&& self.last_tick <= now
        &&& self.last_refresh <= now
        &&& now - self.last_tick < TICK_NANOS
        &&& now - self.last_refresh < REFRESH_NANOS
    }

    /// A clock that last ticked and refreshed at `now`.
    pub fn new(now: u64) -> (c: Clock)
        ensures
            c.last_tick == now,
            c.last_refresh == now,
    {
        Clock { last_tick: now, last_refresh: now }
    }

    /// How long the loop may wait for a key at time `now`: the rest of the
    /// current tick period, nothing once it is over.
    pub fn wait_time(&self, now: u64) -> (r: u64)
        requires
            self.last_tick <= now,
        ensures
            r == (if now - self.last_tick >= TICK_NANOS {
                0
            } else {
                (TICK_NANOS - (now - self.last_tick)) as u64
            }),
    {
        let since = now - self.last_tick;
        if since >= TICK_NANOS {
            0
        } else {
            TICK_NANOS - since
        }
    }

    /// After waiting, at time `now`: whether to animate (a full tick period
    /// has passed) and whether to fetch fresh records (five seconds have
    /// passed); each that happens is recorded as done at `now`.
    pub fn step(&mut self, now: u64) -> (r: (bool, bool))
        requires
            old(self).last_tick <= now,
            old(self).last_refresh <= now,
        ensures
            r.0 == (now - old(self).last_tick >= TICK_NANOS),
            r.1 == (now - old(self).last_refresh >= REFRESH_NANOS),
            final(self).last_tick == (if r.0 { now } else { old(self).last_tick }),
            final(self).last_refresh == (if r.1 { now } else { old(self).last_refresh }),
    {
        let tick = now - self.last_tick >= TICK_NANOS;
        let refresh = now - self.last_refresh >= REFRESH_NANOS;
        if tick {
            self.last_tick = now;
        }
        if refresh {
            self.last_refresh = now;
        }
        (tick, refresh)
    }
}

/// The clock's promise: a step never leaves an animation or a refresh
/// overdue, each happening exactly when its period has run out; and the
/// wait for a key never outlasts the tick period, ending when it runs out.
pub proof fn lemma_step_catches_up(c: Clock, now: u64)
    requires
        c.last_tick <= now,
        c.last_refresh <= now,
    ensures
        ({
            let tick = now - c.last_tick >= TICK_NANOS;
            let refresh = now - c.last_refresh >= REFRESH_NANOS;
            let after = Clock {
                last_tick: if tick { now } else { c.last_tick },
                last_refresh: if refresh { now } else { c.last_refresh },
            };
            after.settled(now)
        }),
        ({
            let wait: int = if now - c.last_tick >= TICK_NANOS {
                0
            } else {
                TICK_NANOS - (now - c.last_tick)
            };
            &&& wait <= TICK_NANOS
            &&& now - c.last_tick < TICK_NANOS ==> now + wait - c.last_tick == TICK_NANOS
        }),
{
}

} // verus!
