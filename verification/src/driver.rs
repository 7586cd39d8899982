//! The pace of the simulation: when the next tick is due.
//!
//! The driver itself reads no clock and steps no world. It is told the time,
//! says whether a tick is due, and is told again when the tick was made.
use vstd::prelude::*;

verus! {

/// How many ticks are made in a second.
pub const TICKS_PER_SECOND: u128 = 480;

/// How many nanoseconds a second has.
pub const NANOS_PER_SECOND: u128 = 1_000_000_000;

/// The least whole number of nanoseconds that is no shorter than one tick.
pub const NANOS_PER_TICK: u128 = 2_083_334;

/// What the driver asks for when it is told the time.
#[derive(Clone, Copy, Debug, PartialEq, Eq, Structural)]
pub enum Tick {
    /// Less than one tick has passed: do nothing.
    Wait,
    /// At least one tick has passed: step the world once.
    Step,
    /// The clock reads a time before the last tick.
    ClockFault,
}

/// Remembers when the last tick was made, in nanoseconds on a clock of the
/// caller's choice.
#[derive(Clone, Copy, Debug)]
pub struct Driver {
    last: u128,
}

/// What is asked for at the time `now` when the last tick was made at `last`.
pub open spec fn decide(last: u128, now: u128) -> Tick {
    if now < last {
        Tick::ClockFault
    } else if (now - last) * TICKS_PER_SECOND >= NANOS_PER_SECOND {
        Tick::Step
    } else {
        Tick::Wait
    }
}

impl Driver {
    /// When the last tick was made.
    pub closed spec fn last(&self) -> u128 {
        self.last
    }

    /// A driver that counts from `now`.
    pub fn new(now: u128) -> (driver: Driver)
        ensures
            driver.last() == now,
    {
        Driver { last: now }
    }

    /// Says what is due at the time `now`. The driver keeps counting from
    /// where it did.
    pub fn poll(&self, now: u128) -> (tick: Tick)
        ensures
            tick == decide(self.last(), now),
    {
        if now < self.last {
            Tick::ClockFault
        } else if now - self.last >= NANOS_PER_TICK {
            Tick::Step
        } else {
            Tick::Wait
        }
    }

    /// Counts from `now` on: to be called when a tick was made.
    pub fn restart(&mut self, now: u128)
        ensures
            final(self).last() == now,
    {
        self.last = now;
    }
}

/// A tick is due once a four-hundred-and-eightieth of a second has passed,
/// and not before.
pub proof fn law_tick_is_due(last: u128, now: u128)
    requires
        last <= now,
    ensures
        decide(last, now) == Tick::Step <==> now - last >= NANOS_PER_TICK,
        decide(last, now) != Tick::ClockFault,
{
}

/// Right after a restart nothing is due, and the first tick is due exactly
/// one tick's time later.
pub proof fn law_restart_waits(now: u128)
    requires
        now + NANOS_PER_TICK <= u128::MAX,
    ensures
        decide(now, now) == Tick::Wait,
        decide(now, (now + NANOS_PER_TICK - 1) as u128) == Tick::Wait,
        decide(now, (now + NANOS_PER_TICK) as u128) == Tick::Step,
{
}

} // verus!
