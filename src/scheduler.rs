use vstd::prelude::*;

verus! {

/// The default tick interval, in milliseconds.
pub const TICK_RATE_MS: u64 = 200;

/// What the input scheduler sends to the orchestrator.
pub enum Event<I> {
    Input(I),
    Tick,
}

/// What the scheduler does after one poll of the terminal.
#[derive(PartialEq, Eq, Structural, Clone, Copy, Debug)]
pub enum PollOutcome {
    /// An event arrived: read it and forward it at once.
    ForwardInput,
    /// At least a full interval passed since the last tick: send one.
    SendTick,
    /// Nothing to do yet: poll again.
    Wait,
}

/// The time left until the next tick is due, never below zero.
pub open spec fn time_left(rate: u64, last_tick: u64, now: u64) -> u64 {
    if now - last_tick < rate {
        (rate - (now - last_tick)) as u64
    } else {
        0
    }
}

/// The decision after a poll at `now`, the last tick having gone out at `last_tick`.
pub open spec fn poll_decision(rate: u64, last_tick: u64, now: u64, event_found: bool) -> PollOutcome {
    if event_found {
        PollOutcome::ForwardInput
    } else if now - last_tick >= rate {
        PollOutcome::SendTick
    } else {
        PollOutcome::Wait
    }
}

/// The cadence of the input scheduler: the tick interval and the time (in
/// milliseconds on a monotonic clock) at which the last tick went out.
pub struct TickClock {
    pub tick_rate_ms: u64,
    pub last_tick_ms: u64,
}

impl TickClock {
    /// A clock whose interval starts at `now_ms`.
    pub fn new(tick_rate_ms: u64, now_ms: u64) -> (r: TickClock)
        ensures
            r.tick_rate_ms == tick_rate_ms,
            r.last_tick_ms == now_ms,
    {
        TickClock { tick_rate_ms, last_tick_ms: now_ms }
    }

    /// How long the next poll may wait for input: the time left until the
    /// next tick is due, so input never delays a tick and ticks never delay input.
    pub fn poll_timeout(&self, now_ms: u64) -> (r: u64)
        requires
            self.last_tick_ms <= now_ms,
        ensures
            r == time_left(self.tick_rate_ms, self.last_tick_ms, now_ms),
    {
        let elapsed = now_ms - self.last_tick_ms;
        if elapsed < self.tick_rate_ms {
            self.tick_rate_ms - elapsed
        } else {
            0
        }
    }

    /// The decision after a poll at `now_ms` that found an event or not.
    pub fn after_poll(&self, now_ms: u64, event_found: bool) -> (r: PollOutcome)
        requires
            self.last_tick_ms <= now_ms,
        ensures
            r == poll_decision(self.tick_rate_ms, self.last_tick_ms, now_ms, event_found),
    {
        if event_found {
            PollOutcome::ForwardInput
        } else if now_ms - self.last_tick_ms >= self.tick_rate_ms {
            PollOutcome::SendTick
        } else {
            PollOutcome::Wait
        }
    }

    /// Starts a new interval: a tick went out at `now_ms`.
    pub fn record_tick(&mut self, now_ms: u64)
        requires
            old(self).last_tick_ms <= now_ms,
        ensures
            final(self).last_tick_ms == now_ms,
            final(self).tick_rate_ms == old(self).tick_rate_ms,
    {
        self.last_tick_ms = now_ms;
    }
}

/// Without input, ticks keep their cadence: a poll that waits out its
/// timeout wakes exactly when the interval ends and then sends a tick (never
/// zero); and once a tick has gone out at `now`, no poll sends another
/// before a full interval has passed (never a burst).
pub proof fn lemma_tick_cadence(rate: u64, last_tick: u64, now: u64, later: u64)
    requires
        last_tick <= now <= later,
    ensures
        now + time_left(rate, last_tick, now) == if now - last_tick < rate {
            last_tick + rate
        } else {
            now as int
        },
        later >= last_tick + rate ==> poll_decision(rate, last_tick, later, false)
            == PollOutcome::SendTick,
        poll_decision(rate, now, later, false) == PollOutcome::SendTick ==> later - now >= rate,
        later < now + rate ==> poll_decision(rate, now, later, false) == PollOutcome::Wait,
{
}

} // verus!
