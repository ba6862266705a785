use lazyissues::scheduler::{PollOutcome, TickClock, TICK_RATE_MS};

#[test]
fn timeout_is_time_left_in_interval() {
    let clock = TickClock::new(TICK_RATE_MS, 1000);
    assert_eq!(clock.poll_timeout(1000), 200);
    assert_eq!(clock.poll_timeout(1150), 50);
    assert_eq!(clock.poll_timeout(1200), 0);
    assert_eq!(clock.poll_timeout(5000), 0);
}

#[test]
fn input_is_forwarded_at_once() {
    let clock = TickClock::new(TICK_RATE_MS, 1000);
    assert_eq!(clock.after_poll(1010, true), PollOutcome::ForwardInput);
    assert_eq!(clock.after_poll(1500, true), PollOutcome::ForwardInput);
}

#[test]
fn one_tick_per_quiet_interval() {
    let mut clock = TickClock::new(TICK_RATE_MS, 0);
    let mut ticks = Vec::new();
    let mut now = 0u64;
    while now < 1000 {
        let timeout = clock.poll_timeout(now);
        now += timeout.max(1);
        if clock.after_poll(now, false) == PollOutcome::SendTick {
            clock.record_tick(now);
            ticks.push(now);
        }
    }
    assert_eq!(ticks, vec![200, 400, 600, 800, 1000]);
    for pair in ticks.windows(2) {
        assert_eq!(pair[1] - pair[0], TICK_RATE_MS);
    }
}

#[test]
fn no_tick_before_the_interval_ends() {
    let clock = TickClock::new(TICK_RATE_MS, 100);
    assert_eq!(clock.after_poll(299, false), PollOutcome::Wait);
    assert_eq!(clock.after_poll(300, false), PollOutcome::SendTick);
}
