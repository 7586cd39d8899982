use particle_sandbox::driver::Driver;
use particle_sandbox::driver::Tick;
use particle_sandbox::driver::NANOS_PER_SECOND;
use particle_sandbox::driver::NANOS_PER_TICK;
use particle_sandbox::driver::TICKS_PER_SECOND;

#[test]
fn nothing_is_due_before_a_tick_has_passed() {
    let driver = Driver::new(1_000);
    assert_eq!(driver.poll(1_000), Tick::Wait);
    assert_eq!(driver.poll(1_001), Tick::Wait);
    assert_eq!(driver.poll(1_000 + 2_083_333), Tick::Wait);
}

#[test]
fn a_step_is_due_once_a_tick_has_passed() {
    let driver = Driver::new(1_000);
    assert_eq!(driver.poll(1_000 + 2_083_334), Tick::Step);
    assert_eq!(driver.poll(1_000 + NANOS_PER_SECOND), Tick::Step);
    assert_eq!(driver.poll(u128::MAX), Tick::Step);
}

#[test]
fn a_clock_that_ran_backwards_is_a_fault() {
    let driver = Driver::new(1_000);
    assert_eq!(driver.poll(999), Tick::ClockFault);
    assert_eq!(driver.poll(0), Tick::ClockFault);
}

#[test]
fn polling_does_not_restart_the_count() {
    let driver = Driver::new(0);
    assert_eq!(driver.poll(3_000_000), Tick::Step);
    assert_eq!(driver.poll(3_000_000), Tick::Step);
    assert_eq!(driver.poll(1), Tick::Wait);
}

#[test]
fn a_restart_counts_from_the_new_time() {
    let mut driver = Driver::new(0);
    assert_eq!(driver.poll(5_000_000), Tick::Step);
    driver.restart(5_000_100);
    assert_eq!(driver.poll(5_000_100), Tick::Wait);
    assert_eq!(driver.poll(5_000_100 + NANOS_PER_TICK - 1), Tick::Wait);
    assert_eq!(driver.poll(5_000_100 + NANOS_PER_TICK), Tick::Step);
    assert_eq!(driver.poll(5_000_000), Tick::ClockFault);
}

#[test]
fn a_tick_is_the_four_hundred_and_eightieth_of_a_second() {
    assert_eq!(TICKS_PER_SECOND, 480);
    assert!(NANOS_PER_TICK * TICKS_PER_SECOND >= NANOS_PER_SECOND);
    assert!((NANOS_PER_TICK - 1) * TICKS_PER_SECOND < NANOS_PER_SECOND);
}

#[test]
fn four_hundred_and_eighty_ticks_take_a_second() {
    let mut driver = Driver::new(0);
    let mut steps = 0;
    let mut now = 0u128;
    while steps < 480 {
        now += 1;
        assert_eq!(driver.poll(now + NANOS_PER_TICK - 2), Tick::Wait);
        now += NANOS_PER_TICK - 1;
        assert_eq!(driver.poll(now), Tick::Step);
        driver.restart(now);
        steps += 1;
    }
    assert_eq!(now, 1_000_000_320);
}
