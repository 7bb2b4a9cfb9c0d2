use ableton_link::link::duration::Duration;
use ableton_link::platform::{GenericClock, LinuxClock};

#[test]
fn linux_clock_counts_whole_microseconds() {
    let clock = LinuxClock::new();
    assert_eq!(clock, LinuxClock::default());
    assert_eq!(clock.micros(2, 1_999), Duration::microseconds(2_000_001));
    assert_eq!(clock.ticks(2, 1_999), 2_000_001);
    assert_eq!(clock.micros(0, 0), Duration::zero());
}

#[test]
fn generic_clock_counts_from_its_start() {
    let clock = GenericClock::new(1_000);
    assert_eq!(clock.micros(1_500), Duration::microseconds(500));
    assert_eq!(clock.ticks(1_500), 500);
    assert_eq!(clock.micros(900), Duration::zero());
    assert_eq!(clock.ticks(900), 0);
}

#[test]
fn every_number_of_ticks_survives_conversion() {
    let linux = LinuxClock::new();
    let generic = GenericClock::new(0);
    for ticks in [0u64, 1, 999, 1 << 40, i64::MAX as u64, 1 << 63, u64::MAX] {
        assert_eq!(linux.micros_to_ticks(linux.ticks_to_micros(ticks)), ticks);
        assert_eq!(generic.micros_to_ticks(generic.ticks_to_micros(ticks)), ticks);
    }
    assert_eq!(linux.ticks_to_micros(u64::MAX), Duration::microseconds(-1));
}

#[test]
fn whole_microseconds_survive_conversion() {
    let clock = LinuxClock::new();
    for micros in [0i64, -5, 123_456_789] {
        let span = Duration::microseconds(micros);
        assert_eq!(clock.ticks_to_micros(clock.micros_to_ticks(span)), span);
    }
}

#[test]
fn uncountable_span_has_no_ticks() {
    let long = Duration::new(i64::MAX / 1000, 0).unwrap();
    assert_eq!(LinuxClock::new().micros_to_ticks(long), 0);
}
