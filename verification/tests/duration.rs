use ableton_link::link::duration::Duration;
use ableton_link::link::payload::PayloadEntryHeader;

#[test]
fn spans_are_made_and_counted() {
    assert_eq!(Duration::microseconds(1_500).num_microseconds(), Some(1_500));
    assert_eq!(Duration::microseconds(-1_500).num_microseconds(), Some(-1_500));
    assert_eq!(Duration::milliseconds(-3), Duration::microseconds(-3_000));
    assert_eq!(Duration::zero().num_microseconds(), Some(0));
    assert!(Duration::zero().is_zero());
    assert!(!Duration::microseconds(1).is_zero());
}

#[test]
fn parts_of_a_span_have_nonnegative_nanoseconds() {
    assert_eq!(Duration::microseconds(-1).parts(), (-1, 999_999_000));
    assert_eq!(Duration::microseconds(2_000_001).parts(), (2, 1_000));
    assert_eq!(Duration::new(-1, 999_999_000), Some(Duration::microseconds(-1)));
}

#[test]
fn counting_drops_fractions_of_a_microsecond() {
    assert_eq!(Duration::new(0, 1_999).unwrap().num_microseconds(), Some(1));
    assert_eq!(Duration::new(-1, 999_998_001).unwrap().num_microseconds(), Some(-1));
}

#[test]
fn spans_out_of_range_are_refused() {
    assert!(Duration::new(0, 1_000_000_000).is_none());
    assert!(Duration::new(i64::MAX, 0).is_none());
    assert!(Duration::new(i64::MIN, 0).is_none());
    let longest = Duration::new(i64::MAX / 1000, 807_000_000).unwrap();
    assert_eq!(longest.num_microseconds(), None);
    assert!(Duration::new(i64::MAX / 1000, 807_000_001).is_none());
}

#[test]
fn spans_are_added_subtracted_and_compared() {
    let a = Duration::microseconds(1_500_000);
    let b = Duration::microseconds(-700_001);
    assert_eq!(a.plus(b), Duration::microseconds(799_999));
    assert_eq!(a.minus(b), Duration::microseconds(2_200_001));
    assert_eq!(b.minus(a), Duration::microseconds(-2_200_001));
    assert!(b.shorter_than(a));
    assert!(!a.shorter_than(b));
    assert!(!a.shorter_than(a));
}

#[test]
fn header_is_eight_bytes_in_network_order() {
    let header = PayloadEntryHeader { key: 0x01020304, size: 0x0A0B };
    assert_eq!(header.encode().unwrap(), vec![1, 2, 3, 4, 0, 0, 0x0A, 0x0B]);
}
