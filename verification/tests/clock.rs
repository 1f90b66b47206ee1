use arm_backend::clock::{monotonic_ns, now_ns, stamp_from_elapsed_nanos, stamp_from_epoch_nanos};

#[test]
fn epoch_stamps_are_nanoseconds_or_zero() {
    assert_eq!(stamp_from_epoch_nanos(None), 0);
    assert_eq!(stamp_from_epoch_nanos(Some(1_700_000_000_000_000_000)), 1_700_000_000_000_000_000);
    assert!(now_ns() > 1_600_000_000_000_000_000);
    let start = std::time::Instant::now();
    let first = monotonic_ns(&start);
    let second = monotonic_ns(&start);
    assert!(second >= first);
}

#[test]
fn elapsed_stamps_keep_the_low_64_bits() {
    assert_eq!(stamp_from_elapsed_nanos(0), 0);
    assert_eq!(stamp_from_elapsed_nanos(1_500_000_000), 1_500_000_000);
    assert_eq!(stamp_from_elapsed_nanos((1u128 << 64) + 7), 7);
}
