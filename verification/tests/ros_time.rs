use arm_backend::ros_time::{ros_time, time_ns, RosTime};

#[test]
fn stamps_split_into_seconds_and_nanoseconds() {
    assert_eq!(ros_time(1_500_000_000), RosTime { sec: 1, nanosec: 500_000_000 });
    assert_eq!(ros_time(0), RosTime { sec: 0, nanosec: 0 });
    // Times before the epoch round down to the earlier second.
    assert_eq!(ros_time(-1), RosTime { sec: -1, nanosec: 999_999_999 });
    assert_eq!(ros_time(-1_000_000_000), RosTime { sec: -1, nanosec: 0 });
}

#[test]
fn stamps_convert_back_to_the_same_time() {
    for t in [0i64, 1, -1, 1_700_000_000_123_456_789, -2_000_000_000_5] {
        assert_eq!(time_ns(&ros_time(t)), t);
    }
    let stamp = RosTime { sec: 42, nanosec: 7 };
    assert_eq!(time_ns(&stamp), 42_000_000_007);
    assert_eq!(ros_time(time_ns(&stamp)), stamp);
}

#[test]
fn seconds_beyond_32_bits_wrap() {
    let t = (i64::from(i32::MAX) + 1) * 1_000_000_000;
    assert_eq!(ros_time(t).sec, i32::MIN);
}
