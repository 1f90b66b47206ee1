//! ROS time stamps (whole seconds and nanoseconds within the second) and the nodes'
//! nanosecond time stamps.
use vstd::prelude::*;

verus! {

/// A ROS time stamp.
#[derive(PartialEq, Eq, Structural, Clone, Copy, Debug)]
pub struct RosTime {
    pub sec: i32,
    pub nanosec: u32,
}

pub open spec fn nanos_per_second() -> int {
    1_000_000_000
}

/// The ROS stamp of a nanosecond time: the floor of the seconds (kept to 32 bits, as
/// `as i32` does) and the nanoseconds past that second.
pub open spec fn ros_time_of(time_ns: i64) -> RosTime {
    RosTime {
        sec: (time_ns as int / nanos_per_second()) as i32,
        nanosec: (time_ns as int % nanos_per_second()) as u32,
    }
}

/// The nanosecond time of a ROS stamp.
pub open spec fn nanos_of(time: RosTime) -> int {
    time.sec * nanos_per_second() + time.nanosec
}

/// The ROS stamp of a nanosecond time stamp.
pub fn ros_time(time_ns: i64) -> (res: RosTime)
    ensures
        res == ros_time_of(time_ns),
{
    let seconds = time_ns.checked_div_euclid(1_000_000_000).unwrap();
    let nanos = time_ns.checked_rem_euclid(1_000_000_000).unwrap();
    RosTime { sec: seconds as i32, nanosec: nanos as u32 }
}

/// The nanosecond time stamp of a ROS stamp.
pub fn time_ns(time: &RosTime) -> (res: i64)
    ensures
        res == nanos_of(*time),
{
    (time.sec as i64) * 1_000_000_000 + (time.nanosec as i64)
}

/// Converting a nanosecond time to a ROS stamp and back gives the time again, for every
/// time whose seconds fit the stamp's 32 bits.
pub proof fn ros_time_round_trips(t: i64)
    requires
        i32::MIN <= t as int / nanos_per_second() <= i32::MAX,
    ensures
        nanos_of(ros_time_of(t)) == t,
{
    vstd::arithmetic::div_mod::lemma_fundamental_div_mod(t as int, nanos_per_second());
}

/// A stamp whose nanoseconds lie within its second converts to a time and back to the
/// same stamp.
pub proof fn stamps_round_trip(time: RosTime)
    requires
        time.nanosec < nanos_per_second(),
    ensures
        ros_time_of(nanos_of(time) as i64) == time,
{
    let t = nanos_of(time);
    assert(i64::MIN <= t <= i64::MAX) by (nonlinear_arith)
        requires
            t == time.sec * 1_000_000_000 + time.nanosec,
            i32::MIN <= time.sec <= i32::MAX,
            0 <= time.nanosec < 1_000_000_000,
    ;
    vstd::arithmetic::div_mod::lemma_fundamental_div_mod_converse(t, nanos_per_second(), time.sec as int, time.nanosec as int);
}

} // verus!
