//! Time stamps: wall-clock nanoseconds since the Unix epoch (0 for a clock set before it)
//! and monotonic nanoseconds since a start instant.
use vstd::prelude::*;
use std::time::{Duration, Instant, SystemTime};

verus! {

#[verifier::external_type_specification]
#[verifier::external_body]
pub struct ExSystemTime(std::time::SystemTime);

#[verifier::external_type_specification]
#[verifier::external_body]
pub struct ExInstant(std::time::Instant);

/// The current wall-clock time (std's `SystemTime::now`).
///
/// Trusted: the value depends on the machine's clock, so nothing is stated of it.
#[verifier::external_body]
fn system_time_now() -> (res: SystemTime) {
    SystemTime::now()
}

/// The time elapsed since the Unix epoch, or `None` for a time before it (std's
/// `SystemTime::duration_since(UNIX_EPOCH)`).
///
/// Trusted: the result depends on the time given, which Verus cannot see into; nothing
/// is stated of it.
#[verifier::external_body]
fn since_unix_epoch(time: &SystemTime) -> (res: Option<Duration>) {
    time.duration_since(std::time::UNIX_EPOCH).ok()
}

/// The whole nanoseconds of a duration (std's `Duration::as_nanos`).
///
/// Trusted: a duration is opaque to Verus; nothing is stated of the result.
#[verifier::external_body]
fn duration_nanos(duration: &Duration) -> (res: u128) {
    duration.as_nanos()
}

/// The time elapsed since an instant (std's `Instant::elapsed`).
///
/// Trusted: the result depends on the monotonic clock; nothing is stated of it.
#[verifier::external_body]
fn elapsed_since(start: &Instant) -> (res: Duration) {
    start.elapsed()
}

/// Nanoseconds since the epoch as a signed 64-bit time stamp: the low 64 bits of the
/// count (`as i64`), or 0 when the clock reads before the epoch.
pub open spec fn epoch_stamp(nanos: Option<u128>) -> i64 {
    match nanos {
        Some(n) => n as i64,
        None => 0,
    }
}

/// The time stamp of a reading of nanoseconds since the epoch.
pub fn stamp_from_epoch_nanos(nanos: Option<u128>) -> (res: i64)
    ensures
        res == epoch_stamp(nanos),
{
    match nanos {
        Some(n) => n as i64,
        None => 0,
    }
}

/// The current wall-clock time in nanoseconds since the Unix epoch (0 if the clock reads
/// before it).
pub fn now_ns() -> (res: i64)
    ensures
        exists|nanos: Option<u128>| res == #[trigger] epoch_stamp(nanos),
{
    let now = system_time_now();
    let nanos = match since_unix_epoch(&now) {
        Some(d) => Some(duration_nanos(&d)),
        None => None,
    };
    let res = stamp_from_epoch_nanos(nanos);
    assert(res == epoch_stamp(nanos));
    res
}

/// The low 64 bits of a count (`as u64`).
pub open spec fn low_bits(n: u128) -> u64 {
    n as u64
}

/// The monotonic time stamp of a reading of nanoseconds elapsed: its low 64 bits.
pub fn stamp_from_elapsed_nanos(nanos: u128) -> (res: u64)
    ensures
        res == low_bits(nanos),
{
    nanos as u64
}

/// Nanoseconds elapsed since `start` (the node's start), in 64 bits (`as u64`).
pub fn monotonic_ns(start: &Instant) -> (res: u64)
    ensures
        exists|nanos: u128| res == #[trigger] low_bits(nanos),
{
    let elapsed = elapsed_since(start);
    let nanos = duration_nanos(&elapsed);
    let res = stamp_from_elapsed_nanos(nanos);
    assert(res == low_bits(nanos));
    res
}

} // verus!
