//! Clock readings for the daemon. A clock that reads before the Unix epoch,
//! or too far past it for the result type, gives 0, so callers never have to
//! handle a clock failure.

use vstd::prelude::*;

verus! {

/// The system clock's offset from the Unix epoch, as whole seconds and the
/// nanoseconds past them (`SystemTime::now().duration_since(UNIX_EPOCH)`);
/// `None` when the clock reads before the epoch.
///
/// Trusted: the reading depends on the time, so only what `Duration`
/// guarantees of every reading is stated: the nanoseconds are below 10^9.
#[verifier::external_body]
fn system_time_since_epoch() -> (d: Option<(u64, u32)>)
    ensures
        d matches Some(p) ==> p.1 < 1_000_000_000,
{
    match std::time::SystemTime::now().duration_since(std::time::UNIX_EPOCH) {
        Ok(d) => Some((d.as_secs(), d.subsec_nanos())),
        Err(_) => None,
    }
}

/// Whole milliseconds of a reading.
pub open spec fn reading_millis(secs: u64, nanos: u32) -> int {
    secs * 1000 + nanos / 1_000_000
}

/// Unix seconds of a clock reading: 0 when there is none or it exceeds `i64`.
pub open spec fn seconds_of(d: Option<(u64, u32)>) -> i64 {
    match d {
        Some((secs, _)) => if secs <= i64::MAX {
            secs as i64
        } else {
            0
        },
        None => 0,
    }
}

/// Unix milliseconds of a clock reading: 0 when there is none or it exceeds `i64`.
pub open spec fn millis_of(d: Option<(u64, u32)>) -> i64 {
    match d {
        Some((secs, nanos)) => if reading_millis(secs, nanos) <= i64::MAX {
            reading_millis(secs, nanos) as i64
        } else {
            0
        },
        None => 0,
    }
}

/// Unix seconds of a clock reading, saturating to 0.
pub fn unix_seconds_from(d: Option<(u64, u32)>) -> (r: i64)
    ensures
        r == seconds_of(d),
{
    match d {
        Some((secs, _)) => if secs <= i64::MAX as u64 {
            secs as i64
        } else {
            0
        },
        None => 0,
    }
}

/// Unix milliseconds of a clock reading, saturating to 0.
pub fn unix_millis_from(d: Option<(u64, u32)>) -> (r: i64)
    requires
        d matches Some(p) ==> p.1 < 1_000_000_000,
    ensures
        r == millis_of(d),
{
    match d {
        Some((secs, nanos)) => {
            let ms: u128 = secs as u128 * 1000 + (nanos / 1_000_000) as u128;
            if ms <= i64::MAX as u128 {
                ms as i64
            } else {
                0
            }
        },
        None => 0,
    }
}

/// Unix seconds from the system clock, saturating to 0 on error.
pub fn now_unix_seconds() -> (r: i64)
    ensures
        r >= 0,
{
    unix_seconds_from(system_time_since_epoch())
}

/// Current Unix time in milliseconds (display and scheduling only; not an
/// authoritative ordering); 0 if the clock reads before the epoch.
pub fn now_unix_millis() -> (r: i64)
    ensures
        r >= 0,
{
    unix_millis_from(system_time_since_epoch())
}

/// Milliseconds of a clock reading as a log timestamp: the low 64 bits of
/// the millisecond count (0 when there is no reading).
pub fn log_millis_from(d: Option<(u64, u32)>) -> (r: u64)
    requires
        d matches Some(p) ==> p.1 < 1_000_000_000,
    ensures
        r as int == match d {
            Some((secs, nanos)) => reading_millis(secs, nanos) % 0x1_0000_0000_0000_0000,
            None => 0,
        },
{
    match d {
        Some((secs, nanos)) => {
            let ms: u128 = secs as u128 * 1000 + (nanos / 1_000_000) as u128;
            (ms % 0x1_0000_0000_0000_0000) as u64
        },
        None => 0,
    }
}

/// Current Unix time in milliseconds for log records.
pub fn now_unix_ms() -> u64 {
    log_millis_from(system_time_since_epoch())
}

} // verus!
