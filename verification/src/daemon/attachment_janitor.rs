//! When the janitor gives up on an inbound transfer: one whose chunk
//! directory has not been written to for `STALL_GRACE_SECS` is auto-failed
//! (its chunks are kept for a retry).

use vstd::prelude::*;

verus! {

/// How long an inbound transfer may go without a new chunk before it is
/// auto-failed: 14 days, twice the 7 days a mailbox holds a chunk deposit,
/// so a transfer still waiting on mailbox delivery is never failed.
pub const STALL_GRACE_SECS: u64 = 1_209_600;

/// Whether a transfer whose chunk directory was last written `age` ago
/// (whole seconds and nanoseconds past them; `None` when the write time lies
/// in the future, i.e. clock skew) has stalled: only an age strictly longer
/// than the grace period counts.
pub fn is_stalled(age: Option<(u64, u32)>) -> (b: bool)
    ensures
        b == match age {
            None => false,
            Some((secs, nanos)) => secs > STALL_GRACE_SECS || (secs == STALL_GRACE_SECS && nanos
                > 0),
        },
{
    match age {
        None => false,
        Some((secs, nanos)) => secs > STALL_GRACE_SECS || (secs == STALL_GRACE_SECS && nanos > 0),
    }
}

} // verus!
