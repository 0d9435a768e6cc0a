//! Onion / mailbox address rotation.
//!
//! Rotation happens by publishing a newer [`super::ContactCard`] with a higher
//! `version`. During a grace period the old onion service stays published so
//! in-flight connections don't break; after it, the old service is withdrawn.

use vstd::prelude::*;

verus! {

/// Default grace period, in seconds (24 h), during which the old onion stays
/// published.
pub const DEFAULT_GRACE_SECS: u64 = 86_400;

} // verus!
