//! Stable wire enum projecting library errors onto the IPC surface.

use vstd::prelude::*;

verus! {

/// Typed categories a CLI can act on.
#[derive(Debug, Clone, PartialEq, Eq)]
pub enum DaemonErrorKind {
    /// No contact matches the given pubkey or prefix.
    ContactNotFound,
    /// A prefix matched more than one contact.
    ContactAmbiguous {
        /// Number of contacts that matched the prefix.
        matches: u32,
    },
    /// The invite's `expires_at` is in the past.
    InviteExpired,
    /// The invite's single-use KeyPackage has already been consumed.
    InviteConsumed,
    /// The invite's Ed25519 signature did not verify.
    InviteSignatureInvalid,
    /// MLS group state is unreadable / inconsistent.
    GroupCorrupt,
    /// The daemon's inline wait expired before an ACK arrived.
    DeliveryTimeout,
    /// Tor is still bootstrapping; retry shortly.
    TorNotReady,
    /// Storage-layer failure that the CLI can't disambiguate further.
    StorageError,
    /// Search query was empty after escaping or the engine rejected it.
    SearchSyntax,
    /// A request argument failed validation; `message` says which and why.
    InvalidArgument { message: String },
    /// The caller failed an authorization check (such as a wrong passphrase).
    Unauthorized,
}

} // verus!
