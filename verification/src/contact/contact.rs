//! The local contact record.

use vstd::prelude::*;
use crate::contact::card::ContactCard;
use crate::identity::PublicKey;

verus! {

/// Locally stored contact.
#[derive(Debug)]
pub struct Contact {
    /// Long-term Ed25519 identity pubkey.
    pub identity: PublicKey,
    /// User-set nickname; not cryptographically meaningful.
    pub display_name: Option<String>,
    /// Unix timestamp when the contact was first added.
    pub added_at: i64,
    /// Most recent verified card from this contact (onion + mailboxes + version).
    pub card: Option<ContactCard>,
}

} // verus!
