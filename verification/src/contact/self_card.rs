//! This daemon's own card: the version that the store hands out is checked
//! and the card carrying the current onion and mailboxes is signed.

use vstd::prelude::*;
use crate::contact::card::{CardError, ContactCard, ContactCardBodyView, body_bytes, strings_view};
use crate::identity::{ed25519_public_of, ed25519_signature_of, IdentityKey};

verus! {

/// Default card lifetime: 7 days, in seconds. Recipients have ample time to
/// fetch a newer card from a mailbox before this one goes stale.
pub const DEFAULT_TTL_SECS: u64 = 604_800;

/// Why the next self-card could not be built.
#[derive(Debug, Clone, Copy, PartialEq, Eq)]
pub enum SelfCardError {
    /// The stored version counter is negative, so no `u64` version exists.
    VersionOverflow,
    /// Signing failed.
    Card(CardError),
}

/// Sign the self-card of version `bumped_version`, the value the store's
/// version counter holds right after it was incremented for this card.
pub fn build_next_self_card(
    signer: &IdentityKey,
    onion: String,
    mailboxes: Vec<String>,
    bumped_version: i64,
    ttl_secs: u64,
    now: i64,
) -> (r: Result<ContactCard, SelfCardError>)
    ensures
        bumped_version < 0 ==> r == Err::<ContactCard, SelfCardError>(
            SelfCardError::VersionOverflow,
        ),
        bumped_version >= 0 && now + ttl_secs > i64::MAX ==> r == Err::<
            ContactCard,
            SelfCardError,
        >(SelfCardError::Card(CardError::ExpiryOverflow)),
        r matches Ok(card) ==> {
            &&& bumped_version >= 0
            &&& now + ttl_secs <= i64::MAX
            &&& card.body@ == (ContactCardBodyView {
                identity: ed25519_public_of(signer.secret_bytes()),
                onion: onion@,
                mailboxes: strings_view(mailboxes@),
                version: bumped_version as u64,
                expires_at: (now + ttl_secs) as i64,
            })
            &&& card.signature.0@ == ed25519_signature_of(
                signer.secret_bytes(),
                body_bytes(card.body@),
            )
        },
        bumped_version >= 0 && now + ttl_secs <= i64::MAX ==> r is Ok,
{
    if bumped_version < 0 {
        return Err(SelfCardError::VersionOverflow);
    }
    match ContactCard::sign(signer, onion, mailboxes, bumped_version as u64, ttl_secs, now) {
        Ok(card) => Ok(card),
        Err(e) => Err(SelfCardError::Card(e)),
    }
}

} // verus!
