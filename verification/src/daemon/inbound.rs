//! The decisions inbound delivery makes about what arrived: card updates,
//! file manifests, invite expiry, and chunks fetched from a mailbox.

use vstd::prelude::*;
use crate::attachment::manifest::AttachmentManifest;
use crate::attachment::MAX_ATTACHMENT_BYTES;
use crate::contact::card::{card_verification, CardError, ContactCard};
use crate::digest::same_digest;
use crate::identity::PublicKey;

verus! {

/// Why an inbound card update was refused.
#[derive(Debug, Clone, Copy, PartialEq, Eq)]
pub enum CardUpdateRejection {
    /// The card itself did not verify.
    Card(CardError),
    /// The card names another identity than the authenticated sender: a peer
    /// cannot publish a card for someone else.
    SenderMismatch,
}

/// What checking a card update from `sender` at `now` gives.
pub open spec fn card_update_check(card: &ContactCard, sender: PublicKey, now: i64) -> Result<
    PublicKey,
    CardUpdateRejection,
> {
    match card_verification(card, now) {
        Err(e) => Err(CardUpdateRejection::Card(e)),
        Ok(identity) => if identity == sender {
            Ok(identity)
        } else {
            Err(CardUpdateRejection::SenderMismatch)
        },
    }
}

/// Check a card update received from the authenticated `sender`: the card
/// must verify and name the sender itself.
pub fn check_card_update(card: &ContactCard, sender: &PublicKey, now: i64) -> (r: Result<
    PublicKey,
    CardUpdateRejection,
>)
    ensures
        r == card_update_check(card, *sender, now),
{
    match card.verify(now) {
        Err(e) => Err(CardUpdateRejection::Card(e)),
        Ok(identity) => {
            if identity == *sender {
                Ok(identity)
            } else {
                Err(CardUpdateRejection::SenderMismatch)
            }
        },
    }
}

/// Whether an inbound file manifest is staged for fetching: it must announce
/// at most `MAX_ATTACHMENT_BYTES` and at least one chunk.
pub fn accepts_inbound_manifest(m: &AttachmentManifest) -> (b: bool)
    ensures
        b == (m.total_size <= MAX_ATTACHMENT_BYTES && m.chunks@.len() > 0),
{
    m.total_size <= MAX_ATTACHMENT_BYTES && m.chunks.len() > 0
}

/// Whether an invite that expires at `expires_at` has expired at `now`.
pub fn invite_expired(expires_at: i64, now: i64) -> (b: bool)
    ensures
        b == (expires_at < now),
{
    expires_at < now
}

/// Which pending attachment a fetched chunk belongs to: the first manifest
/// (in order) with a chunk of that hash, and that chunk's index. `None` when no
/// manifest knows the hash.
pub fn find_chunk_owner(manifests: &Vec<AttachmentManifest>, hash: &[u8; 32]) -> (r: Option<
    (usize, u32),
>)
    ensures
        r matches Some((i, index)) ==> {
            &&& i < manifests@.len()
            &&& exists|j: int|
                0 <= j < manifests@[i as int].chunks@.len() && (#[trigger] manifests@[i as int].chunks@[j]).ciphertext_hash@
                    == hash@ && manifests@[i as int].chunks@[j].index == index && forall|l: int|
                    0 <= l < j ==> (#[trigger] manifests@[i as int].chunks@[l]).ciphertext_hash@
                        != hash@
            &&& forall|k: int, j: int|
                0 <= k < i && 0 <= j < manifests@[k].chunks@.len() ==> (
                #[trigger] manifests@[k].chunks@[j]).ciphertext_hash@ != hash@
        },
        r is None ==> forall|k: int, j: int|
            0 <= k < manifests@.len() && 0 <= j < manifests@[k].chunks@.len() ==> (
            #[trigger] manifests@[k].chunks@[j]).ciphertext_hash@ != hash@,
{
    let mut i: usize = 0;
    while i < manifests.len()
        invariant
            i <= manifests@.len(),
            forall|k: int, j: int|
                0 <= k < i && 0 <= j < manifests@[k].chunks@.len() ==> (
                #[trigger] manifests@[k].chunks@[j]).ciphertext_hash@ != hash@,
        decreases manifests@.len() - i,
    {
        let chunks = &manifests[i].chunks;
        let mut j: usize = 0;
        while j < chunks.len()
            invariant
                i < manifests@.len(),
                chunks@ == manifests@[i as int].chunks@,
                j <= chunks@.len(),
                forall|k: int, l: int|
                    0 <= k < i && 0 <= l < manifests@[k].chunks@.len() ==> (
                    #[trigger] manifests@[k].chunks@[l]).ciphertext_hash@ != hash@,
                forall|l: int| 0 <= l < j ==> (#[trigger] chunks@[l]).ciphertext_hash@ != hash@,
            decreases chunks@.len() - j,
        {
            if same_digest(&chunks[j].ciphertext_hash, hash) {
                assert(manifests@[i as int].chunks@[j as int].ciphertext_hash@ == hash@);
                return Some((i, chunks[j].index));
            }
            j += 1;
        }
        i += 1;
    }
    None
}

/// What follows storing a chunk: the attachment is complete, a progress
/// event is due (every 8th chunk), or nothing.
#[derive(Debug, Clone, Copy, PartialEq, Eq)]
pub enum ChunkOutcome {
    /// Every chunk is held: finalize the attachment.
    Complete,
    /// Report `received` of `total` chunks.
    Progress { received: u32, total: u32 },
    /// Nothing to report yet.
    Quiet,
}

/// The outcome after a chunk was stored, with `received` distinct chunks now
/// held of the manifest's `total`.
pub fn chunk_outcome(received: i64, total: usize) -> (o: ChunkOutcome)
    ensures
        o == if received >= total {
            ChunkOutcome::Complete
        } else if received % 8 == 0 {
            ChunkOutcome::Progress { received: received as u32, total: total as u32 }
        } else {
            ChunkOutcome::Quiet
        },
{
    if received as i128 >= total as i128 {
        ChunkOutcome::Complete
    } else if received % 8 == 0 {
        ChunkOutcome::Progress { received: received as u32, total: total as u32 }
    } else {
        ChunkOutcome::Quiet
    }
}

} // verus!
