use skattr_core::daemon::attachment_janitor::{is_stalled, STALL_GRACE_SECS};
use skattr_core::attachment::manifest::{AttachmentManifest, ChunkRef};
use skattr_core::contact::card::CardError;
use skattr_core::contact::ContactCard;
use skattr_core::daemon::inbound::{
    accepts_inbound_manifest, check_card_update, chunk_outcome, find_chunk_owner, invite_expired,
    CardUpdateRejection, ChunkOutcome,
};
use skattr_core::identity::{IdentityKey, PublicKey};

fn manifest(hashes: &[[u8; 32]], total_size: u64) -> AttachmentManifest {
    AttachmentManifest {
        manifest_version: 1,
        attachment_id: [0; 16],
        filename: "f".into(),
        mime: "m".into(),
        total_size,
        chunk_size: 49_152,
        file_key: [0; 32],
        chunks: hashes
            .iter()
            .enumerate()
            .map(|(i, h)| ChunkRef { index: 10 + i as u32, ciphertext_hash: *h, len: 1 })
            .collect(),
    }
}

#[test]
fn contact_card_update_with_mismatched_identity_is_rejected() {
    let alice = IdentityKey::from_secret_bytes([1; 32]);
    let card = ContactCard::sign(&alice, "a.onion".into(), vec![], 2, 100, 0).unwrap();
    assert_eq!(check_card_update(&card, &alice.public(), 50), Ok(alice.public()));
    assert_eq!(
        check_card_update(&card, &PublicKey([9; 32]), 50),
        Err(CardUpdateRejection::SenderMismatch)
    );
    assert_eq!(
        check_card_update(&card, &alice.public(), 101),
        Err(CardUpdateRejection::Card(CardError::Expired))
    );
}

#[test]
fn oversize_or_empty_manifests_are_not_staged() {
    assert!(accepts_inbound_manifest(&manifest(&[[1; 32]], 10)));
    assert!(!accepts_inbound_manifest(&manifest(&[], 10)));
    assert!(!accepts_inbound_manifest(&manifest(&[[1; 32]], 104_857_601)));
    assert!(accepts_inbound_manifest(&manifest(&[[1; 32]], 104_857_600)));
}

#[test]
fn dispatch_welcome_rejects_expired_invite() {
    assert!(invite_expired(99, 100));
    assert!(!invite_expired(100, 100));
}

#[test]
fn chunk_is_matched_to_first_manifest_knowing_its_hash() {
    let ms = vec![manifest(&[[1; 32], [2; 32]], 2), manifest(&[[3; 32], [2; 32]], 2)];
    assert_eq!(find_chunk_owner(&ms, &[2; 32]), Some((0, 11)));
    assert_eq!(find_chunk_owner(&ms, &[3; 32]), Some((1, 10)));
    assert_eq!(find_chunk_owner(&ms, &[4; 32]), None);
}

#[test]
fn chunk_outcomes() {
    assert_eq!(chunk_outcome(3, 3), ChunkOutcome::Complete);
    assert_eq!(chunk_outcome(8, 20), ChunkOutcome::Progress { received: 8, total: 20 });
    assert_eq!(chunk_outcome(9, 20), ChunkOutcome::Quiet);
}

#[test]
fn transfers_stall_only_after_the_grace_period() {
    assert!(!is_stalled(None));
    assert!(!is_stalled(Some((STALL_GRACE_SECS, 0))));
    assert!(is_stalled(Some((STALL_GRACE_SECS, 1))));
    assert!(is_stalled(Some((STALL_GRACE_SECS + 1, 0))));
    assert!(!is_stalled(Some((3600, 0))));
}
