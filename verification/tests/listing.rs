use skattr_core::contact::{Contact, ContactCard};
use skattr_core::daemon::commands::{ContactSummary, MlsGroupStateLabel};
use skattr_core::daemon::events::MailboxStatus;
use skattr_core::daemon::listing::{
    group_state_label, mailbox_summary, sort_contact_summaries, summarize_contact, GroupLoad,
};
use skattr_core::envelope::Kind;
use skattr_core::identity::{IdentityKey, PublicKey};

fn summary(tag: u8, last_ts_recv: Option<u64>, added_at: u64) -> ContactSummary {
    ContactSummary {
        pubkey: PublicKey([tag; 32]),
        nickname: None,
        onion: String::new(),
        card_version: 0,
        added_at,
        unread_count: 0,
        last_message_preview: None,
        last_ts_recv,
        group_state: None,
        last_read_row_id: None,
        muted: false,
        peer_mailboxes: Vec::new(),
        welcome_failed: false,
    }
}

fn tags(v: &[ContactSummary]) -> Vec<u8> {
    v.iter().map(|s| s.pubkey.0[0]).collect()
}

#[test]
fn contacts_with_recent_messages_come_first() {
    let v = vec![
        summary(1, None, 50),
        summary(2, Some(100), 1),
        summary(3, Some(300), 1),
        summary(4, None, 70),
        summary(5, Some(100), 9),
    ];
    let sorted = sort_contact_summaries(v);
    assert_eq!(tags(&sorted), vec![3, 5, 2, 4, 1]);
}

#[test]
fn sort_keeps_ties_in_input_order() {
    let v = vec![
        summary(1, Some(10), 5),
        summary(2, None, 5),
        summary(3, Some(10), 5),
        summary(4, None, 5),
        summary(5, Some(10), 5),
    ];
    let sorted = sort_contact_summaries(v);
    assert_eq!(tags(&sorted), vec![1, 3, 5, 2, 4]);
    assert!(sort_contact_summaries(Vec::new()).is_empty());
}

#[test]
fn list_contacts_projects_muted_and_peer_mailboxes() {
    let signer = IdentityKey::from_secret_bytes([4; 32]);
    let card = ContactCard::sign(&signer, "peer.onion".into(), vec!["mb.onion".into()], 6, 60, 0)
        .unwrap();
    let contact = Contact {
        identity: signer.public(),
        display_name: Some("Bob".into()),
        added_at: 1_700_000_000,
        card: Some(card),
    };
    let latest = Kind::Text { body: "x".repeat(100) };
    let s = summarize_contact(
        &contact,
        3,
        Some(&latest),
        Some(1_700_000_100),
        group_state_label(Some(GroupLoad::Loaded)),
        Some(41),
        true,
        false,
    );
    assert_eq!(s.pubkey, signer.public());
    assert_eq!(s.nickname.as_deref(), Some("Bob"));
    assert_eq!(s.onion, "peer.onion");
    assert_eq!(s.card_version, 6);
    assert_eq!(s.added_at, 1_700_000_000);
    assert_eq!(s.unread_count, 3);
    assert_eq!(s.last_message_preview, Some("x".repeat(80)));
    assert_eq!(s.last_ts_recv, Some(1_700_000_100));
    assert_eq!(s.group_state, Some(MlsGroupStateLabel::Active));
    assert_eq!(s.last_read_row_id, Some(41));
    assert!(s.muted);
    assert_eq!(s.peer_mailboxes, vec!["mb.onion".to_string()]);
    assert!(!s.welcome_failed);
}

#[test]
fn contact_without_card_or_messages_projects_empty_fields() {
    let contact = Contact {
        identity: PublicKey([2; 32]),
        display_name: None,
        added_at: -4,
        card: None,
    };
    let file = Kind::File { manifest: vec![1] };
    let s = summarize_contact(&contact, 0, Some(&file), Some(-1), group_state_label(None), None, false, true);
    assert_eq!(s.onion, "");
    assert_eq!(s.card_version, 0);
    assert_eq!(s.added_at, 0);
    assert_eq!(s.last_message_preview, None);
    assert_eq!(s.last_ts_recv, Some(0));
    assert_eq!(s.group_state, None);
    assert!(s.peer_mailboxes.is_empty());
    assert!(s.welcome_failed);
}

#[test]
fn group_state_labels() {
    assert_eq!(group_state_label(Some(GroupLoad::Missing)), Some(MlsGroupStateLabel::PendingJoin));
    assert_eq!(group_state_label(Some(GroupLoad::Unreadable)), Some(MlsGroupStateLabel::Corrupt));
}

#[test]
fn mailbox_rows_project_to_summaries() {
    let s = mailbox_summary(3, "mb.onion".into(), MailboxStatus::Reachable, -10);
    assert_eq!(s.id, 3);
    assert_eq!(s.onion, "mb.onion");
    assert_eq!(s.status, MailboxStatus::Reachable);
    assert_eq!(s.registered_at, 0);
    assert_eq!(mailbox_summary(1, String::new(), MailboxStatus::Removed, 77).registered_at, 77);
}
