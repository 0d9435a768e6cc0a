use skattr_core::daemon::commands::{Direction, MessageRecord};
use skattr_core::daemon::dispatch::{
    check_passphrase_change, check_user_sendable, export_page_limit, next_after_id, next_before_id,
    passphrase_change_verdict, prune_mode, sender_direction, truncate_preview, validate_nickname,
    PruneMode,
};
use skattr_core::daemon::error_kind::DaemonErrorKind;
use skattr_core::daemon::hex::Hex16;
use skattr_core::envelope::Kind;
use skattr_core::contact::ContactCard;
use skattr_core::identity::{IdentityKey, PublicKey};

fn invalid(message: &str) -> DaemonErrorKind {
    DaemonErrorKind::InvalidArgument { message: message.to_string() }
}

fn record(row_id: i64) -> MessageRecord {
    MessageRecord {
        row_id,
        message_id: Hex16::from([2; 16]),
        contact: PublicKey([7; 32]),
        direction: Direction::Incoming,
        kind: Kind::Text { body: "x".into() },
        mls_generation: 0,
        ts_daemon_recv: 0,
        ts_envelope: 0,
    }
}

#[test]
fn list_contacts_truncates_preview_to_80_codepoints() {
    let long: String = "é".repeat(100);
    let p = truncate_preview(&long, 80);
    assert_eq!(p.chars().count(), 80);
    assert_eq!(p, "é".repeat(80));
    assert_eq!(truncate_preview("short", 80), "short");
    assert_eq!(truncate_preview("", 80), "");
}

#[test]
fn rename_contact_validates_nickname() {
    assert_eq!(validate_nickname(None), Ok(None));
    assert_eq!(
        validate_nickname(Some("  Alice \n".into())),
        Ok(Some("Alice".to_string()))
    );
    assert_eq!(
        validate_nickname(Some("   ".into())),
        Err(invalid("nickname must not be empty or whitespace-only"))
    );
    assert_eq!(
        validate_nickname(Some("x".repeat(65))),
        Err(invalid("nickname must be 64 characters or fewer"))
    );
    assert_eq!(validate_nickname(Some("ö".repeat(64))), Ok(Some("ö".repeat(64))));
}

#[test]
fn prune_history_rejects_both_before_and_keep_last() {
    let msg = "exactly one of before_ts_recv or keep_last must be Some";
    assert_eq!(prune_mode(Some(1), Some(2), true), Err(invalid(msg)));
    assert_eq!(prune_mode(None, None, true), Err(invalid(msg)));
}

#[test]
fn prune_history_keep_last_requires_contact() {
    assert_eq!(prune_mode(None, Some(3), false), Err(invalid("keep_last requires a contact")));
    assert_eq!(prune_mode(None, Some(3), true), Ok(PruneMode::KeepLast(3)));
    assert_eq!(prune_mode(Some(99), None, false), Ok(PruneMode::BeforeTs(99)));
}

#[test]
fn export_limit_is_capped_at_one_thousand() {
    assert_eq!(export_page_limit(5), 5);
    assert_eq!(export_page_limit(1000), 1000);
    assert_eq!(export_page_limit(u32::MAX), 1000);
}

#[test]
fn recent_messages_cursor_only_on_full_pages() {
    let page = vec![record(9), record(8), record(7)];
    assert_eq!(next_before_id(&page, 3), Some(7));
    assert_eq!(next_before_id(&page, 4), None);
    assert_eq!(next_before_id(&Vec::new(), 0), None);
}

#[test]
fn export_cursor_only_on_full_nonempty_pages() {
    assert_eq!(next_after_id(&[1, 2, 3], 3), Some(3));
    assert_eq!(next_after_id(&[1, 2], 3), None);
    assert_eq!(next_after_id(&[], 0), None);
}

#[test]
fn direction_follows_the_sender_column() {
    let me = PublicKey([5; 32]);
    assert_eq!(sender_direction(&[5; 32], &me), Direction::Outgoing);
    assert_eq!(sender_direction(&[6; 32], &me), Direction::Incoming);
    assert_eq!(sender_direction(&[5; 31], &me), Direction::Incoming);
    assert_eq!(sender_direction(&[], &PublicKey([0; 32])), Direction::Outgoing);
}

#[test]
fn contact_card_update_is_not_user_sendable() {
    let card = ContactCard::sign(&IdentityKey::from_secret_bytes([1; 32]), "o".into(), vec![], 1, 1, 0)
        .unwrap();
    assert_eq!(
        check_user_sendable(&Kind::ContactCardUpdate { card }),
        Err(invalid("ContactCardUpdate is not a user-sendable message kind"))
    );
    assert_eq!(check_user_sendable(&Kind::Text { body: "hi".into() }), Ok(()));
}

#[test]
fn change_passphrase_rejects_too_short_new() {
    assert_eq!(
        check_passphrase_change("old-passphrase", "short"),
        Err(invalid("new passphrase must be at least 8 characters"))
    );
}

#[test]
fn change_passphrase_rejects_weak_new() {
    assert_eq!(
        check_passphrase_change("old-passphrase", "password"),
        Err(invalid("new passphrase too weak (zxcvbn score < 3)"))
    );
}

#[test]
fn change_passphrase_rejects_equal_old_and_new() {
    let strong = "correct horse battery staple 1987!";
    assert_eq!(
        check_passphrase_change(strong, strong),
        Err(invalid("new passphrase must differ from current"))
    );
    assert_eq!(check_passphrase_change("old-passphrase", strong), Ok(()));
}

#[test]
fn passphrase_verdict_checks_in_order() {
    assert_eq!(
        passphrase_change_verdict("a", "1234567", 4),
        Err(invalid("new passphrase must be at least 8 characters"))
    );
    assert_eq!(
        passphrase_change_verdict("a", "12345678", 2),
        Err(invalid("new passphrase too weak (zxcvbn score < 3)"))
    );
    assert_eq!(
        passphrase_change_verdict("12345678", "12345678", 3),
        Err(invalid("new passphrase must differ from current"))
    );
    assert_eq!(passphrase_change_verdict("a", "12345678", 3), Ok(()));
}
