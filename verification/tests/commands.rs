use skattr_core::daemon::commands::{ConfigPatch, Direction, MessageRecord};
use skattr_core::envelope::{Envelope, Kind, MessageId};
use skattr_core::identity::PublicKey;

#[test]
fn message_record_project_uses_real_columns_not_placeholders() {
    let env = Envelope {
        v: 1,
        id: MessageId([0xAA; 16]),
        ts: 1_700_000_000,
        reply_to: None,
        kind: Kind::Text { body: "hi".into() },
    };
    let contact = PublicKey([0x33; 32]);

    let rec = MessageRecord::project(42, &env, contact, 7, 1_700_000_500, Direction::Incoming);

    assert_eq!(rec.mls_generation, 7);
    assert_eq!(rec.ts_daemon_recv, 1_700_000_500);
    assert_eq!(rec.ts_envelope, 1_700_000_000);
    assert!(matches!(rec.direction, Direction::Incoming));
    assert!(matches!(rec.kind, Kind::Text { .. }));
    assert_eq!(rec.contact.0, [0x33; 32]);
}

#[test]
fn message_record_project_clamps_negative_receive_time() {
    let env = Envelope {
        v: 1,
        id: MessageId([1; 16]),
        ts: -5,
        reply_to: None,
        kind: Kind::File { manifest: vec![1, 2, 3] },
    };
    let rec = MessageRecord::project(9, &env, PublicKey([0; 32]), 0, -1, Direction::Outgoing);
    assert_eq!(rec.ts_daemon_recv, 0);
    assert_eq!(rec.ts_envelope, -5);
    assert_eq!(rec.row_id, 9);
    assert_eq!(rec.message_id.0, [1; 16]);
    match rec.kind {
        Kind::File { manifest } => assert_eq!(manifest, vec![1, 2, 3]),
        _ => panic!("kind changed"),
    }
}

#[test]
fn config_patch_default_is_all_none() {
    let p = ConfigPatch::default();
    assert!(p.history_retention_days.is_none());
    assert!(p.notification_mode.is_none());
    assert!(p.close_to_tray.is_none());
}
