use skattr_core::daemon::events::{DeliveryStatus, Event, MailboxStatus, TorStatus};
use skattr_core::daemon::ipc::codec::{check_read_len, decode_length_prefix, encode_frame, frame_header, CodecError};
use skattr_core::daemon::ipc::server::{check_peer_uid, event_matches, peer_id_from, peer_rejection, PeerAuthError};
use skattr_core::daemon::ipc::wire::{EventFilter, MAX_IPC_BODY};
use skattr_core::envelope::MessageId;
use skattr_core::identity::PublicKey;

#[test]
fn server_check_peer_uid_accepts_matching_uid() {
    assert!(check_peer_uid(Some(1000), 1000).is_ok());
}

#[test]
fn server_check_peer_uid_rejects_mismatched_uid() {
    assert!(check_peer_uid(Some(999), 1000).is_err());
}

#[test]
fn server_check_peer_uid_rejects_missing_uid() {
    assert!(check_peer_uid(None, 1000).is_err());
}

#[test]
fn unix_check_peer_uid_accepts_matching_uid() {
    assert!(check_peer_uid(Some(1000), 1000).is_ok());
}

#[test]
fn unix_check_peer_uid_rejects_mismatched_uid() {
    assert!(check_peer_uid(Some(999), 1000).is_err());
}

#[test]
fn unix_check_peer_uid_rejects_missing_uid() {
    assert!(check_peer_uid(None, 1000).is_err());
}

#[test]
fn check_peer_uid_rejection_is_permission_denied() {
    let err = check_peer_uid(Some(1), 2).unwrap_err();
    match err {
        PeerAuthError::PermissionDenied(msg) => assert_eq!(msg, "peer uid 1 != expected 2"),
    }
    match check_peer_uid(None, 2).unwrap_err() {
        PeerAuthError::PermissionDenied(msg) => assert_eq!(msg, "peer uid unavailable"),
    }
}

#[test]
fn event_filter_mailboxes_matches_only_mailbox_status() {
    let mailbox_event = Event::MailboxStatusChanged {
        mailbox_id: 1,
        status: MailboxStatus::Reachable,
    };
    assert!(event_matches(&mailbox_event, Some(&EventFilter::Mailboxes)));

    let tor_event = Event::TorStatusChanged(TorStatus::Ready);
    assert!(!event_matches(&tor_event, Some(&EventFilter::Mailboxes)));
}

#[test]
fn event_filter_delivery_matches_only_delivery_status() {
    let delivery_event = Event::DeliveryStatusChanged {
        message: MessageId([0; 16]),
        status: DeliveryStatus::Deposited,
    };
    assert!(event_matches(&delivery_event, Some(&EventFilter::Delivery)));

    let tor_event = Event::TorStatusChanged(TorStatus::Ready);
    assert!(!event_matches(&tor_event, Some(&EventFilter::Delivery)));
}

#[test]
fn event_filter_contact_matches_contact_card_received_for_same_peer() {
    let alice = PublicKey([7; 32]);
    let bob = PublicKey([8; 32]);
    let card_event = Event::ContactCardReceived {
        contact: alice,
        version: 1,
    };
    assert!(event_matches(&card_event, Some(&EventFilter::Contact(alice))));
    assert!(!event_matches(&card_event, Some(&EventFilter::Contact(bob))));
}

#[test]
fn event_filter_all_matches_new_events() {
    let mailbox_event = Event::MailboxStatusChanged {
        mailbox_id: 1,
        status: MailboxStatus::Reachable,
    };
    assert!(event_matches(&mailbox_event, Some(&EventFilter::All)));

    let card_event = Event::ContactCardReceived {
        contact: PublicKey([7; 32]),
        version: 1,
    };
    assert!(event_matches(&card_event, Some(&EventFilter::All)));
}

#[test]
fn no_filter_matches_nothing() {
    let tor_event = Event::TorStatusChanged(TorStatus::Idle);
    assert!(!event_matches(&tor_event, None));
}

#[test]
fn frame_header_round_trips_through_decode() {
    for n in [1u32, 255, 256, 65_536, MAX_IPC_BODY] {
        assert_eq!(decode_length_prefix(frame_header(n as usize).unwrap()), n);
    }
    assert_eq!(frame_header(0x000F_0304).unwrap(), [0, 0x0F, 3, 4]);
    assert!(matches!(
        frame_header(MAX_IPC_BODY as usize + 1),
        Err(CodecError::FrameTooLarge { .. })
    ));
}

#[test]
fn read_len_rejects_empty_and_oversize_frames() {
    assert!(matches!(check_read_len(0), Err(CodecError::EmptyFrame)));
    match check_read_len(MAX_IPC_BODY + 1) {
        Err(CodecError::FrameTooLarge { got, max }) => {
            assert_eq!(got, MAX_IPC_BODY + 1);
            assert_eq!(max, MAX_IPC_BODY);
        }
        other => panic!("unexpected {other:?}"),
    }
    assert_eq!(check_read_len(MAX_IPC_BODY).unwrap(), MAX_IPC_BODY);
}

#[test]
fn peer_rejection_names_the_uids() {
    assert_eq!(peer_rejection(Some(5), 5), None);
    assert_eq!(peer_rejection(Some(999), 1000), Some("peer uid 999 != expected 1000".to_string()));
    assert_eq!(peer_rejection(None, 1000), Some("peer uid unavailable".to_string()));
}

#[test]
fn peer_id_falls_back_from_proc_to_env_to_zero() {
    assert_eq!(peer_id_from(Some(7), Some("9")), 7);
    assert_eq!(peer_id_from(None, Some("1000")), 1000);
    assert_eq!(peer_id_from(None, Some("+12")), 12);
    assert_eq!(peer_id_from(None, Some("4294967295")), u32::MAX);
    assert_eq!(peer_id_from(None, Some("4294967296")), 0);
    assert_eq!(peer_id_from(None, Some("-1")), 0);
    assert_eq!(peer_id_from(None, Some("12a")), 0);
    assert_eq!(peer_id_from(None, Some("")), 0);
    assert_eq!(peer_id_from(None, Some("+")), 0);
    assert_eq!(peer_id_from(None, None), 0);
    for s in ["0", "42", "007", "+3", " 1", "1 "] {
        assert_eq!(peer_id_from(None, Some(s)), s.parse::<u32>().unwrap_or(0), "{s}");
    }
}

#[test]
fn encoded_frame_reads_back() {
    let body = vec![0xa1, 0x01, 0x02];
    let frame = encode_frame(&body).unwrap();
    assert_eq!(frame, vec![0, 0, 0, 3, 0xa1, 0x01, 0x02]);
    let len = check_read_len(decode_length_prefix([frame[0], frame[1], frame[2], frame[3]])).unwrap();
    assert_eq!(&frame[4..4 + len as usize], &body[..]);
    assert!(matches!(
        encode_frame(&vec![0u8; MAX_IPC_BODY as usize + 1]),
        Err(CodecError::FrameTooLarge { .. })
    ));
}
