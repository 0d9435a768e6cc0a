use skattr_core::contact::card::{verification_outcome, CardError};
use skattr_core::daemon::events::{Event, TorStatus};
use skattr_core::daemon::ipc::codec::CodecError;
use skattr_core::daemon::ipc::server::{Connection, ReadFault};
use skattr_core::daemon::ipc::wire::{EventFilter, IpcError};
use skattr_core::identity::PublicKey;

#[test]
fn unsubscribed_connection_closes_after_one_command() {
    let mut c = Connection::new();
    assert!(c.open);
    c.on_executed(false, false);
    assert!(!c.open);
    assert!(!c.wipe_pending);
}

#[test]
fn subscribed_connection_stays_open_until_an_error() {
    let mut c = Connection::new();
    c.on_subscribe(EventFilter::TorStatus);
    c.on_executed(false, false);
    assert!(c.open);
    assert!(c.forwards(&Event::TorStatusChanged(TorStatus::Ready)));
    assert!(!c.forwards(&Event::ContactUpdated(PublicKey([1; 32]))));
    assert!(c.resubscribes_after_lag());
    c.on_executed(true, false);
    assert!(!c.open);
}

#[test]
fn wipe_closes_and_is_remembered() {
    let mut c = Connection::new();
    c.on_subscribe(EventFilter::All);
    c.on_executed(false, true);
    assert!(!c.open);
    assert!(c.wipe_pending);
}

#[test]
fn read_faults() {
    let mut c = Connection::new();
    assert_eq!(c.on_read_fault(ReadFault::Cbor("bad".into())), Some(IpcError::Codec("bad".into())));
    assert!(c.open);
    assert_eq!(c.on_read_fault(ReadFault::Empty), Some(IpcError::Codec("empty frame".into())));
    assert!(!c.open);
    let mut c = Connection::new();
    assert_eq!(
        c.on_read_fault(ReadFault::TooLarge { got: 9, max: 8 }),
        Some(IpcError::FrameTooLarge { got: 9, max: 8 })
    );
    assert!(!c.open);
    let mut c = Connection::new();
    assert_eq!(c.on_read_fault(ReadFault::Eof), None);
    assert!(!c.open);
}

#[test]
fn codec_errors_classify_into_read_faults() {
    let io = std::io::Error::new(std::io::ErrorKind::UnexpectedEof, "eof");
    assert!(matches!(ReadFault::from_codec(CodecError::Io(io), true), ReadFault::Eof));
    let io = std::io::Error::new(std::io::ErrorKind::Other, "x");
    assert!(matches!(ReadFault::from_codec(CodecError::Io(io), false), ReadFault::Other));
    assert!(matches!(ReadFault::from_codec(CodecError::EmptyFrame, false), ReadFault::Empty));
}

#[test]
fn tor_status_replayed_only_to_matching_subscriptions() {
    let mut c = Connection::new();
    c.on_subscribe(EventFilter::Mailboxes);
    assert!(!c.replays_tor_status(Some(&TorStatus::Ready)));
    c.on_subscribe(EventFilter::All);
    assert!(c.replays_tor_status(Some(&TorStatus::Ready)));
    assert!(!c.replays_tor_status(None));
    c.close();
    assert!(!c.open);
}

#[test]
fn verification_outcome_checks_signature_before_expiry() {
    let pk = PublicKey([3; 32]);
    assert_eq!(verification_outcome(false, pk, 10, 20), Err(CardError::BadSignature));
    assert_eq!(verification_outcome(true, pk, 10, 20), Err(CardError::Expired));
    assert_eq!(verification_outcome(true, pk, 10, 10), Ok(pk));
}
