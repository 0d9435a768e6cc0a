//! IPC server decisions: which events a subscription forwards, the peer
//! credential check made on every accepted connection, and the per-connection
//! state machine that the I/O loop drives.

use vstd::prelude::*;
use crate::daemon::events::{Event, TorStatus};
use crate::identity::PublicKey;
use crate::daemon::ipc::codec::CodecError;
use crate::daemon::ipc::wire::{EventFilter, IpcError};
use crate::text::{decimal, parse_u32, parse_u32_spec, u64_to_decimal};

verus! {

/// Whether `event` passes `filter`. With no subscription nothing passes.
pub open spec fn event_matches_spec(event: Event, filter: Option<EventFilter>) -> bool {
    match filter {
        None => false,
        Some(f) => match (f, event) {
            (EventFilter::All, _) => true,
            (EventFilter::TorStatus, Event::TorStatusChanged(_)) => true,
            (EventFilter::Contact(peer), Event::MessageReceived { contact, .. }) => contact == peer,
            (EventFilter::Contact(_), Event::DeliveryStatusChanged { .. }) => true,
            (EventFilter::Contact(_), Event::ContactUpdated(_)) => true,
            (EventFilter::Contact(peer), Event::ContactRemoved(contact)) => contact == peer,
            (EventFilter::Contact(peer), Event::ContactCardReceived { contact, .. }) => contact
                == peer,
            (EventFilter::Messages { contact: None }, Event::MessageReceived { .. }) => true,
            (
                EventFilter::Messages { contact: Some(c) },
                Event::MessageReceived { contact, .. },
            ) => c == contact,
            (EventFilter::Mailboxes, Event::MailboxStatusChanged { .. }) => true,
            (EventFilter::Delivery, Event::DeliveryStatusChanged { .. }) => true,
            (EventFilter::Logs, Event::LogRecord(_)) => true,
            _ => false,
        },
    }
}

/// Whether `event` is forwarded to a connection subscribed with `filter`.
pub fn event_matches(event: &Event, filter: Option<&EventFilter>) -> (b: bool)
    ensures
        b == event_matches_spec(*event, match filter {
            Some(f) => Some(*f),
            None => None,
        }),
{
    let filter = match filter {
        Some(f) => f,
        None => {
            return false;
        },
    };
    match (filter, event) {
        (EventFilter::All, _) => true,
        (EventFilter::TorStatus, Event::TorStatusChanged(_)) => true,
        (EventFilter::Contact(peer), Event::MessageReceived { contact, .. }) => contact == peer,
        (EventFilter::Contact(_), Event::DeliveryStatusChanged { .. }) => true,
        (EventFilter::Contact(_), Event::ContactUpdated(_)) => true,
        (EventFilter::Contact(peer), Event::ContactRemoved(contact)) => contact == peer,
        (EventFilter::Contact(peer), Event::ContactCardReceived { contact, .. }) => contact == peer,
        (EventFilter::Messages { contact: None }, Event::MessageReceived { .. }) => true,
        (EventFilter::Messages { contact: Some(c) }, Event::MessageReceived { contact, .. }) => {
            c == contact
        },
        (EventFilter::Mailboxes, Event::MailboxStatusChanged { .. }) => true,
        (EventFilter::Delivery, Event::DeliveryStatusChanged { .. }) => true,
        (EventFilter::Logs, Event::LogRecord(_)) => true,
        _ => false,
    }
}

/// Why a connecting peer is refused. The daemon reports it to the peer as
/// an I/O error of kind `PermissionDenied` carrying the message.
#[derive(Debug, Clone)]
pub enum PeerAuthError {
    PermissionDenied(String),
}

/// Message for a peer whose uid differs from the expected one.
pub open spec fn uid_mismatch_message(uid: u32, expected: u32) -> Seq<char> {
    "peer uid "@ + decimal(uid as nat) + " != expected "@ + decimal(expected as nat)
}

/// The message a peer is refused with: none when its uid is the expected
/// one; a missing uid, or a different one, is named.
pub open spec fn peer_rejection_spec(peer_uid: Option<u32>, expected: u32) -> Option<Seq<char>> {
    match peer_uid {
        Some(uid) => if uid == expected {
            None
        } else {
            Some(uid_mismatch_message(uid, expected))
        },
        None => Some("peer uid unavailable"@),
    }
}

/// Why the connecting peer is refused, if it is: a missing uid, or a uid
/// other than `expected`.
pub fn peer_rejection(peer_uid: Option<u32>, expected: u32) -> (r: Option<String>)
    ensures
        match (r, peer_rejection_spec(peer_uid, expected)) {
            (Some(m), Some(sm)) => m@ == sm,
            (None, None) => true,
            _ => false,
        },
{
    match peer_uid {
        Some(uid) => {
            if uid == expected {
                None
            } else {
                let mut msg = String::from_str("peer uid ");
                msg.append(u64_to_decimal(uid as u64).as_str());
                msg.append(" != expected ");
                msg.append(u64_to_decimal(expected as u64).as_str());
                Some(msg)
            }
        },
        None => Some(String::from_str("peer uid unavailable")),
    }
}

/// Check that the connecting peer's uid is the expected one. A missing uid is
/// refused as well; the refusal is a permission denial carrying the message
/// of `peer_rejection`.
pub fn check_peer_uid(peer_uid: Option<u32>, expected: u32) -> (r: Result<(), PeerAuthError>)
    ensures
        r is Ok <==> peer_uid == Some(expected),
        r matches Err(PeerAuthError::PermissionDenied(msg)) ==> peer_rejection_spec(
            peer_uid,
            expected,
        ) == Some(msg@),
{
    match peer_rejection(peer_uid, expected) {
        None => Ok(()),
        Some(msg) => Err(PeerAuthError::PermissionDenied(msg)),
    }
}

/// The uid that names this user for peer authentication: the owner of the
/// process's own `/proc` entry when known, else the `UID` environment value
/// when it parses as a `u32`, else 0.
pub fn peer_id_from(proc_uid: Option<u32>, env_uid: Option<&str>) -> (id: u32)
    ensures
        id == match proc_uid {
            Some(u) => u,
            None => match env_uid {
                Some(e) => match parse_u32_spec(e@) {
                    Some(v) => v,
                    None => 0,
                },
                None => 0,
            },
        },
{
    match proc_uid {
        Some(u) => u,
        None => match env_uid {
            Some(e) => match parse_u32(e) {
                Some(v) => v,
                None => 0,
            },
            None => 0,
        },
    }
}

/// How a frame read ended when it did not yield a request.
#[derive(Debug)]
pub enum ReadFault {
    /// The peer hung up.
    Eof,
    /// The body was not valid CBOR for a request.
    Cbor(String),
    /// The declared length was above the cap.
    TooLarge { got: u32, max: u32 },
    /// The declared length was zero.
    Empty,
    /// Any other I/O failure.
    Other,
}

impl ReadFault {
    /// Classify a codec failure; `is_eof` tells whether an I/O failure was
    /// an unexpected end of stream.
    pub fn from_codec(e: CodecError, is_eof: bool) -> (f: ReadFault)
        ensures
            match e {
                CodecError::Io(_) => if is_eof {
                    f is Eof
                } else {
                    f is Other
                },
                CodecError::Cbor(s) => f matches ReadFault::Cbor(t) && t == s,
                CodecError::FrameTooLarge { got, max } => f matches ReadFault::TooLarge {
                    got: g,
                    max: m,
                } && g == got && m == max,
                CodecError::EmptyFrame => f is Empty,
            },
    {
        match e {
            CodecError::Io(_) => if is_eof {
                ReadFault::Eof
            } else {
                ReadFault::Other
            },
            CodecError::Cbor(s) => ReadFault::Cbor(s),
            CodecError::FrameTooLarge { got, max } => ReadFault::TooLarge { got, max },
            CodecError::EmptyFrame => ReadFault::Empty,
        }
    }
}

/// Per-connection state of the server loop.
#[derive(Debug)]
pub struct Connection {
    /// Active subscription, if any.
    pub subscribed: Option<EventFilter>,
    /// A data wipe was requested on this connection; it is carried out once
    /// the closing frame has been written.
    pub wipe_pending: bool,
    /// The loop keeps serving this connection.
    pub open: bool,
}

/// What happens to a connection, as far as its state is concerned.
pub enum ConnectionEvent {
    /// A read failed; `undecodable` when the body was not valid CBOR.
    ReadFault { undecodable: bool },
    /// A command was answered.
    Executed { failed: bool, wipe: bool },
    /// A subscription request.
    Subscribed(EventFilter),
    /// A shutdown request or a failed write.
    Closed,
}

/// The state of `c` after `e`.
pub open spec fn after(c: Connection, e: ConnectionEvent) -> Connection {
    match e {
        ConnectionEvent::ReadFault { undecodable } => Connection {
            open: c.open && undecodable,
            ..c
        },
        ConnectionEvent::Executed { failed, wipe } => Connection {
            wipe_pending: c.wipe_pending || wipe,
            open: c.open && c.subscribed is Some && !failed && !wipe,
            ..c
        },
        ConnectionEvent::Subscribed(f) => Connection { subscribed: Some(f), ..c },
        ConnectionEvent::Closed => Connection { open: false, ..c },
    }
}

/// Law: a closed connection stays closed, whatever happens to it.
pub proof fn lemma_closed_stays_closed(c: Connection, e: ConnectionEvent)
    requires
        !c.open,
    ensures
        !after(c, e).open,
{
}

/// Law: once a data wipe has been requested on a connection it stays pending.
pub proof fn lemma_wipe_stays_pending(c: Connection, e: ConnectionEvent)
    requires
        c.wipe_pending,
    ensures
        after(c, e).wipe_pending,
{
}

/// Law: only a subscription request changes what a connection is subscribed to.
pub proof fn lemma_only_subscribe_changes_filter(c: Connection, e: ConnectionEvent)
    requires
        !(e is Subscribed),
    ensures
        after(c, e).subscribed == c.subscribed,
{
}

impl Connection {
    /// A fresh connection: open, not subscribed, no wipe pending.
    pub fn new() -> (c: Connection)
        ensures
            c.subscribed is None,
            !c.wipe_pending,
            c.open,
    {
        Connection { subscribed: None, wipe_pending: false, open: true }
    }

    /// Whether a published event is forwarded on this connection.
    pub fn forwards(&self, event: &Event) -> (b: bool)
        ensures
            b == event_matches_spec(*event, self.subscribed),
    {
        match &self.subscribed {
            Some(f) => event_matches(event, Some(f)),
            None => event_matches(event, None),
        }
    }

    /// Whether to resubscribe after the event stream lagged (only a
    /// subscribed connection does).
    pub fn resubscribes_after_lag(&self) -> (b: bool)
        ensures
            b == self.subscribed is Some,
    {
        self.subscribed.is_some()
    }

    /// React to a failed read: the error frame to send (if any); the
    /// connection stays open only after undecodable CBOR.
    pub fn on_read_fault(&mut self, fault: ReadFault) -> (reply: Option<IpcError>)
        ensures
            final(self).subscribed == old(self).subscribed,
            final(self).wipe_pending == old(self).wipe_pending,
            final(self).open == (old(self).open && fault is Cbor),
            *final(self) == after(
                *old(self),
                ConnectionEvent::ReadFault { undecodable: fault is Cbor },
            ),
            match fault {
                ReadFault::Eof => reply is None,
                ReadFault::Other => reply is None,
                ReadFault::Cbor(s) => reply == Some(IpcError::Codec(s)),
                ReadFault::TooLarge { got, max } => reply == Some(
                    IpcError::FrameTooLarge { got, max },
                ),
                ReadFault::Empty => reply matches Some(IpcError::Codec(m)) && m@ == "empty frame"@,
            },
    {
        match fault {
            ReadFault::Eof => {
                self.open = false;
                None
            },
            ReadFault::Other => {
                self.open = false;
                None
            },
            ReadFault::Cbor(s) => Some(IpcError::Codec(s)),
            ReadFault::TooLarge { got, max } => {
                self.open = false;
                Some(IpcError::FrameTooLarge { got, max })
            },
            ReadFault::Empty => {
                self.open = false;
                let m = String::from_str("empty frame");
                proof {
                    reveal_strlit("empty frame");
                }
                Some(IpcError::Codec(m))
            },
        }
    }

    /// After an `Execute` has been answered: `failed` tells whether the answer
    /// was an error, `wipe` whether the command requested a data wipe. An
    /// unsubscribed connection, an error, or a wipe ends the connection; a
    /// wipe is remembered for the teardown.
    pub fn on_executed(&mut self, failed: bool, wipe: bool)
        ensures
            final(self).subscribed == old(self).subscribed,
            final(self).wipe_pending == (old(self).wipe_pending || wipe),
            final(self).open == (old(self).open && old(self).subscribed is Some && !failed
                && !wipe),
            *final(self) == after(*old(self), ConnectionEvent::Executed { failed, wipe }),
    {
        if wipe {
            self.wipe_pending = true;
        }
        if self.subscribed.is_none() || failed || wipe {
            self.open = false;
        }
    }

    /// A `Subscribe` request: the filter replaces any earlier one.
    pub fn on_subscribe(&mut self, filter: EventFilter)
        ensures
            final(self).subscribed == Some(filter),
            final(self).wipe_pending == old(self).wipe_pending,
            final(self).open == old(self).open,
            *final(self) == after(*old(self), ConnectionEvent::Subscribed(filter)),
    {
        self.subscribed = Some(filter);
    }

    /// Whether the cached Tor status is replayed right after subscribing:
    /// only when there is one and the subscription would forward it.
    pub fn replays_tor_status(&self, cached: Option<&TorStatus>) -> (b: bool)
        ensures
            b == (cached is Some && (self.subscribed == Some(EventFilter::All)
                || self.subscribed == Some(EventFilter::TorStatus))),
    {
        match cached {
            None => false,
            Some(_) => match self.subscribed {
                Some(EventFilter::All) => true,
                Some(EventFilter::TorStatus) => true,
                _ => false,
            },
        }
    }

    /// A `Shutdown` request, or a failed write: the connection ends.
    pub fn close(&mut self)
        ensures
            final(self).subscribed == old(self).subscribed,
            final(self).wipe_pending == old(self).wipe_pending,
            !final(self).open,
            *final(self) == after(*old(self), ConnectionEvent::Closed),
    {
        self.open = false;
    }
}

/// A subscription to one conversation only hears about that contact: a
/// message, a removal or a new card passes a `Contact(peer)` filter exactly
/// when it concerns `peer`, and a message passes a `Messages` filter for a
/// given contact exactly when it comes from that contact. Without a
/// subscription nothing is forwarded.
pub proof fn lemma_contact_filters_forward_only_their_contact(
    event: Event,
    peer: PublicKey,
    from: PublicKey,
)
    ensures
        event matches Event::MessageReceived { contact, .. } ==> (event_matches_spec(
            event,
            Some(EventFilter::Contact(peer)),
        ) <==> contact == peer),
        event matches Event::MessageReceived { contact, .. } ==> (event_matches_spec(
            event,
            Some(EventFilter::Messages { contact: Some(from) }),
        ) <==> contact == from),
        event matches Event::ContactRemoved(contact) ==> (event_matches_spec(
            event,
            Some(EventFilter::Contact(peer)),
        ) <==> contact == peer),
        event matches Event::ContactCardReceived { contact, .. } ==> (event_matches_spec(
            event,
            Some(EventFilter::Contact(peer)),
        ) <==> contact == peer),
        !event_matches_spec(event, None),
{
}

} // verus!
