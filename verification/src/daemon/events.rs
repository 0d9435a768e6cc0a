//! Events emitted by the daemon to subscribers.

use vstd::prelude::*;
use crate::daemon::commands::{LogRecord, MessageRecord};
use crate::daemon::hex::Hex16;
use crate::envelope::MessageId;
use crate::identity::PublicKey;

verus! {

/// Lifecycle status of a registered mailbox.
#[derive(Debug, Clone, Copy, PartialEq, Eq, Structural)]
pub enum MailboxStatus {
    Reachable,
    Unreachable,
    PendingRemoval,
    Removed,
}

/// Tor bootstrap status.
#[derive(Debug)]
pub enum TorStatus {
    Idle,
    Bootstrapping(u8),
    Ready,
    Failed(String),
}

/// Per-message delivery outcome.
#[derive(Debug)]
pub enum DeliveryStatus {
    Queued,
    Delivered,
    Deposited,
    Failed(String),
}

/// Event pushed to subscribers.
#[derive(Debug)]
pub enum Event {
    TorStatusChanged(TorStatus),
    MessageReceived { contact: PublicKey, record: MessageRecord },
    ContactUpdated(PublicKey),
    ContactRemoved(PublicKey),
    DeliveryStatusChanged { message: MessageId, status: DeliveryStatus },
    MailboxStatusChanged { mailbox_id: i64, status: MailboxStatus },
    ContactCardReceived { contact: PublicKey, version: u64 },
    LogRecord(LogRecord),
    AttachmentReceived {
        contact: PublicKey,
        attachment_id: Hex16,
        filename: String,
        mime: String,
        size: u64,
    },
    AttachmentProgress { attachment_id: Hex16, received: u32, total: u32 },
    AttachmentFailed { attachment_id: Hex16, reason: String },
}

} // verus!
