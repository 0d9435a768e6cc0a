//! IPC wire types: `IpcRequest`, `IpcError`, `EventFilter`.

use vstd::prelude::*;
use crate::daemon::commands::Command;
use crate::daemon::error_kind::DaemonErrorKind;
use crate::identity::PublicKey;

verus! {

/// Largest accepted frame body, in bytes (1 MiB).
pub const MAX_IPC_BODY: u32 = 1_048_576;

/// Which events a subscriber wants.
#[derive(Debug, Clone, Copy, PartialEq, Eq)]
pub enum EventFilter {
    All,
    Contact(PublicKey),
    TorStatus,
    Messages { contact: Option<PublicKey> },
    Mailboxes,
    Delivery,
    Logs,
}

/// A request frame from a client.
#[derive(Debug)]
pub enum IpcRequest {
    Execute(Command),
    Subscribe(EventFilter),
    Shutdown,
}

/// Typed wire error.
#[derive(Debug, Clone, PartialEq, Eq)]
pub enum IpcError {
    AuthDenied,
    Codec(String),
    FrameTooLarge { got: u32, max: u32 },
    UnknownCommand,
    VaultNotReady,
    Daemon(DaemonErrorKind),
    Internal(String),
}

} // verus!
