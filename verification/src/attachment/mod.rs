//! Attachments: the manifest that travels inside a file message, the rules
//! that turn a sender's file name into a safe local name, the chunk layout,
//! and the checks made on every chunk before it is accepted.

pub mod chunker;
pub mod error_kind;
pub mod manifest;
pub mod reassembler;
pub mod store;

use vstd::prelude::*;

verus! {

/// Plaintext bytes per chunk (48 KiB).
pub const CHUNK_SIZE: usize = 49_152;

/// Maximum total plaintext attachment size (100 MiB), rejected up front.
pub const MAX_ATTACHMENT_BYTES: u64 = 104_857_600;

/// Files at/under this size may use the offline (mailbox) lane.
pub const MAX_OFFLINE_ATTACHMENT_BYTES: u64 = 10_485_760;

/// Seconds after send before the offline deposit rows become due.
pub const OFFLINE_FALLBACK_STALL_SECS: i64 = 90;

/// Current manifest version. An unknown version is rejected on decode.
pub const MANIFEST_VERSION: u8 = 1;

/// Max chunk deposits attempted per sweep tick.
pub const CHUNK_SWEEP_BATCH: usize = 30;

} // verus!
