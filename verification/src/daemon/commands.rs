//! Commands submitted into the daemon from the UI / CLI, and the records the
//! daemon answers with.

use vstd::prelude::*;
use crate::daemon::events::MailboxStatus;
use crate::daemon::hex::Hex16;
use crate::envelope::{Envelope, Kind};
use crate::identity::PublicKey;

verus! {

/// Mode controlling what notification body is rendered.
#[derive(Debug, Clone, Copy, PartialEq, Eq)]
pub enum NotificationMode {
    /// Sender nickname + body preview.
    Full,
    /// Sender only.
    Minimal,
    /// Placeholder only ("New message").
    Generic,
    /// No notifications at all.
    Off,
}

impl Default for NotificationMode {
    fn default() -> (m: Self)
        ensures
            m == NotificationMode::Full,
    {
        NotificationMode::Full
    }
}

/// Tracing log level, projected onto the wire.
#[derive(Debug, Clone, Copy, PartialEq, Eq)]
pub enum LogLevel {
    Trace,
    Debug,
    Info,
    Warn,
    Error,
}

/// One redacted log record streamed from the daemon ring buffer.
#[derive(Debug)]
pub struct LogRecord {
    /// Monotonic per-buffer sequence number.
    pub seq: u64,
    /// Wall-clock at the time the record was emitted.
    pub ts_unix_ms: u64,
    /// Log level of this record.
    pub level: LogLevel,
    /// Emitting module path.
    pub target: String,
    /// Already-redacted message body.
    pub message: String,
}

impl LogRecord {
    /// A copy of this record.
    pub fn duplicate(&self) -> (r: LogRecord)
        ensures
            r.seq == self.seq,
            r.ts_unix_ms == self.ts_unix_ms,
            r.level == self.level,
            r.target@ == self.target@,
            r.message@ == self.message@,
    {
        LogRecord {
            seq: self.seq,
            ts_unix_ms: self.ts_unix_ms,
            level: self.level,
            target: self.target.clone(),
            message: self.message.clone(),
        }
    }
}

impl Clone for LogRecord {
    fn clone(&self) -> Self {
        self.duplicate()
    }
}

/// Snapshot of all UI-relevant config knobs.
#[derive(Debug, Clone, Copy, PartialEq, Eq)]
pub struct ConfigSnapshot {
    pub history_retention_days: u32,
    pub direct_timeout_secs: u32,
    pub notification_mode: NotificationMode,
    pub close_to_tray: bool,
    pub start_minimised: bool,
    pub persist_logs_to_disk: bool,
}

/// Patch sent by `Command::SetConfig`: only the `Some` fields are applied.
#[derive(Debug)]
pub struct ConfigPatch {
    pub history_retention_days: Option<u32>,
    pub direct_timeout_secs: Option<u32>,
    pub notification_mode: Option<NotificationMode>,
    pub close_to_tray: Option<bool>,
    pub start_minimised: Option<bool>,
    pub persist_logs_to_disk: Option<bool>,
    /// Attachment download directory.
    pub download_dir: Option<std::path::PathBuf>,
}

impl Default for ConfigPatch {
    fn default() -> (p: Self)
        ensures
            p.history_retention_days is None,
            p.direct_timeout_secs is None,
            p.notification_mode is None,
            p.close_to_tray is None,
            p.start_minimised is None,
            p.persist_logs_to_disk is None,
            p.download_dir is None,
    {
        ConfigPatch {
            history_retention_days: None,
            direct_timeout_secs: None,
            notification_mode: None,
            close_to_tray: None,
            start_minimised: None,
            persist_logs_to_disk: None,
            download_dir: None,
        }
    }
}

/// Request sent into the daemon.
#[derive(Debug)]
pub enum Command {
    CreateInvite { nickname: Option<String>, ttl_secs: Option<u64> },
    AddContact { invite_url: String },
    ListContacts,
    SendMessage { contact: PublicKey, kind: Kind },
    SendFile { contact: PublicKey, path: String },
    RecentMessages { contact: Option<PublicKey>, limit: u32, before_id: Option<i64>, paged: bool },
    CreateGroup { members: Vec<PublicKey>, name: String },
    RotateOnion,
    Shutdown,
    SearchMessages {
        query: String,
        contact: Option<PublicKey>,
        limit: u32,
        offset: u32,
        newest_first: bool,
    },
    MarkRead { contact: PublicKey, up_to_message_id: i64 },
    PruneHistory { contact: Option<PublicKey>, before_ts_recv: Option<i64>, keep_last: Option<u64> },
    AddMailbox { onion: String },
    RemoveMailbox { id: i64 },
    ListMailboxes,
    DaemonInfo,
    ExportHistory { contact: PublicKey, after_id: Option<i64>, limit: u32 },
    RenameContact { contact: PublicKey, nickname: Option<String> },
    RemoveContact { contact: PublicKey },
    ListContactsWithFilter { include_hidden: bool },
    GetConfig,
    SetConfig { patch: ConfigPatch },
    ChangePassphrase { old: String, new: String },
    SetContactMuted { contact: PublicKey, muted: bool },
    TailLogs { since_seq: Option<u64>, limit: u32 },
    GetPassphraseAuditLatest,
    WipeAllData,
    ExportBackup { dest_path: String },
    OpenAttachment { attachment_id: Hex16 },
    SaveAttachment { attachment_id: Hex16, dest_path: String },
    AttachmentAvailable { attachment_id: Hex16 },
}

/// Outcome of a `SendMessage` command after the inline-delivery wait.
#[derive(Debug, Clone, Copy, PartialEq, Eq)]
pub enum SendStatus {
    Queued,
    Delivered,
}

/// Direction of a stored message relative to the local identity.
#[derive(Debug, Clone, Copy, PartialEq, Eq)]
pub enum Direction {
    Incoming,
    Outgoing,
}

/// Wire-safe label of an MLS group state.
#[derive(Debug, Clone, Copy, PartialEq, Eq)]
pub enum MlsGroupStateLabel {
    Active,
    PendingJoin,
    Corrupt,
}

/// Wire-safe projection of a contact row + latest card.
#[derive(Debug)]
pub struct ContactSummary {
    pub pubkey: PublicKey,
    pub nickname: Option<String>,
    pub onion: String,
    pub card_version: u64,
    pub added_at: u64,
    pub unread_count: u64,
    pub last_message_preview: Option<String>,
    pub last_ts_recv: Option<u64>,
    pub group_state: Option<MlsGroupStateLabel>,
    pub last_read_row_id: Option<i64>,
    pub muted: bool,
    pub peer_mailboxes: Vec<String>,
    pub welcome_failed: bool,
}

/// Wire-safe projection of a persisted message row.
#[derive(Debug)]
pub struct MessageRecord {
    /// Storage primary key.
    pub row_id: i64,
    /// 16-byte per-message id.
    pub message_id: Hex16,
    /// Peer identity pubkey.
    pub contact: PublicKey,
    /// Incoming or outgoing.
    pub direction: Direction,
    /// Envelope payload.
    pub kind: Kind,
    /// MLS generation number.
    pub mls_generation: u64,
    /// Authoritative local-clock receive timestamp (unix seconds).
    pub ts_daemon_recv: u64,
    /// Sender-claimed timestamp, display only.
    pub ts_envelope: i64,
}

/// A negative local timestamp is carried as 0.
pub open spec fn clamp_ts(ts: i64) -> u64 {
    if ts >= 0 {
        ts as u64
    } else {
        0
    }
}

impl MessageRecord {
    /// Project a stored row + decrypt-time metadata into the wire type. Every
    /// column is carried as given: `mls_generation` and `ts_daemon_recv` are
    /// never aliased to the envelope's own timestamp.
    pub fn project(
        row_id: i64,
        envelope: &Envelope,
        contact: PublicKey,
        mls_generation: u64,
        ts_daemon_recv: i64,
        direction: Direction,
    ) -> (r: Self)
        ensures
            r.row_id == row_id,
            r.message_id == Hex16(envelope.id.0),
            r.contact == contact,
            r.direction == direction,
            r.kind@ == envelope.kind@,
            r.mls_generation == mls_generation,
            r.ts_daemon_recv == clamp_ts(ts_daemon_recv),
            r.ts_envelope == envelope.ts,
    {
        MessageRecord {
            row_id,
            message_id: Hex16(envelope.id.0),
            contact,
            direction,
            kind: envelope.kind.duplicate(),
            mls_generation,
            ts_daemon_recv: if ts_daemon_recv >= 0 {
                ts_daemon_recv as u64
            } else {
                0
            },
            ts_envelope: envelope.ts,
        }
    }
}

/// Wire-safe projection of a `mailboxes` row.
#[derive(Debug)]
pub struct MailboxSummary {
    pub id: i64,
    pub onion: String,
    pub status: MailboxStatus,
    pub registered_at: u64,
}

} // verus!
