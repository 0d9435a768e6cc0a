//! Daemon configuration: defaults, the validated partial update applied by
//! `SetConfig`, and the snapshot projected onto the wire.

use vstd::prelude::*;
use crate::daemon::commands::{ConfigPatch, ConfigSnapshot, NotificationMode};
use crate::paths::path_from;
use crate::text::{decimal, u64_to_decimal};

verus! {

/// Message history retention settings.
#[derive(Debug, Clone, Copy, PartialEq, Eq)]
pub struct HistoryConfig {
    /// Days of history to retain. 0 = infinite.
    pub retention_days: u32,
}

impl Default for HistoryConfig {
    fn default() -> (c: Self)
        ensures
            c.retention_days == 0,
    {
        HistoryConfig { retention_days: 0 }
    }
}

/// Delivery-policy settings.
#[derive(Debug, Clone, Copy, PartialEq, Eq)]
pub struct DeliveryConfig {
    /// Seconds of direct-connection attempts before falling back to a mailbox.
    pub direct_timeout_secs: u32,
}

/// Default direct-connection timeout: 30 s.
pub fn default_direct_timeout_secs() -> (t: u32)
    ensures
        t == 30,
{
    30
}

impl Default for DeliveryConfig {
    fn default() -> (c: Self)
        ensures
            c.direct_timeout_secs == 30,
    {
        DeliveryConfig { direct_timeout_secs: default_direct_timeout_secs() }
    }
}

/// Notification settings.
#[derive(Debug, Clone, Copy, PartialEq, Eq)]
pub struct NotificationsConfig {
    /// Notification display mode.
    pub mode: NotificationMode,
}

impl Default for NotificationsConfig {
    fn default() -> (c: Self)
        ensures
            c.mode == NotificationMode::Full,
    {
        NotificationsConfig { mode: NotificationMode::Full }
    }
}

/// UI / shell settings.
#[derive(Debug, Clone, Copy, PartialEq, Eq)]
pub struct UiConfig {
    /// Closing the window hides to tray instead of exiting.
    pub close_to_tray: bool,
    /// The app starts minimised to tray.
    pub start_minimised: bool,
    /// Daemon logs are persisted to disk.
    pub persist_logs_to_disk: bool,
}

/// Default for `close_to_tray`: on.
pub fn default_close_to_tray() -> (b: bool)
    ensures
        b,
{
    true
}

impl Default for UiConfig {
    fn default() -> (c: Self)
        ensures
            c.close_to_tray,
            !c.start_minimised,
            !c.persist_logs_to_disk,
    {
        UiConfig {
            close_to_tray: default_close_to_tray(),
            start_minimised: false,
            persist_logs_to_disk: false,
        }
    }
}

/// The default log filter.
pub open spec fn default_log_filter_spec() -> Seq<char> {
    "skattr_core=info,arti=warn"@
}

/// Default logging filter.
pub fn default_log_filter() -> (s: String)
    ensures
        s@ == default_log_filter_spec(),
{
    String::from_str("skattr_core=info,arti=warn")
}

/// Top-level daemon config.
#[derive(Debug)]
pub struct Config {
    /// Directory for persistent state.
    pub data_dir: std::path::PathBuf,
    /// Unix socket / named pipe path for CLI↔daemon IPC.
    pub ipc_socket: Option<std::path::PathBuf>,
    /// Logging filter.
    pub log_filter: String,
    /// Retention + history settings.
    pub history: HistoryConfig,
    /// Delivery policy.
    pub delivery: DeliveryConfig,
    /// Notification settings.
    pub notifications: NotificationsConfig,
    /// UI / shell settings.
    pub ui: UiConfig,
}

/// A configuration failure, with its message.
#[derive(Debug)]
pub struct ConfigError(pub String);

/// Smallest accepted `direct_timeout_secs`.
pub const MIN_DIRECT_TIMEOUT_SECS: u32 = 1;

/// Largest accepted `direct_timeout_secs`.
pub const MAX_DIRECT_TIMEOUT_SECS: u32 = 600;

/// Whether a patch's `direct_timeout_secs` (if any) is in 1..=600.
pub open spec fn patch_valid(p: ConfigPatch) -> bool {
    p.direct_timeout_secs matches Some(t) ==> MIN_DIRECT_TIMEOUT_SECS <= t
        <= MAX_DIRECT_TIMEOUT_SECS
}

/// The message with which an out-of-range timeout `t` is rejected.
pub open spec fn timeout_rejection(t: u32) -> Seq<char> {
    "direct_timeout_secs out of range 1..=600 (got "@ + decimal(t as nat) + ")"@
}

/// `v` with `o`'s value if `o` is `Some`.
pub open spec fn or_keep<T>(o: Option<T>, v: T) -> T {
    match o {
        Some(x) => x,
        None => v,
    }
}

/// The UI-relevant fields of `c` after `p` has been applied.
pub open spec fn patched_snapshot(c: ConfigSnapshot, p: ConfigPatch) -> ConfigSnapshot {
    ConfigSnapshot {
        history_retention_days: or_keep(p.history_retention_days, c.history_retention_days),
        direct_timeout_secs: or_keep(p.direct_timeout_secs, c.direct_timeout_secs),
        notification_mode: or_keep(p.notification_mode, c.notification_mode),
        close_to_tray: or_keep(p.close_to_tray, c.close_to_tray),
        start_minimised: or_keep(p.start_minimised, c.start_minimised),
        persist_logs_to_disk: or_keep(p.persist_logs_to_disk, c.persist_logs_to_disk),
    }
}

/// Law: a patch that sets no field changes no setting.
pub proof fn lemma_empty_patch_changes_nothing(c: ConfigSnapshot, p: ConfigPatch)
    requires
        (p.history_retention_days is None),
        (p.direct_timeout_secs is None),
        (p.notification_mode is None),
        (p.close_to_tray is None),
        (p.start_minimised is None),
        (p.persist_logs_to_disk is None),
    ensures
        patched_snapshot(c, p) == c,
{
}

/// Law: applying the same patch a second time changes nothing more.
pub proof fn lemma_patch_idempotent(c: ConfigSnapshot, p: ConfigPatch)
    ensures
        patched_snapshot(patched_snapshot(c, p), p) == patched_snapshot(c, p),
{
}

/// Law: a later patch wins over an earlier one on every field it sets, and
/// the earlier one's other settings survive.
pub proof fn lemma_later_patch_wins(c: ConfigSnapshot, p: ConfigPatch, q: ConfigPatch)
    ensures
        patched_snapshot(patched_snapshot(c, p), q) == (ConfigSnapshot {
            history_retention_days: or_keep(
                q.history_retention_days,
                or_keep(p.history_retention_days, c.history_retention_days),
            ),
            direct_timeout_secs: or_keep(
                q.direct_timeout_secs,
                or_keep(p.direct_timeout_secs, c.direct_timeout_secs),
            ),
            notification_mode: or_keep(
                q.notification_mode,
                or_keep(p.notification_mode, c.notification_mode),
            ),
            close_to_tray: or_keep(q.close_to_tray, or_keep(p.close_to_tray, c.close_to_tray)),
            start_minimised: or_keep(
                q.start_minimised,
                or_keep(p.start_minimised, c.start_minimised),
            ),
            persist_logs_to_disk: or_keep(
                q.persist_logs_to_disk,
                or_keep(p.persist_logs_to_disk, c.persist_logs_to_disk),
            ),
        }),
{
}

/// Reverse-domain qualifier of the application's per-user directories.
pub const APP_QUALIFIER: &'static str = "net";

/// Organization part of the application's per-user directories.
pub const APP_ORGANIZATION: &'static str = "myggiz";

/// Application part of the application's per-user directories.
pub const APP_NAME: &'static str = "skattr";

/// The per-user data directory of the application named by `qualifier`,
/// `organization` and `application`, as `directories` computes it
/// (`ProjectDirs::from(qualifier, organization, application)`, then
/// `data_dir`).
///
/// Trusted: nothing is stated of the outcome, which depends on the user's
/// environment (home directory, platform); `None` when no home directory can
/// be found.
#[verifier::external_body]
fn project_data_dir(qualifier: &str, organization: &str, application: &str) -> Option<
    std::path::PathBuf,
> {
    match directories::ProjectDirs::from(qualifier, organization, application) {
        Some(dirs) => Some(dirs.data_dir().to_path_buf()),
        None => None,
    }
}

/// The message of the error returned when no home directory exists.
pub open spec fn no_home_message() -> Seq<char> {
    "no home directory"@
}

impl Config {
    /// Default config for a brand-new install, rooted in the per-user data
    /// directory. Fails only when no such directory can be determined.
    pub fn defaults() -> (r: Result<Self, ConfigError>)
        ensures
            match r {
                Ok(c) => {
                    &&& c.ipc_socket is None
                    &&& c.log_filter@ == default_log_filter_spec()
                    &&& c.history.retention_days == 0
                    &&& c.delivery.direct_timeout_secs == 30
                    &&& c.notifications.mode == NotificationMode::Full
                    &&& c.ui.close_to_tray
                    &&& !c.ui.start_minimised
                    &&& !c.ui.persist_logs_to_disk
                },
                Err(ConfigError(msg)) => msg@ == no_home_message(),
            },
    {
        match project_data_dir(APP_QUALIFIER, APP_ORGANIZATION, APP_NAME) {
            Some(dir) => Ok(
                Config {
                    data_dir: dir,
                    ipc_socket: None,
                    log_filter: default_log_filter(),
                    history: HistoryConfig::default(),
                    delivery: DeliveryConfig::default(),
                    notifications: NotificationsConfig::default(),
                    ui: UiConfig::default(),
                },
            ),
            None => Err(ConfigError(String::from_str("no home directory"))),
        }
    }

    /// The wire projection of the UI-relevant fields.
    pub open spec fn snapshot_spec(&self) -> ConfigSnapshot {
        ConfigSnapshot {
            history_retention_days: self.history.retention_days,
            direct_timeout_secs: self.delivery.direct_timeout_secs,
            notification_mode: self.notifications.mode,
            close_to_tray: self.ui.close_to_tray,
            start_minimised: self.ui.start_minimised,
            persist_logs_to_disk: self.ui.persist_logs_to_disk,
        }
    }

    /// Config used when no per-user data directory can be determined.
    pub fn fallback() -> (c: Self)
        ensures
            c.ipc_socket is None,
            c.log_filter@ == default_log_filter_spec(),
            c.history.retention_days == 0,
            c.delivery.direct_timeout_secs == 30,
            c.notifications.mode == NotificationMode::Full,
            c.ui.close_to_tray,
            !c.ui.start_minimised,
            !c.ui.persist_logs_to_disk,
    {
        Config {
            data_dir: path_from("./skattr-data"),
            ipc_socket: None,
            log_filter: default_log_filter(),
            history: HistoryConfig::default(),
            delivery: DeliveryConfig::default(),
            notifications: NotificationsConfig::default(),
            ui: UiConfig::default(),
        }
    }

    /// Apply the command-line and environment overrides on top of a loaded
    /// config. For the data directory a flag wins over the environment,
    /// which wins over the file; a socket flag replaces the file's socket.
    pub fn apply_overrides(
        &mut self,
        flag_data_dir: Option<std::path::PathBuf>,
        env_data_dir: Option<std::path::PathBuf>,
        flag_socket: Option<std::path::PathBuf>,
    )
        ensures
            final(self).data_dir == match flag_data_dir {
                Some(p) => p,
                None => match env_data_dir {
                    Some(p) => p,
                    None => old(self).data_dir,
                },
            },
            final(self).ipc_socket == match flag_socket {
                Some(p) => Some(p),
                None => old(self).ipc_socket,
            },
            final(self).log_filter == old(self).log_filter,
            final(self).history == old(self).history,
            final(self).delivery == old(self).delivery,
            final(self).notifications == old(self).notifications,
            final(self).ui == old(self).ui,
    {
        if let Some(env) = env_data_dir {
            self.data_dir = env;
        }
        if let Some(flag) = flag_data_dir {
            self.data_dir = flag;
        }
        if let Some(sock) = flag_socket {
            self.ipc_socket = Some(sock);
        }
    }

    /// Apply a `ConfigPatch` in place: the patch is validated first, then each
    /// field that is set replaces the current one. `direct_timeout_secs` must
    /// lie in 1..=600; when it does not, the call fails and the configuration
    /// is left exactly as it was. `download_dir` is not a config field and is
    /// ignored here.
    pub fn apply_patch(&mut self, patch: &ConfigPatch) -> (r: Result<(), ConfigError>)
        ensures
            final(self).data_dir == old(self).data_dir,
            final(self).ipc_socket == old(self).ipc_socket,
            final(self).log_filter == old(self).log_filter,
            r is Ok <==> patch_valid(*patch),
            r is Ok ==> final(self).snapshot_spec() == patched_snapshot(
                old(self).snapshot_spec(),
                *patch,
            ),
            r matches Err(ConfigError(msg)) ==> {
                &&& msg@ == timeout_rejection(patch.direct_timeout_secs->0)
                &&& *final(self) == *old(self)
            },
    {
        if let Some(t) = patch.direct_timeout_secs {
            if !(MIN_DIRECT_TIMEOUT_SECS <= t && t <= MAX_DIRECT_TIMEOUT_SECS) {
                let mut msg = String::from_str("direct_timeout_secs out of range 1..=600 (got ");
                let n = u64_to_decimal(t as u64);
                msg.append(n.as_str());
                msg.append(")");
                proof {
                    reveal_strlit("direct_timeout_secs out of range 1..=600 (got ");
                    reveal_strlit(")");
                }
                return Err(ConfigError(msg));
            }
        }
        if let Some(d) = patch.history_retention_days {
            self.history.retention_days = d;
        }
        if let Some(t) = patch.direct_timeout_secs {
            self.delivery.direct_timeout_secs = t;
        }
        if let Some(m) = patch.notification_mode {
            self.notifications.mode = m;
        }
        if let Some(b) = patch.close_to_tray {
            self.ui.close_to_tray = b;
        }
        if let Some(b) = patch.start_minimised {
            self.ui.start_minimised = b;
        }
        if let Some(b) = patch.persist_logs_to_disk {
            self.ui.persist_logs_to_disk = b;
        }
        Ok(())
    }

    /// Project onto the wire `ConfigSnapshot` (UI-relevant fields only).
    pub fn snapshot(&self) -> (s: ConfigSnapshot)
        ensures
            s == self.snapshot_spec(),
    {
        ConfigSnapshot {
            history_retention_days: self.history.retention_days,
            direct_timeout_secs: self.delivery.direct_timeout_secs,
            notification_mode: self.notifications.mode,
            close_to_tray: self.ui.close_to_tray,
            start_minimised: self.ui.start_minimised,
            persist_logs_to_disk: self.ui.persist_logs_to_disk,
        }
    }
}

} // verus!
