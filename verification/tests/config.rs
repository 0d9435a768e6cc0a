use skattr_core::daemon::commands::{ConfigPatch, NotificationMode};
use skattr_core::daemon::config::{Config, MAX_DIRECT_TIMEOUT_SECS, MIN_DIRECT_TIMEOUT_SECS};

#[test]
fn apply_patch_partial_only_touches_specified_fields() {
    let mut cfg = Config::defaults().unwrap();
    cfg.history.retention_days = 7;
    let patch = ConfigPatch {
        notification_mode: Some(NotificationMode::Off),
        ..Default::default()
    };
    cfg.apply_patch(&patch).unwrap();
    assert_eq!(cfg.history.retention_days, 7);
    assert!(matches!(cfg.notifications.mode, NotificationMode::Off));
}

#[test]
fn apply_patch_rejects_out_of_range_timeout() {
    let mut cfg = Config::defaults().unwrap();
    let patch = ConfigPatch {
        direct_timeout_secs: Some(0),
        ..Default::default()
    };
    assert!(cfg.apply_patch(&patch).is_err());

    let patch = ConfigPatch {
        direct_timeout_secs: Some(601),
        ..Default::default()
    };
    assert!(cfg.apply_patch(&patch).is_err());
}

#[test]
fn snapshot_projects_all_fields() {
    let cfg = Config::defaults().unwrap();
    let snap = cfg.snapshot();
    assert_eq!(snap.history_retention_days, 0);
    assert_eq!(snap.direct_timeout_secs, 30);
    assert!(snap.close_to_tray);
    assert!(!snap.start_minimised);
    assert!(!snap.persist_logs_to_disk);
}

#[test]
fn apply_patch_accepts_range_bounds_and_applies_every_field() {
    let mut cfg = Config::fallback();
    let patch = ConfigPatch {
        history_retention_days: Some(30),
        direct_timeout_secs: Some(MAX_DIRECT_TIMEOUT_SECS),
        notification_mode: Some(NotificationMode::Generic),
        close_to_tray: Some(false),
        start_minimised: Some(true),
        persist_logs_to_disk: Some(true),
        download_dir: None,
    };
    cfg.apply_patch(&patch).unwrap();
    let snap = cfg.snapshot();
    assert_eq!(snap.history_retention_days, 30);
    assert_eq!(snap.direct_timeout_secs, 600);
    assert_eq!(snap.notification_mode, NotificationMode::Generic);
    assert!(!snap.close_to_tray);
    assert!(snap.start_minimised);
    assert!(snap.persist_logs_to_disk);

    let low = ConfigPatch {
        direct_timeout_secs: Some(MIN_DIRECT_TIMEOUT_SECS),
        ..Default::default()
    };
    cfg.apply_patch(&low).unwrap();
    assert_eq!(cfg.snapshot().direct_timeout_secs, 1);
}

#[test]
fn rejected_timeout_message_names_the_value() {
    let mut cfg = Config::fallback();
    let patch = ConfigPatch {
        direct_timeout_secs: Some(601),
        ..Default::default()
    };
    let err = cfg.apply_patch(&patch).unwrap_err();
    assert!(err.0.contains("601"), "got {}", err.0);
    assert_eq!(cfg.snapshot().direct_timeout_secs, 30);
}

#[test]
fn empty_patch_leaves_config_unchanged() {
    let mut cfg = Config::fallback();
    let before = cfg.snapshot();
    cfg.apply_patch(&ConfigPatch::default()).unwrap();
    assert_eq!(cfg.snapshot(), before);
}

#[test]
fn rejected_patch_changes_nothing() {
    let mut cfg = Config::fallback();
    let before = cfg.snapshot();
    let patch = ConfigPatch {
        history_retention_days: Some(7),
        direct_timeout_secs: Some(0),
        close_to_tray: Some(false),
        ..Default::default()
    };
    assert!(cfg.apply_patch(&patch).is_err());
    assert_eq!(cfg.snapshot(), before);
    assert_eq!(cfg.history.retention_days, before.history_retention_days);
}
