use skattr_core::daemon::clock::{
    log_millis_from, now_unix_millis, now_unix_seconds, unix_millis_from, unix_seconds_from,
};

#[test]
fn readings_convert_and_saturate() {
    assert_eq!(unix_seconds_from(Some((1_700_000_000, 999_999_999))), 1_700_000_000);
    assert_eq!(unix_seconds_from(None), 0);
    assert_eq!(unix_seconds_from(Some((u64::MAX, 0))), 0);
    assert_eq!(unix_millis_from(Some((1_700_000_000, 123_456_789))), 1_700_000_000_123);
    assert_eq!(unix_millis_from(Some((u64::MAX / 1000, 0))), 0);
    assert_eq!(unix_millis_from(None), 0);
    assert_eq!(log_millis_from(Some((2, 5_000_000))), 2_005);
    assert_eq!(log_millis_from(None), 0);
}

#[test]
fn system_clock_is_after_2020() {
    assert!(now_unix_seconds() > 1_577_836_800);
    assert!(now_unix_millis() > 1_577_836_800_000);
}
