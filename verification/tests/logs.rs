use skattr_core::daemon::commands::LogLevel;
use skattr_core::daemon::logs::{ring_message, LogRing, Redactor, RING_CAP};

#[test]
fn ring_evicts_oldest_when_full() {
    let mut ring = LogRing::new();
    for i in 0..(RING_CAP + 10) {
        ring.push(LogLevel::Info, "test".into(), format!("msg-{i}"), 0);
    }
    let (records, _) = ring.snapshot(None, 1000);
    // Oldest in buffer should be msg-10 (first 10 evicted).
    assert!(records.iter().any(|r| r.message == "msg-10"));
    assert!(!records.iter().any(|r| r.message == "msg-0"));
}

#[test]
fn snapshot_respects_since_seq_and_limit() {
    let mut ring = LogRing::new();
    for i in 0..100 {
        ring.push(LogLevel::Info, "t".into(), format!("m-{i}"), 0);
    }
    let (records, next) = ring.snapshot(Some(50), 10);
    assert_eq!(records.len(), 10);
    assert_eq!(records[0].seq, 50);
    assert_eq!(next, 60);
}

#[test]
fn snapshot_pages_chain_without_gaps() {
    let mut ring = LogRing::new();
    for i in 0..25 {
        ring.push(LogLevel::Warn, "t".into(), format!("m-{i}"), 7);
    }
    let (first, next) = ring.snapshot(None, 10);
    let (second, next2) = ring.snapshot(Some(next), 10);
    let (third, next3) = ring.snapshot(Some(next2), 10);
    let (empty, next4) = ring.snapshot(Some(next3), 10);
    let seqs: Vec<u64> = first.iter().chain(&second).chain(&third).map(|r| r.seq).collect();
    assert_eq!(seqs, (1..=25).collect::<Vec<u64>>());
    assert!(empty.is_empty());
    assert_eq!(next4, next3);
    assert_eq!(next3, 26);
}

#[test]
fn snapshot_caps_the_page_at_one_thousand() {
    let mut ring = LogRing::new();
    for _ in 0..1500 {
        ring.push(LogLevel::Info, "t".into(), "x".into(), 0);
    }
    let (records, next) = ring.snapshot(None, 5000);
    assert_eq!(records.len(), 1000);
    assert_eq!(next, 1001);
}

#[test]
fn push_hands_out_consecutive_sequence_numbers() {
    let mut ring = LogRing::new();
    assert_eq!(ring.next_seq(), 1);
    let a = ring.push(LogLevel::Error, "a".into(), "one".into(), 11);
    let b = ring.push(LogLevel::Debug, "b".into(), "two".into(), 12);
    assert_eq!((a.seq, b.seq), (1, 2));
    assert_eq!(a.ts_unix_ms, 11);
    assert_eq!(b.target, "b");
    assert_eq!(ring.next_seq(), 3);
}

#[test]
fn redactor_strips_hex_pubkey_and_onion() {
    let r = Redactor::new();
    let pubkey = "abcd1234".repeat(8); // 64 hex chars
    let onion = format!("{}.onion", "a".repeat(56));
    let input = format!("peer {pubkey} at {onion}");
    let out = r.redact(&input);
    assert!(out.contains("[REDACTED-PUBKEY]"));
    assert!(out.contains("[REDACTED-ONION]"));
    assert!(!out.contains(&pubkey));
    assert!(!out.contains(&onion));
}

#[test]
fn redactor_strips_secret_fields() {
    let r = Redactor::new();
    let out = r.redact("body=hello psk=00112233 ok=true");
    assert!(out.contains("body=[REDACTED]"));
    assert!(out.contains("psk=[REDACTED]"));
    assert!(out.contains("ok=true"));
}

#[test]
fn redactor_leaves_short_hex_alone() {
    let r = Redactor::new();
    let out = r.redact("id=abc123"); // not 64 chars
    assert!(out.contains("abc123"));
}

#[test]
fn redactor_output_is_exact() {
    let r = Redactor::new();
    let pubkey = "0".repeat(64);
    assert_eq!(
        r.redact(&format!("peer={pubkey} seed=abc done")),
        "peer=[REDACTED-PUBKEY] seed=[REDACTED] done"
    );
}

#[test]
fn ring_message_redacts_only_above_debug() {
    let r = Redactor::new();
    let pubkey = "a".repeat(64);
    let text = format!("peer={pubkey}");
    assert_eq!(ring_message(&r, LogLevel::Debug, text.clone()), text);
    assert_eq!(ring_message(&r, LogLevel::Trace, text.clone()), text);
    assert_eq!(
        ring_message(&r, LogLevel::Info, text.clone()),
        "peer=[REDACTED-PUBKEY]"
    );
    assert_eq!(
        ring_message(&r, LogLevel::Error, text),
        "peer=[REDACTED-PUBKEY]"
    );
}

#[test]
fn ring_holds_the_latest_records_with_consecutive_sequence_numbers() {
    let mut ring = LogRing::new();
    for i in 0..(RING_CAP + 10) {
        ring.push(LogLevel::Info, "t".into(), format!("msg-{i}"), 0);
    }
    let (records, _) = ring.snapshot(Some(0), 1000);
    assert_eq!(records[0].seq, 11);
    assert_eq!(records[0].message, "msg-10");
    let (tail, _) = ring.snapshot(Some(5009), 1000);
    assert_eq!(tail.len(), 2);
    assert_eq!(tail[1].seq, (RING_CAP + 10) as u64);
    assert_eq!(ring.next_seq(), (RING_CAP + 11) as u64);
}
