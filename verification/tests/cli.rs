use skattr_core::cli::{
    file_kind_line,
    render_contacts_human, render_message_line, render_messages_human, resolve_attachment_prefix,
    resolve_contact, server_error_report, trim_one_newline, PrefixError,
};
use skattr_core::daemon::error_kind::DaemonErrorKind;
use skattr_core::daemon::ipc::wire::IpcError;
use skattr_core::daemon::commands::{ContactSummary, Direction};
use skattr_core::identity::PublicKey;

fn row(pubkey: [u8; 32], nickname: Option<&str>) -> ContactSummary {
    ContactSummary {
        pubkey: PublicKey(pubkey),
        nickname: nickname.map(|s| s.to_string()),
        onion: "".into(),
        card_version: 0,
        added_at: 0,
        unread_count: 0,
        last_message_preview: None,
        last_ts_recv: None,
        group_state: None,
        last_read_row_id: None,
        muted: false,
        peer_mailboxes: Vec::new(),
        welcome_failed: false,
    }
}

#[test]
fn resolve_contact_matches_unique_prefix() {
    let rows = vec![row([0xAB; 32], None), row([0xCD; 32], None)];
    let pk = resolve_contact(&rows, "ab").unwrap();
    assert_eq!(pk.0[0], 0xAB);
}

#[test]
fn resolve_contact_ambiguous_returns_error_with_count() {
    let mut b = [0xAB; 32];
    b[1] = 0xCD;
    let rows = vec![row([0xAB; 32], None), row(b, None)];
    let err = resolve_contact(&rows, "ab").unwrap_err();
    assert_eq!(err, PrefixError::Ambiguous(2));
    let msg = err.message("contact", "ab");
    assert!(msg.contains("ambiguous"), "got {msg}");
    assert_eq!(msg, "ambiguous: 2 contacts match \"ab\"");
}

#[test]
fn resolve_contact_no_match_returns_error() {
    let rows: Vec<ContactSummary> = vec![];
    let err = resolve_contact(&rows, "ff").unwrap_err();
    assert_eq!(err, PrefixError::NoMatch);
    let msg = err.message("contact", "ff");
    assert!(msg.contains("no contact"), "got {msg}");
    assert_eq!(msg, "no contact matches \"ff\"");
}

#[test]
fn resolve_contact_by_nickname_ignores_ascii_case() {
    let rows = vec![row([0x01; 32], Some("Alice")), row([0x02; 32], Some("bob"))];
    assert_eq!(resolve_contact(&rows, "aLiCe").unwrap().0[0], 0x01);
    assert_eq!(resolve_contact(&rows, "AB").unwrap_err(), PrefixError::NoMatch);
    assert_eq!(resolve_contact(&rows, "0").unwrap_err(), PrefixError::Ambiguous(2));
    assert_eq!(resolve_contact(&rows, "0202").unwrap().0[0], 0x02);
}

#[test]
fn render_contacts_human_empty() {
    let out = render_contacts_human(&vec![]);
    assert_eq!(out.trim(), "No contacts.");
}

#[test]
fn render_contacts_human_one_row() {
    let mut r = row([0xAB; 32], Some("alice"));
    r.onion = "aaaa.onion".into();
    r.card_version = 3;
    r.added_at = 1_700_000_000;
    let out = render_contacts_human(&vec![r]);
    assert!(out.contains("alice"));
    assert!(out.contains("aaaa.onion"));
    assert!(out.contains("abab")); // pubkey prefix
    assert_eq!(
        out,
        format!("abababab  {:<20}  aaaa.onion  added=1700000000\n", "alice")
    );
}

#[test]
fn render_messages_human_empty() {
    let out = render_messages_human(&vec![]);
    assert_eq!(out.trim(), "No messages.");
}

#[test]
fn render_messages_human_one_text_row() {
    let line = render_message_line(1_700_000_000, Direction::Incoming, &PublicKey([7; 32]), "hello");
    let out = render_messages_human(&vec![line]);
    assert!(out.contains("hello"));
    assert!(out.contains("<-")); // incoming arrow
}

#[test]
fn render_event_message_received_matches_one_shot_format() {
    let line =
        render_message_line(1_700_000_900, Direction::Incoming, &PublicKey([0x42; 32]), "live update");
    let one_shot = render_messages_human(&vec![line.clone()]);
    assert_eq!(one_shot.trim_end(), line.trim_end());
    assert!(line.contains("live update"));
    assert_eq!(line, "[1700000900] <- 42424242 live update");
}

#[test]
fn messages_print_oldest_first() {
    let out = render_messages_human(&vec!["newest".to_string(), "older".to_string()]);
    assert_eq!(out, "older\nnewest\n");
    let out_line = render_message_line(5, Direction::Outgoing, &PublicKey([0; 32]), "x");
    assert_eq!(out_line, "[5] -> 00000000 x");
}

#[test]
fn resolve_attachment_id_matches_a_unique_prefix() {
    let ids = vec![[0xAB; 16], [0xCD; 16]];
    assert_eq!(resolve_attachment_prefix(&ids, "abab"), Ok(0));
}

#[test]
fn resolve_attachment_id_is_case_insensitive() {
    let ids = vec![[0xAB; 16]];
    assert!(resolve_attachment_prefix(&ids, "ABAB").is_ok());
}

#[test]
fn resolve_attachment_id_ambiguous_reports_the_count() {
    let mut a = [0u8; 16];
    a[0] = 0xAB;
    let mut b = [0u8; 16];
    b[0] = 0xAB;
    b[15] = 0x01;
    let err = resolve_attachment_prefix(&vec![a, b], "ab").unwrap_err();
    assert_eq!(err, PrefixError::Ambiguous(2));
    let msg = err.message("attachment", "ab");
    assert!(msg.contains('2'), "should report the count: {msg}");
    assert!(msg.to_lowercase().contains("ambiguous"), "got {msg}");
    assert_eq!(msg, "ambiguous: 2 attachments match \"ab\"");
}

#[test]
fn resolve_attachment_id_no_match_errors() {
    let ids = vec![[0xAB; 16]];
    let err = resolve_attachment_prefix(&ids, "ffff").unwrap_err();
    assert_eq!(err, PrefixError::NoMatch);
    let msg = err.message("attachment", "ffff");
    assert!(msg.contains("ffff"), "should quote the prefix: {msg}");
    assert_eq!(msg, "no attachment matches \"ffff\"");
}

#[test]
fn prefix_message_quotes_like_debug_formatting() {
    for p in ["", "ab", "a\"b", "back\\slash", "tab\there", "nl\n", "cr\r", "nul\0", "bell\u{7}", "del\u{7f}", "c1\u{9b}", "caf\u{e9}", "it's"] {
        assert_eq!(PrefixError::NoMatch.message("contact", p), format!("no contact matches {p:?}"));
        assert_eq!(
            PrefixError::Ambiguous(12).message("attachment", p),
            format!("ambiguous: 12 attachments match {p:?}")
        );
    }
}

#[test]
fn repeated_attachment_ids_count_once() {
    let ids = vec![[0xAB; 16], [0xAB; 16], [0x01; 16]];
    assert_eq!(resolve_attachment_prefix(&ids, "ab"), Ok(0));
    assert_eq!(resolve_attachment_prefix(&ids, ""), Err(PrefixError::Ambiguous(2)));
}

#[test]
fn daemon_errors_map_to_messages_and_exit_codes() {
    assert_eq!(
        server_error_report(&IpcError::AuthDenied),
        Some(("ipc: auth denied (peer-cred mismatch)".to_string(), 4))
    );
    assert_eq!(
        server_error_report(&IpcError::Daemon(DaemonErrorKind::ContactAmbiguous { matches: 3 })),
        Some(("contact prefix is ambiguous (3 matches)".to_string(), 6))
    );
    assert_eq!(
        server_error_report(&IpcError::Daemon(DaemonErrorKind::DeliveryTimeout)),
        Some(("delivery timed out".to_string(), 8))
    );
    assert_eq!(
        server_error_report(&IpcError::Daemon(DaemonErrorKind::InvalidArgument {
            message: "bad".into()
        })),
        Some(("argument error: bad".to_string(), 2))
    );
    assert_eq!(server_error_report(&IpcError::UnknownCommand), None);
}

#[test]
fn trim_one_newline_removes_exactly_one_line_ending() {
    assert_eq!(trim_one_newline("secret-pw\n".into()), "secret-pw");
    assert_eq!(trim_one_newline("line1\nline2\n".into()), "line1\nline2");
    assert_eq!(trim_one_newline("pw\r\n".into()), "pw");
    assert_eq!(trim_one_newline("pw\n\n".into()), "pw\n");
    assert_eq!(trim_one_newline("pw\r".into()), "pw\r");
    assert_eq!(trim_one_newline("".into()), "");
}

const DISTINCT_ID: [u8; 16] = [
    0x11, 0x22, 0x33, 0x44, 0x55, 0x66, 0x77, 0x88, 0x99, 0xaa, 0xbb, 0xcc, 0xdd, 0xee, 0xff, 0x00,
];

#[test]
fn file_kind_line_shows_name_size_and_id() {
    let out = file_kind_line("logs.tar.gz", "2.4 MiB", &DISTINCT_ID, Some(true));
    assert!(out.contains("logs.tar.gz"), "got {out}");
    assert!(out.contains("2.4 MiB"), "got {out}");
    assert!(out.contains("id=1122334455667788"), "got {out}");
    assert!(!out.contains("112233445566778899"), "id not truncated: {out}");
    assert!(out.contains("available"), "got {out}");
    assert_eq!(out, "\u{1F4CE} logs.tar.gz  2.4 MiB  id=1122334455667788  available");
}

#[test]
fn file_kind_line_marks_incomplete_when_unavailable() {
    let out = file_kind_line("huge.bin", "40 B", &[0x4f; 16], Some(false));
    assert!(out.contains("incomplete"), "got {out}");
    assert!(!out.contains("available"), "must not claim available: {out}");
    assert_eq!(out, "\u{1F4CE} huge.bin  40 B  id=4f4f4f4f4f4f4f4f  incomplete");
}

#[test]
fn file_kind_line_omits_state_when_availability_unknown() {
    let out = file_kind_line("sent.bin", "10 B", &[0x11; 16], None);
    assert!(out.contains("sent.bin"), "got {out}");
    assert!(!out.contains("available"), "got {out}");
    assert!(!out.contains("incomplete"), "got {out}");
    assert_eq!(out, "\u{1F4CE} sent.bin  10 B  id=1111111111111111");
}
