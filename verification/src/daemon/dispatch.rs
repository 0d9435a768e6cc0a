//! The decisions the command handlers make around their storage and network
//! work: argument validation, previews, paging cursors and message direction.

use vstd::prelude::*;
use crate::contact::card::strings_view;
use crate::daemon::commands::{clamp_ts, ContactSummary, Direction, MailboxSummary, MessageRecord};
use crate::daemon::events::MailboxStatus;
use crate::daemon::error_kind::DaemonErrorKind;
use crate::envelope::Kind;
use crate::identity::PublicKey;
use crate::text::{trim, trimmed};
use vstd::utf8::encode_utf8;

verus! {

/// Code points kept in a contact list's last-message preview.
pub const PREVIEW_CHARS: usize = 80;

/// Longest nickname accepted, in code points.
pub const NICKNAME_MAX_CHARS: usize = 64;

/// Most records one export page carries (keeps the reply under the IPC body cap).
pub const EXPORT_PAGE_MAX: u32 = 1000;

/// Shortest new passphrase accepted, in UTF-8 bytes.
pub const MIN_PASSPHRASE_BYTES: usize = 8;

/// Lowest zxcvbn score a new passphrase must reach.
pub const MIN_PASSPHRASE_SCORE: u8 = 3;

/// The first `max_chars` code points of `s` (all of `s` if it is shorter).
pub open spec fn preview_of(s: Seq<char>, max_chars: nat) -> Seq<char> {
    if s.len() <= max_chars {
        s
    } else {
        s.take(max_chars as int)
    }
}

/// Truncate `s` to at most `max_chars` Unicode code points.
pub fn truncate_preview(s: &str, max_chars: usize) -> (t: String)
    ensures
        t@ == preview_of(s@, max_chars as nat),
{
    let mut out = String::new();
    let mut taken: usize = 0;
    for c in it: s.chars()
        invariant
            out@ == preview_of(it.seq().take(it.index() as int), max_chars as nat),
            it.seq() == s@,
            taken as int == if it.index() < max_chars { it.index() } else { max_chars as int },
    {
        if taken < max_chars {
            crate::text::push_char(&mut out, c);
            taken += 1;
        }
        assert(it.seq().take(it.index() + 1).drop_last() =~= it.seq().take(it.index() as int));
        assert(preview_of(it.seq().take(it.index() + 1), max_chars as nat) =~= if it.index()
            < max_chars {
            preview_of(it.seq().take(it.index() as int), max_chars as nat).push(c)
        } else {
            preview_of(it.seq().take(it.index() as int), max_chars as nat)
        });
    }
    assert(s@.take(s@.len() as int) =~= s@);
    out
}

/// `e` is an `InvalidArgument` whose message is `m`.
pub open spec fn is_invalid_argument(e: DaemonErrorKind, m: Seq<char>) -> bool {
    e matches DaemonErrorKind::InvalidArgument { message } && message@ == m
}

/// The nickname a rename stores: `None` clears it; otherwise the trimmed
/// text, which must be non-empty and at most `NICKNAME_MAX_CHARS` code points.
pub fn validate_nickname(nickname: Option<String>) -> (r: Result<Option<String>, DaemonErrorKind>)
    ensures
        nickname is None ==> r == Ok::<Option<String>, DaemonErrorKind>(None),
        nickname matches Some(n) ==> {
            let t = trimmed(n@);
            &&& t.len() == 0 ==> (r matches Err(e) && is_invalid_argument(
                e,
                "nickname must not be empty or whitespace-only"@,
            ))
            &&& t.len() > NICKNAME_MAX_CHARS ==> (r matches Err(e) && is_invalid_argument(
                e,
                "nickname must be 64 characters or fewer"@,
            ))
            &&& 0 < t.len() <= NICKNAME_MAX_CHARS ==> (r matches Ok(Some(v)) && v@ == t)
        },
{
    match nickname {
        None => Ok(None),
        Some(n) => {
            let t = trim(n.as_str());
            let count = crate::text::chars_of(t.as_str()).len();
            if count == 0 {
                proof {
                    reveal_strlit("nickname must not be empty or whitespace-only");
                }
                return Err(
                    DaemonErrorKind::InvalidArgument {
                        message: String::from_str("nickname must not be empty or whitespace-only"),
                    },
                );
            }
            if count > NICKNAME_MAX_CHARS {
                proof {
                    reveal_strlit("nickname must be 64 characters or fewer");
                }
                return Err(
                    DaemonErrorKind::InvalidArgument {
                        message: String::from_str("nickname must be 64 characters or fewer"),
                    },
                );
            }
            Ok(Some(t))
        },
    }
}

/// What a history prune removes.
#[derive(Debug, Clone, Copy, PartialEq, Eq)]
pub enum PruneMode {
    /// Rows received before this unix time.
    BeforeTs(i64),
    /// All but the newest `n` rows of one contact.
    KeepLast(u64),
}

/// The prune a request asks for: exactly one of `before_ts_recv` and
/// `keep_last` must be given, and `keep_last` needs a contact to scope it.
pub fn prune_mode(before_ts_recv: Option<i64>, keep_last: Option<u64>, has_contact: bool) -> (r:
    Result<PruneMode, DaemonErrorKind>)
    ensures
        before_ts_recv is Some == keep_last is Some ==> (r matches Err(e) && is_invalid_argument(
            e,
            "exactly one of before_ts_recv or keep_last must be Some"@,
        )),
        keep_last is None ==> (before_ts_recv matches Some(ts) ==> r == Ok::<
            PruneMode,
            DaemonErrorKind,
        >(PruneMode::BeforeTs(ts))),
        before_ts_recv is None ==> (keep_last matches Some(k) ==> if has_contact {
            r == Ok::<PruneMode, DaemonErrorKind>(PruneMode::KeepLast(k))
        } else {
            r matches Err(e) && is_invalid_argument(e, "keep_last requires a contact"@)
        }),
{
    match (before_ts_recv, keep_last) {
        (Some(ts), None) => Ok(PruneMode::BeforeTs(ts)),
        (None, Some(k)) => {
            if has_contact {
                Ok(PruneMode::KeepLast(k))
            } else {
                proof {
                    reveal_strlit("keep_last requires a contact");
                }
                Err(
                    DaemonErrorKind::InvalidArgument {
                        message: String::from_str("keep_last requires a contact"),
                    },
                )
            }
        },
        _ => {
            proof {
                reveal_strlit("exactly one of before_ts_recv or keep_last must be Some");
            }
            Err(
                DaemonErrorKind::InvalidArgument {
                    message: String::from_str(
                        "exactly one of before_ts_recv or keep_last must be Some",
                    ),
                },
            )
        },
    }
}

/// Records one export page may carry for a requested `limit`.
pub fn export_page_limit(limit: u32) -> (lim: u32)
    ensures
        lim == if limit <= EXPORT_PAGE_MAX {
            limit
        } else {
            EXPORT_PAGE_MAX
        },
{
    if limit <= EXPORT_PAGE_MAX {
        limit
    } else {
        EXPORT_PAGE_MAX
    }
}

/// Cursor of a backwards page of messages: a full page (as many records as
/// asked for) may have older rows behind it, so the oldest record's row id is
/// where the next page starts; a short or empty page ends the stream.
pub fn next_before_id(records: &Vec<MessageRecord>, limit: usize) -> (c: Option<i64>)
    ensures
        c == if records@.len() == limit && records@.len() > 0 {
            Some(records@.last().row_id)
        } else {
            None::<i64>
        },
{
    if records.len() == limit && records.len() > 0 {
        Some(records[records.len() - 1].row_id)
    } else {
        None
    }
}

/// Cursor of a forward export page: when the store returned a full page
/// (`limit > 0` rows) the last row id is where the next page starts.
pub fn next_after_id(row_ids: &[i64], limit: usize) -> (c: Option<i64>)
    ensures
        c == if row_ids@.len() == limit && limit > 0 {
            Some(row_ids@.last())
        } else {
            None::<i64>
        },
{
    if row_ids.len() == limit && limit > 0 {
        Some(row_ids[row_ids.len() - 1])
    } else {
        None
    }
}

/// The 32-byte key a stored sender column names; a column of another length
/// reads as all zeros.
pub open spec fn sender_key(sender: Seq<u8>) -> Seq<u8> {
    if sender.len() == 32 {
        sender
    } else {
        Seq::new(32, |i: int| 0u8)
    }
}

/// Direction of a stored row: outgoing exactly when its sender is us.
pub fn sender_direction(sender: &[u8], me: &PublicKey) -> (d: Direction)
    ensures
        d == if sender_key(sender@) == me.0@ {
            Direction::Outgoing
        } else {
            Direction::Incoming
        },
{
    let mut key = [0u8; 32];
    if sender.len() == 32 {
        let mut i: usize = 0;
        while i < 32
            invariant
                sender@.len() == 32,
                key@.len() == 32,
                0 <= i <= 32,
                forall|j: int| 0 <= j < i ==> key@[j] == sender@[j],
                forall|j: int| i <= j < 32 ==> key@[j] == 0u8,
            decreases 32 - i,
        {
            key[i] = sender[i];
            i += 1;
        }
        assert(key@ =~= sender_key(sender@));
    } else {
        assert(key@ =~= sender_key(sender@));
    }
    let ours = PublicKey(key) == *me;
    proof {
        broadcast use vstd::array::axiom_array_ext_equal;

        if key@ == me.0@ {
            assert(key =~= me.0);
        }
    }
    if ours {
        Direction::Outgoing
    } else {
        Direction::Incoming
    }
}

/// Refuse the kinds a user may not send: a contact-card update is produced
/// only by the daemon's own card publishing.
pub fn check_user_sendable(kind: &Kind) -> (r: Result<(), DaemonErrorKind>)
    ensures
        kind is ContactCardUpdate ==> (r matches Err(e) && is_invalid_argument(
            e,
            "ContactCardUpdate is not a user-sendable message kind"@,
        )),
        !(kind is ContactCardUpdate) ==> r == Ok::<(), DaemonErrorKind>(()),
{
    match kind {
        Kind::ContactCardUpdate { .. } => {
            proof {
                reveal_strlit("ContactCardUpdate is not a user-sendable message kind");
            }
            Err(
                DaemonErrorKind::InvalidArgument {
                    message: String::from_str(
                        "ContactCardUpdate is not a user-sendable message kind",
                    ),
                },
            )
        },
        _ => Ok(()),
    }
}

/// What zxcvbn scores `password` (no user inputs): 0 (weakest) to 4.
pub uninterp spec fn zxcvbn_score_of(password: Seq<char>) -> u8;

/// zxcvbn's score of `password` (`zxcvbn::zxcvbn(password, &[]).score()` as `u8`).
///
/// Trusted: the result is named `zxcvbn_score_of(password)`; the crate's
/// `Score` has the five values 0 to 4, and an empty password scores 0.
#[verifier::external_body]
fn zxcvbn_score(password: &str) -> (score: u8)
    ensures
        score == zxcvbn_score_of(password@),
        score <= 4,
        password@.len() == 0 ==> score == 0,
{
    u8::from(zxcvbn::zxcvbn(password, &[]).score())
}

/// What a passphrase change decides, given zxcvbn's `score` of the new one:
/// the new passphrase must have at least `MIN_PASSPHRASE_BYTES` UTF-8 bytes,
/// a score of at least `MIN_PASSPHRASE_SCORE`, and differ from the old one,
/// checked in that order.
pub open spec fn passphrase_verdict(
    r: Result<(), DaemonErrorKind>,
    old: Seq<char>,
    new: Seq<char>,
    score: u8,
) -> bool {
    if encode_utf8(new).len() < MIN_PASSPHRASE_BYTES {
        r matches Err(e) && is_invalid_argument(e, "new passphrase must be at least 8 characters"@)
    } else if score < MIN_PASSPHRASE_SCORE {
        r matches Err(e) && is_invalid_argument(e, "new passphrase too weak (zxcvbn score < 3)"@)
    } else if old == new {
        r matches Err(e) && is_invalid_argument(e, "new passphrase must differ from current"@)
    } else {
        r == Ok::<(), DaemonErrorKind>(())
    }
}

/// The verdict on a passphrase change whose new passphrase zxcvbn scored `score`.
pub fn passphrase_change_verdict(old: &str, new: &str, score: u8) -> (r: Result<(), DaemonErrorKind>)
    ensures
        passphrase_verdict(r, old@, new@, score),
{
    if new.as_bytes().len() < MIN_PASSPHRASE_BYTES {
        proof {
            reveal_strlit("new passphrase must be at least 8 characters");
        }
        return Err(
            DaemonErrorKind::InvalidArgument {
                message: String::from_str("new passphrase must be at least 8 characters"),
            },
        );
    }
    if score < MIN_PASSPHRASE_SCORE {
        proof {
            reveal_strlit("new passphrase too weak (zxcvbn score < 3)");
        }
        return Err(
            DaemonErrorKind::InvalidArgument {
                message: String::from_str("new passphrase too weak (zxcvbn score < 3)"),
            },
        );
    }
    if crate::text::same_chars(old, new) {
        proof {
            reveal_strlit("new passphrase must differ from current");
        }
        return Err(
            DaemonErrorKind::InvalidArgument {
                message: String::from_str("new passphrase must differ from current"),
            },
        );
    }
    Ok(())
}

/// Check a requested passphrase change before the vault is touched.
pub fn check_passphrase_change(old: &str, new: &str) -> (r: Result<(), DaemonErrorKind>)
    ensures
        passphrase_verdict(r, old@, new@, zxcvbn_score_of(new@)),
{
    let score = zxcvbn_score(new);
    passphrase_change_verdict(old, new, score)
}

/// Lifetime of an invite when the request names none: 24 hours.
pub const DEFAULT_INVITE_TTL_SECS: u64 = 86_400;

/// The lifetime an invite gets: the requested one, or `DEFAULT_INVITE_TTL_SECS`.
pub fn invite_ttl(ttl_secs: Option<u64>) -> (t: u64)
    ensures
        t == match ttl_secs {
            Some(t) => t,
            None => DEFAULT_INVITE_TTL_SECS,
        },
{
    match ttl_secs {
        Some(t) => t,
        None => DEFAULT_INVITE_TTL_SECS,
    }
}

/// When an invite made at `now` with lifetime `ttl` expires, as stored
/// (`i64`) and as reported (`u64`, 0 if negative); `None` when the time does
/// not fit an `i64`.
pub fn invite_expiry(now: i64, ttl: u64) -> (r: Option<(i64, u64)>)
    ensures
        now + ttl <= i64::MAX ==> r == Some(((now + ttl) as i64, clamp_ts((now + ttl) as i64))),
        now + ttl > i64::MAX ==> r is None,
{
    let e: i128 = now as i128 + ttl as i128;
    if e > i64::MAX as i128 {
        return None;
    }
    let stored = e as i64;
    Some((stored, if stored >= 0 { stored as u64 } else { 0 }))
}

/// The onions of the mailboxes in `rows` that are reachable, in order.
pub open spec fn reachable_onions_spec(rows: Seq<MailboxSummary>) -> Seq<Seq<char>>
    decreases rows.len(),
{
    if rows.len() == 0 {
        Seq::empty()
    } else if rows.last().status == MailboxStatus::Reachable {
        reachable_onions_spec(rows.drop_last()).push(rows.last().onion@)
    } else {
        reachable_onions_spec(rows.drop_last())
    }
}

/// The onions a self-card advertises: those of our reachable mailboxes.
pub fn reachable_onions(rows: &Vec<MailboxSummary>) -> (r: Vec<String>)
    ensures
        strings_view(r@) == reachable_onions_spec(rows@),
{
    let mut r: Vec<String> = Vec::new();
    let mut i: usize = 0;
    while i < rows.len()
        invariant
            i <= rows@.len(),
            strings_view(r@) == reachable_onions_spec(rows@.take(i as int)),
        decreases rows@.len() - i,
    {
        assert(rows@.take(i + 1).drop_last() =~= rows@.take(i as int));
        if rows[i].status == MailboxStatus::Reachable {
            let ghost before = r@;
            r.push(rows[i].onion.clone());
            assert(strings_view(r@) =~= strings_view(before).push(rows@[i as int].onion@));
        }
        i += 1;
    }
    assert(rows@.take(rows@.len() as int) =~= rows@);
    r
}

/// The summary an added contact is answered with: the inviter's key and the
/// onion of its invite card, added now, with nothing else known yet.
pub fn added_contact_summary(inviter: PublicKey, onion: String, now: i64) -> (s: ContactSummary)
    ensures
        s.pubkey == inviter,
        s.nickname is None,
        s.onion@ == onion@,
        s.card_version == 0,
        s.added_at == clamp_ts(now),
        s.unread_count == 0,
        s.last_message_preview is None,
        s.last_ts_recv is None,
        s.group_state is None,
        s.last_read_row_id is None,
        !s.muted,
        s.peer_mailboxes@.len() == 0,
        !s.welcome_failed,
{
    ContactSummary {
        pubkey: inviter,
        nickname: None,
        onion,
        card_version: 0,
        added_at: if now >= 0 {
            now as u64
        } else {
            0
        },
        unread_count: 0,
        last_message_preview: None,
        last_ts_recv: None,
        group_state: None,
        last_read_row_id: None,
        muted: false,
        peer_mailboxes: Vec::new(),
        welcome_failed: false,
    }
}

/// The group a contact's stored group id names: a missing or empty id means
/// the contact has no conversation, reported as `ContactNotFound`.
pub fn resolve_group(group_id: Option<Vec<u8>>) -> (r: Result<Vec<u8>, DaemonErrorKind>)
    ensures
        match group_id {
            Some(g) if g@.len() > 0 => (r matches Ok(v) && v@ == g@),
            _ => r == Err::<Vec<u8>, DaemonErrorKind>(DaemonErrorKind::ContactNotFound),
        },
{
    match group_id {
        Some(g) => {
            if g.len() > 0 {
                Ok(g)
            } else {
                Err(DaemonErrorKind::ContactNotFound)
            }
        },
        None => Err(DaemonErrorKind::ContactNotFound),
    }
}

/// A group id must be exactly 32 bytes; anything else means the stored group
/// state is corrupt.
pub fn group_id_array(group_id: &[u8]) -> (r: Result<[u8; 32], DaemonErrorKind>)
    ensures
        group_id@.len() == 32 ==> (r matches Ok(a) && a@ == group_id@),
        group_id@.len() != 32 ==> r == Err::<[u8; 32], DaemonErrorKind>(
            DaemonErrorKind::GroupCorrupt,
        ),
{
    if group_id.len() != 32 {
        return Err(DaemonErrorKind::GroupCorrupt);
    }
    let mut a = [0u8; 32];
    let mut i: usize = 0;
    while i < 32
        invariant
            group_id@.len() == 32,
            a@.len() == 32,
            0 <= i <= 32,
            forall|j: int| 0 <= j < i ==> a@[j] == group_id@[j],
        decreases 32 - i,
    {
        a[i] = group_id[i];
        i += 1;
    }
    assert(a@ =~= group_id@);
    Ok(a)
}

/// A self-card advertises exactly the reachable mailboxes: the onions it
/// lists are those of the rows whose status is `Reachable`, one per such
/// row, in row order; no unreachable, pending-removal or removed mailbox is
/// listed.
pub proof fn lemma_only_reachable_onions_advertised(rows: Seq<MailboxSummary>)
    ensures
        reachable_onions_spec(rows) == rows.filter(
            |r: MailboxSummary| r.status == MailboxStatus::Reachable,
        ).map_values(|r: MailboxSummary| r.onion@),
        forall|k: int|
            0 <= k < reachable_onions_spec(rows).len() ==> exists|i: int|
                0 <= i < rows.len() && rows[i].status == MailboxStatus::Reachable
                    && #[trigger] reachable_onions_spec(rows)[k] == rows[i].onion@,
    decreases rows.len(),
{
    reveal(Seq::filter);
    let pred = |r: MailboxSummary| r.status == MailboxStatus::Reachable;
    let f = |r: MailboxSummary| r.onion@;
    if rows.len() > 0 {
        let init = rows.drop_last();
        lemma_only_reachable_onions_advertised(init);
        if pred(rows.last()) {
            assert(init.filter(pred).push(rows.last()).map_values(f) =~= init.filter(pred).map_values(
                f,
            ).push(f(rows.last())));
        }
        let out = reachable_onions_spec(rows);
        assert forall|k: int| 0 <= k < out.len() implies exists|i: int|
            0 <= i < rows.len() && rows[i].status == MailboxStatus::Reachable
                && #[trigger] out[k] == rows[i].onion@ by {
            if k < reachable_onions_spec(init).len() {
                assert(out[k] == reachable_onions_spec(init)[k]);
                let i = choose|i: int|
                    0 <= i < init.len() && init[i].status == MailboxStatus::Reachable
                        && #[trigger] reachable_onions_spec(init)[k] == init[i].onion@;
                assert(rows[i] == init[i]);
            } else {
                assert(rows[rows.len() - 1] == rows.last());
            }
        }
    } else {
        assert(rows.filter(pred).map_values(f) =~= Seq::<Seq<char>>::empty());
    }
}

} // verus!
