//! The contact list: each contact projected onto its wire summary, and the
//! order the list is shown in (recent conversations first).

use vstd::prelude::*;
use crate::contact::card::strings_view;
use crate::contact::Contact;
use crate::daemon::commands::{clamp_ts, ContactSummary, MailboxSummary, MlsGroupStateLabel};
use crate::daemon::dispatch::{preview_of, truncate_preview, PREVIEW_CHARS};
use crate::daemon::events::MailboxStatus;
use crate::envelope::Kind;

verus! {

/// The characters of an optional string.
pub open spec fn opt_chars(o: Option<String>) -> Option<Seq<char>> {
    match o {
        Some(s) => Some(s@),
        None => None,
    }
}

/// Outcome of loading a contact's MLS group from the store.
#[derive(Debug, Clone, Copy, PartialEq, Eq)]
pub enum GroupLoad {
    /// The group loaded.
    Loaded,
    /// No group state is stored yet (the join is still pending).
    Missing,
    /// The stored state could not be read.
    Unreadable,
}

/// The label a contact's group state is shown with; `None` when the contact
/// has no group at all.
pub fn group_state_label(load: Option<GroupLoad>) -> (l: Option<MlsGroupStateLabel>)
    ensures
        l == match load {
            None => None,
            Some(GroupLoad::Loaded) => Some(MlsGroupStateLabel::Active),
            Some(GroupLoad::Missing) => Some(MlsGroupStateLabel::PendingJoin),
            Some(GroupLoad::Unreadable) => Some(MlsGroupStateLabel::Corrupt),
        },
{
    match load {
        None => None,
        Some(GroupLoad::Loaded) => Some(MlsGroupStateLabel::Active),
        Some(GroupLoad::Missing) => Some(MlsGroupStateLabel::PendingJoin),
        Some(GroupLoad::Unreadable) => Some(MlsGroupStateLabel::Corrupt),
    }
}

/// The preview a contact list shows of its latest message: the first
/// `PREVIEW_CHARS` code points of a text message; nothing for other kinds or
/// when the latest row could not be decoded.
pub open spec fn preview_spec(latest: Option<&Kind>) -> Option<Seq<char>> {
    match latest {
        Some(Kind::Text { body }) => Some(preview_of(body@, PREVIEW_CHARS as nat)),
        _ => None,
    }
}

/// Project a contact and the facts gathered about its conversation onto the
/// summary the contact list shows. The onion, card version and mailboxes come
/// from the contact's latest card (empty, 0 and none without one); negative
/// timestamps read as 0. `welcome_failed` tells whether the contact is still
/// pending and its Welcome has failed for good, so the user is prompted to
/// remove and re-invite it.
pub fn summarize_contact(
    contact: &Contact,
    unread_count: u64,
    latest_kind: Option<&Kind>,
    latest_ts_recv: Option<i64>,
    group_state: Option<MlsGroupStateLabel>,
    last_read_row_id: Option<i64>,
    muted: bool,
    welcome_failed: bool,
) -> (s: ContactSummary)
    ensures
        s.pubkey == contact.identity,
        opt_chars(s.nickname) == opt_chars(contact.display_name),
        s.onion@ == match contact.card {
            Some(card) => card.body.onion@,
            None => Seq::<char>::empty(),
        },
        s.card_version == match contact.card {
            Some(card) => card.body.version,
            None => 0,
        },
        s.added_at == clamp_ts(contact.added_at),
        s.unread_count == unread_count,
        opt_chars(s.last_message_preview) == preview_spec(latest_kind),
        s.last_ts_recv == match latest_ts_recv {
            Some(t) => Some(clamp_ts(t)),
            None => None::<u64>,
        },
        s.group_state == group_state,
        s.last_read_row_id == last_read_row_id,
        s.muted == muted,
        strings_view(s.peer_mailboxes@) == match contact.card {
            Some(card) => strings_view(card.body.mailboxes@),
            None => Seq::<Seq<char>>::empty(),
        },
        s.welcome_failed == welcome_failed,
{
    let (onion, card_version, peer_mailboxes) = match &contact.card {
        Some(card) => (
            card.body.onion.clone(),
            card.body.version,
            crate::contact::card::copy_strings(&card.body.mailboxes),
        ),
        None => (String::new(), 0, Vec::new()),
    };
    proof {
        if contact.card is None {
            assert(strings_view(peer_mailboxes@) =~= Seq::<Seq<char>>::empty());
        }
    }
    let nickname = match &contact.display_name {
        Some(n) => Some(n.clone()),
        None => None,
    };
    let last_message_preview = match latest_kind {
        Some(Kind::Text { body }) => Some(truncate_preview(body.as_str(), PREVIEW_CHARS)),
        _ => None,
    };
    let last_ts_recv = match latest_ts_recv {
        Some(t) => Some(
            if t >= 0 {
                t as u64
            } else {
                0
            },
        ),
        None => None,
    };
    ContactSummary {
        pubkey: contact.identity,
        nickname,
        onion,
        card_version,
        added_at: if contact.added_at >= 0 {
            contact.added_at as u64
        } else {
            0
        },
        unread_count,
        last_message_preview,
        last_ts_recv,
        group_state,
        last_read_row_id,
        muted,
        peer_mailboxes,
        welcome_failed,
    }
}

/// Whether a summary has any message (1) or none (0).
pub open spec fn has_messages(s: ContactSummary) -> int {
    if s.last_ts_recv is Some {
        1
    } else {
        0
    }
}

/// The latest receive time of a summary (0 without messages).
pub open spec fn latest_ts(s: ContactSummary) -> int {
    match s.last_ts_recv {
        Some(t) => t as int,
        None => 0,
    }
}

/// `a` is listed strictly before `b`: contacts with messages come first, the
/// most recent conversation first; ties, and contacts without messages, go
/// newest-added first.
pub open spec fn listed_before(a: ContactSummary, b: ContactSummary) -> bool {
    ||| has_messages(a) > has_messages(b)
    ||| has_messages(a) == has_messages(b) && latest_ts(a) > latest_ts(b)
    ||| has_messages(a) == has_messages(b) && latest_ts(a) == latest_ts(b) && a.added_at
        > b.added_at
}

/// `a` and `b` tie: neither is listed before the other.
pub open spec fn same_rank(a: ContactSummary, b: ContactSummary) -> bool {
    has_messages(a) == has_messages(b) && latest_ts(a) == latest_ts(b) && a.added_at == b.added_at
}

/// No summary of `s` is listed before one that precedes it.
pub open spec fn in_listing_order(s: Seq<ContactSummary>) -> bool {
    forall|i: int, j: int| 0 <= i < j < s.len() ==> !listed_before(#[trigger] s[j], #[trigger] s[i])
}

/// The summaries of `s` that tie with `x`, in their order in `s`.
pub open spec fn ties_of(s: Seq<ContactSummary>, x: ContactSummary) -> Seq<ContactSummary> {
    s.filter(|e: ContactSummary| same_rank(e, x))
}

/// Whether `a` is listed strictly before `b`.
pub fn is_listed_before(a: &ContactSummary, b: &ContactSummary) -> (r: bool)
    ensures
        r == listed_before(*a, *b),
{
    match (a.last_ts_recv, b.last_ts_recv) {
        (Some(av), Some(bv)) => av > bv || (av == bv && a.added_at > b.added_at),
        (Some(_), None) => true,
        (None, Some(_)) => false,
        (None, None) => a.added_at > b.added_at,
    }
}

proof fn lemma_filter_none(s: Seq<ContactSummary>, x: ContactSummary)
    requires
        forall|i: int| 0 <= i < s.len() ==> !same_rank(#[trigger] s[i], x),
    ensures
        ties_of(s, x) == Seq::<ContactSummary>::empty(),
    decreases s.len(),
{
    reveal(Seq::filter);
    if s.len() > 0 {
        assert(!same_rank(s[s.len() - 1], x));
        lemma_filter_none(s.drop_last(), x);
        assert(ties_of(s, x) == ties_of(s.drop_last(), x));
    } else {
        assert(ties_of(s, x) =~= Seq::<ContactSummary>::empty());
    }
}

proof fn lemma_ties_after_insert(
    r: Seq<ContactSummary>,
    p: int,
    e: ContactSummary,
    x: ContactSummary,
)
    requires
        0 <= p <= r.len(),
        forall|q: int| 0 <= q < p ==> listed_before(#[trigger] r[q], e),
    ensures
        ties_of(r.insert(p, e), x) == if same_rank(e, x) {
            seq![e] + ties_of(r, x)
        } else {
            ties_of(r, x)
        },
{
    let pre = r.take(p);
    let post = r.skip(p);
    assert(r =~= pre + post);
    assert(r.insert(p, e) =~= pre + (seq![e] + post));
    let f = |c: ContactSummary| same_rank(c, x);
    Seq::filter_distributes_over_add(pre, seq![e] + post, f);
    Seq::filter_distributes_over_add(seq![e], post, f);
    Seq::filter_distributes_over_add(pre, post, f);
    assert(seq![e].filter(f) == if same_rank(e, x) {
        seq![e]
    } else {
        Seq::<ContactSummary>::empty()
    }) by {
        assert(seq![e].drop_last() =~= Seq::<ContactSummary>::empty());
        reveal_with_fuel(Seq::filter, 2);
    }
    if same_rank(e, x) {
        assert forall|i: int| 0 <= i < pre.len() implies !same_rank(#[trigger] pre[i], x) by {
            assert(listed_before(r[i], e));
        }
        lemma_filter_none(pre, x);
        assert(pre.filter(f) =~= Seq::<ContactSummary>::empty());
        assert(ties_of(r.insert(p, e), x) =~= seq![e] + ties_of(r, x));
    } else {
        assert(Seq::<ContactSummary>::empty() + post.filter(f) =~= post.filter(f));
    }
}

proof fn lemma_count_through_ties(s: Seq<ContactSummary>, y: ContactSummary)
    ensures
        s.to_multiset().count(y) == ties_of(s, y).to_multiset().count(y),
    decreases s.len(),
{
    broadcast use vstd::seq_lib::group_to_multiset_ensures, vstd::multiset::group_multiset_axioms;

    reveal(Seq::filter);
    if s.len() == 0 {
        assert(ties_of(s, y) =~= s);
    } else {
        let t = s.drop_last();
        lemma_count_through_ties(t, y);
        assert(s =~= t.push(s.last()));
        assert(ties_of(s, y) == if same_rank(s.last(), y) {
            ties_of(t, y).push(s.last())
        } else {
            ties_of(t, y)
        });
    }
}

/// Order contact summaries for display: recent conversations first (by the
/// latest receive time, newest first), then contacts without messages; ties
/// go newest-added first. The sort is stable: summaries that tie keep their
/// relative order.
pub fn sort_contact_summaries(v: Vec<ContactSummary>) -> (r: Vec<ContactSummary>)
    ensures
        in_listing_order(r@),
        forall|i: int, j: int|
            0 <= i < j < r@.len() && (#[trigger] r@[j]).last_ts_recv is Some ==> (
            #[trigger] r@[i]).last_ts_recv is Some,
        forall|x: ContactSummary| #[trigger] ties_of(r@, x) == ties_of(v@, x),
        r@.to_multiset() == v@.to_multiset(),
        r@.len() == v@.len(),
{
    let ghost orig = v@;
    let mut rest = v;
    let mut r: Vec<ContactSummary> = Vec::new();
    assert(orig.skip(orig.len() as int) =~= Seq::<ContactSummary>::empty());
    while rest.len() > 0
        invariant
            rest@ == orig.take(rest@.len() as int),
            rest@.len() <= orig.len(),
            in_listing_order(r@),
            r@.len() + rest@.len() == orig.len(),
            forall|x: ContactSummary| #[trigger]
                ties_of(r@, x) == ties_of(orig.skip(rest@.len() as int), x),
        decreases rest@.len(),
    {
        let ghost n = rest@.len() as int;
        let e = rest.pop().unwrap();
        assert(e == orig[n - 1]);
        assert(rest@ =~= orig.take(n - 1));
        let mut p: usize = 0;
        while p < r.len() && is_listed_before(&r[p], &e)
            invariant
                p <= r@.len(),
                forall|q: int| 0 <= q < p ==> listed_before(#[trigger] r@[q], e),
            decreases r@.len() - p,
        {
            p += 1;
        }
        let ghost before = r@;
        assert forall|x: ContactSummary| #[trigger]
            ties_of(before.insert(p as int, e), x) == ties_of(orig.skip(n - 1), x) by {
            lemma_ties_after_insert(before, p as int, e, x);
            let f = |c: ContactSummary| same_rank(c, x);
            assert(orig.skip(n - 1) =~= seq![e] + orig.skip(n));
            Seq::filter_distributes_over_add(seq![e], orig.skip(n), f);
            assert(seq![e].filter(f) == if same_rank(e, x) {
                seq![e]
            } else {
                Seq::<ContactSummary>::empty()
            }) by {
                assert(seq![e].drop_last() =~= Seq::<ContactSummary>::empty());
                reveal_with_fuel(Seq::filter, 2);
            }
            if !same_rank(e, x) {
                assert(Seq::<ContactSummary>::empty() + ties_of(orig.skip(n), x) =~= ties_of(
                    orig.skip(n),
                    x,
                ));
            }
        }
        r.insert(p, e);
        assert forall|i: int, j: int| 0 <= i < j < r@.len() implies !listed_before(
            #[trigger] r@[j],
            #[trigger] r@[i],
        ) by {
            if j < p {
                assert(r@[i] == before[i] && r@[j] == before[j]);
            } else if j == p {
                assert(listed_before(before[i], e));
            } else if i > p {
                assert(r@[i] == before[i - 1] && r@[j] == before[j - 1]);
            } else if i == p {
                // before[j - 1] is not listed before before[p] (when j - 1 > p)
                // and before[p] is not listed before e.
                if j - 1 > p {
                    assert(!listed_before(before[j - 1], before[p as int]));
                }
                assert(!listed_before(before[p as int], e));
            } else {
                assert(r@[i] == before[i] && r@[j] == before[j - 1]);
            }
        }
    }
    assert(orig.skip(0) =~= orig);
    proof {
        assert forall|y: ContactSummary| r@.to_multiset().count(y) == orig.to_multiset().count(
            y,
        ) by {
            lemma_count_through_ties(r@, y);
            lemma_count_through_ties(orig, y);
            assert(ties_of(r@, y) == ties_of(orig, y));
        }
        assert(r@.to_multiset() =~= orig.to_multiset());
        assert forall|i: int, j: int|
            0 <= i < j < r@.len() && (#[trigger] r@[j]).last_ts_recv is Some implies (
            #[trigger] r@[i]).last_ts_recv is Some by {
            lemma_listing_puts_conversations_first(r@, i, j);
        }
    }
    r
}

/// Project a stored mailbox row onto its wire summary; a negative
/// registration time reads as 0.
pub fn mailbox_summary(id: i64, onion: String, status: MailboxStatus, registered_at: i64) -> (s:
    MailboxSummary)
    ensures
        s.id == id,
        s.onion@ == onion@,
        s.status == status,
        s.registered_at == clamp_ts(registered_at),
{
    MailboxSummary {
        id,
        onion,
        status,
        registered_at: if registered_at >= 0 {
            registered_at as u64
        } else {
            0
        },
    }
}

/// What a list in listing order looks like, for any two positions `i < j`:
/// a contact with messages never follows one without; of two with
/// messages, the earlier has the later (or the same) last receive time, and
/// on a tie was added no earlier; of two without messages, the earlier was
/// added no earlier.
pub proof fn lemma_listing_puts_conversations_first(r: Seq<ContactSummary>, i: int, j: int)
    requires
        in_listing_order(r),
        0 <= i < j < r.len(),
    ensures
        r[j].last_ts_recv is Some ==> r[i].last_ts_recv is Some,
        r[i].last_ts_recv is Some && r[j].last_ts_recv is Some ==> r[i].last_ts_recv->0
            >= r[j].last_ts_recv->0,
        r[i].last_ts_recv is Some && r[j].last_ts_recv is Some && r[i].last_ts_recv->0
            == r[j].last_ts_recv->0 ==> r[i].added_at >= r[j].added_at,
        (r[i].last_ts_recv is None && r[j].last_ts_recv is None) ==> r[i].added_at
            >= r[j].added_at,
{
    assert(!listed_before(r[j], r[i]));
}

} // verus!
