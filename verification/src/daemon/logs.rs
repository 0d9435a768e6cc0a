//! The in-memory log ring and the redactor applied to records above `debug`.
//!
//! At most 5000 records are held; the oldest is evicted first. Each record
//! gets the next sequence number, so a reader can page through the ring with
//! a `since_seq` cursor.

use vstd::prelude::*;
use std::collections::VecDeque;
use crate::daemon::commands::{LogLevel, LogRecord};

verus! {

/// Records held at most.
pub const RING_CAP: usize = 5000;

/// Largest page a snapshot returns.
pub const SNAPSHOT_MAX: usize = 1000;

/// Mathematical value of a log record.
pub struct LogRecordView {
    pub seq: u64,
    pub ts_unix_ms: u64,
    pub level: LogLevel,
    pub target: Seq<char>,
    pub message: Seq<char>,
}

impl View for LogRecord {
    type V = LogRecordView;

    open spec fn view(&self) -> LogRecordView {
        LogRecordView {
            seq: self.seq,
            ts_unix_ms: self.ts_unix_ms,
            level: self.level,
            target: self.target@,
            message: self.message@,
        }
    }
}

/// The records of `s` whose sequence number is at least `start`, in order.
pub open spec fn records_from(s: Seq<LogRecordView>, start: u64) -> Seq<LogRecordView>
    decreases s.len(),
{
    if s.len() == 0 {
        s
    } else if s.last().seq >= start {
        records_from(s.drop_last(), start).push(s.last())
    } else {
        records_from(s.drop_last(), start)
    }
}

/// Sequence numbers strictly increase along `s`.
pub open spec fn seq_increasing(s: Seq<LogRecordView>) -> bool {
    forall|i: int, j: int| 0 <= i < j < s.len() ==> s[i].seq < s[j].seq
}

/// The smaller of two integers.
pub open spec fn min(a: int, b: int) -> int {
    if a <= b {
        a
    } else {
        b
    }
}

/// The page a snapshot returns: records from `since` (0 if absent), at most
/// `min(limit, SNAPSHOT_MAX)` of them, and the cursor for the next page (one
/// past the last returned sequence number, or the start when none).
pub open spec fn snapshot_spec(s: Seq<LogRecordView>, since: Option<u64>, limit: usize) -> (
    Seq<LogRecordView>,
    u64,
) {
    let start = match since {
        Some(x) => x,
        None => 0,
    };
    let from = records_from(s, start);
    let page = from.take(min(min(limit as int, SNAPSHOT_MAX as int), from.len() as int));
    let next = if page.len() > 0 {
        (page.last().seq + 1) as u64
    } else {
        start
    };
    (page, next)
}

/// Bounded, sequence-numbered ring of log records.
pub struct LogRing {
    ring: VecDeque<LogRecord>,
    next_seq: u64,
    /// Every record ever pushed, oldest first.
    pushed: Ghost<Seq<LogRecordView>>,
}

/// The records a ring holds after `all` were pushed into it, oldest first:
/// the last `RING_CAP` of them (all, when there are fewer).
pub open spec fn latest(all: Seq<LogRecordView>) -> Seq<LogRecordView> {
    if all.len() <= RING_CAP {
        all
    } else {
        all.skip(all.len() - RING_CAP)
    }
}

proof fn lemma_records_from_suffix(s: Seq<LogRecordView>, start: u64) -> (k: int)
    requires
        seq_increasing(s),
    ensures
        0 <= k <= s.len(),
        records_from(s, start) == s.subrange(k, s.len() as int),
        forall|j: int| 0 <= j < k ==> s[j].seq < start,
        forall|j: int| k <= j < s.len() ==> s[j].seq >= start,
    decreases s.len(),
{
    if s.len() == 0 {
        assert(records_from(s, start) =~= s.subrange(0, 0));
        0
    } else {
        let t = s.drop_last();
        assert(seq_increasing(t));
        let k = lemma_records_from_suffix(t, start);
        assert forall|j: int| 0 <= j < t.len() implies #[trigger] s[j] == t[j] by {}
        if s.last().seq >= start {
            assert forall|j: int| 0 <= j < k implies s[j].seq < start by {
                assert(s[j] == t[j]);
            }
            assert forall|j: int| k <= j < s.len() implies s[j].seq >= start by {
                if j < t.len() {
                    assert(s[j] == t[j]);
                }
            }
            assert(records_from(s, start) =~= s.subrange(k, s.len() as int));
            k
        } else {
            assert forall|j: int| 0 <= j < s.len() implies s[j].seq < start by {
                if j < s.len() - 1 {
                    assert(s[j].seq < s[s.len() - 1].seq);
                }
            }
            assert(k == t.len()) by {
                if k < t.len() {
                    assert(t[k].seq >= start);
                    assert(s[k].seq < s[s.len() - 1].seq);
                }
            }
            assert(records_from(s, start) =~= s.subrange(s.len() as int, s.len() as int));
            s.len() as int
        }
    }
}

proof fn lemma_pages_chain(s: Seq<LogRecordView>, since: Option<u64>, limit: usize)
    requires
        seq_increasing(s),
        forall|i: int| 0 <= i < s.len() ==> s[i].seq < u64::MAX,
    ensures
        ({
            let start = match since {
                Some(x) => x,
                None => 0,
            };
            let (page, next) = snapshot_spec(s, since, limit);
            records_from(s, next) == records_from(s, start).skip(page.len() as int)
        }),
{
    let start = match since {
        Some(x) => x,
        None => 0,
    };
    let (page, next) = snapshot_spec(s, since, limit);
    let k = lemma_records_from_suffix(s, start);
    let from = records_from(s, start);
    if page.len() == 0 {
        assert(from.skip(0) =~= from);
    } else {
        let k2 = lemma_records_from_suffix(s, next);
        let last = k + page.len() - 1;
        assert(page.last() == s[last]);
        assert(next == s[last].seq + 1);
        assert forall|j: int| k <= j <= last implies s[j].seq < next by {
            if j < last {
                assert(s[j].seq < s[last].seq);
            }
        }
        assert forall|j: int| last < j < s.len() implies s[j].seq >= next by {
            assert(s[last].seq < s[j].seq);
        }
        assert(k2 == last + 1) by {
            if k2 < last + 1 {
                assert(s[k2].seq >= next);
                if k2 >= k {
                    assert(s[k2].seq < next);
                } else {
                    assert(s[k2].seq < start);
                }
            }
            if k2 > last + 1 {
                assert(s[last + 1].seq < next);
            }
        }
        assert(records_from(s, next) =~= from.skip(page.len() as int));
    }
}

impl LogRing {
    /// The records held, oldest first.
    pub closed spec fn records(&self) -> Seq<LogRecordView> {
        self.ring@.map_values(|r: LogRecord| r@)
    }

    /// The sequence number the next pushed record will get.
    pub closed spec fn next_seq_spec(&self) -> u64 {
        self.next_seq
    }

    /// Every record pushed into this ring so far, oldest first.
    pub closed spec fn history(&self) -> Seq<LogRecordView> {
        self.pushed@
    }

    /// At most `RING_CAP` records, sequence numbers strictly increasing and
    /// all below the next one to be handed out.
    pub closed spec fn wf(&self) -> bool {
        &&& self.ring@.len() <= RING_CAP
        &&& seq_increasing(self.records())
        &&& forall|i: int| 0 <= i < self.ring@.len() ==> self.ring@[i].seq < self.next_seq
        &&& self.next_seq >= 1
        &&& self.records() == latest(self.pushed@)
        &&& forall|i: int| 0 <= i < self.pushed@.len() ==> (#[trigger] self.pushed@[i]).seq == i + 1
        &&& self.next_seq == self.pushed@.len() + 1
    }

    /// Law: a ring holds the latest `RING_CAP` records ever pushed into it
    /// (all of them while there are fewer), oldest first, and the `i`-th
    /// record pushed since the ring was made has sequence number `i`. So after
    /// `k` pushes into a new ring the newest record has sequence number `k`,
    /// above every earlier one, and the ring holds `min(k, RING_CAP)` records.
    pub proof fn lemma_ring_holds_latest(&self)
        requires
            self.wf(),
        ensures
            self.records() == latest(self.history()),
            forall|i: int|
                0 <= i < self.history().len() ==> (#[trigger] self.history()[i]).seq == i + 1,
            self.next_seq_spec() == self.history().len() + 1,
            self.records().len() == if self.history().len() <= RING_CAP {
                self.history().len()
            } else {
                RING_CAP as nat
            },
    {
    }

    /// An empty ring; the first record gets sequence number 1.
    pub fn new() -> (r: LogRing)
        ensures
            r.wf(),
            r.records() == Seq::<LogRecordView>::empty(),
            r.history() == Seq::<LogRecordView>::empty(),
            r.next_seq_spec() == 1,
    {
        let r = LogRing { ring: VecDeque::new(), next_seq: 1, pushed: Ghost(Seq::empty()) };
        assert(r.records() =~= Seq::<LogRecordView>::empty());
        r
    }

    /// Paging law: the page after a snapshot starts right where that
    /// snapshot ended. Asking again from the returned cursor yields exactly the
    /// records that follow the returned page, so a reader who follows the
    /// cursors sees every record of the ring once, in order.
    pub proof fn lemma_snapshot_pages_chain(&self, since: Option<u64>, limit: usize)
        requires
            self.wf(),
        ensures
            ({
                let start = match since {
                    Some(x) => x,
                    None => 0,
                };
                let (page, next) = snapshot_spec(self.records(), since, limit);
                records_from(self.records(), next) == records_from(self.records(), start).skip(
                    page.len() as int,
                )
            }),
    {
        assert forall|i: int| 0 <= i < self.records().len() implies self.records()[i].seq
            < u64::MAX by {
            assert(self.ring@[i].seq < self.next_seq);
        }
        lemma_pages_chain(self.records(), since, limit);
    }

    /// The sequence number the next pushed record will get.
    pub fn next_seq(&self) -> (n: u64)
        ensures
            n == self.next_seq_spec(),
    {
        self.next_seq
    }

    /// Append a record with the next sequence number, evicting the oldest when
    /// the ring is full; returns a copy of the stored record for broadcasting.
    pub fn push(&mut self, level: LogLevel, target: String, message: String, ts_unix_ms: u64) -> (rec: LogRecord)
        requires
            old(self).wf(),
            old(self).next_seq_spec() < u64::MAX,
        ensures
            final(self).wf(),
            rec@ == (LogRecordView {
                seq: old(self).next_seq_spec(),
                ts_unix_ms,
                level,
                target: target@,
                message: message@,
            }),
            final(self).next_seq_spec() == old(self).next_seq_spec() + 1,
            final(self).history() == old(self).history().push(rec@),
            old(self).records().len() < RING_CAP ==> final(self).records() == old(
                self,
            ).records().push(rec@),
            old(self).records().len() == RING_CAP ==> final(self).records() == old(
                self,
            ).records().drop_first().push(rec@),
    {
        let ghost old_recs = self.records();
        let seq = self.next_seq;
        self.next_seq = seq + 1;
        let rec = LogRecord { seq, ts_unix_ms, level, target, message };
        let copy = rec.duplicate();
        if self.ring.len() == RING_CAP {
            self.ring.pop_front();
            assert(self.records() =~= old_recs.drop_first());
        } else {
            assert(self.records() =~= old_recs);
        }
        let ghost mid = self.records();
        self.ring.push_back(rec);
        assert(self.records() =~= mid.push(copy@));
        let ghost old_all = self.pushed@;
        proof {
            self.pushed@ = old_all.push(copy@);
            let all = self.pushed@;
            if old_all.len() < RING_CAP {
                assert(latest(all) =~= latest(old_all).push(copy@));
            } else {
                assert(latest(all) =~= latest(old_all).drop_first().push(copy@));
            }
            assert(self.records() == latest(all));
        }
        proof {
            assert forall|i: int, j: int|
                0 <= i < j < self.records().len() implies self.records()[i].seq
                < self.records()[j].seq by {
                if j == self.records().len() - 1 {
                    assert(self.records()[j].seq == seq);
                    assert(self.ring@[i].seq < seq);
                }
            }
        }
        copy
    }

    /// The page of records with `seq >= since_seq` (all when `None`), at most
    /// `min(limit, 1000)` long, with the cursor for the next page.
    pub fn snapshot(&self, since_seq: Option<u64>, limit: usize) -> (r: (Vec<LogRecord>, u64))
        requires
            self.wf(),
        ensures
            r.0@.map_values(|x: LogRecord| x@) == snapshot_spec(self.records(), since_seq, limit).0,
            r.1 == snapshot_spec(self.records(), since_seq, limit).1,
    {
        let lim = if limit < SNAPSHOT_MAX {
            limit
        } else {
            SNAPSHOT_MAX
        };
        let start = match since_seq {
            Some(x) => x,
            None => 0,
        };
        let ghost recs = self.records();
        let ghost k = lemma_records_from_suffix(recs, start);
        let n = self.ring.len();
        let mut i: usize = 0;
        while i < n && self.ring[i].seq < start
            invariant
                n == self.ring@.len(),
                recs == self.records(),
                i <= k,
                0 <= k <= n,
                forall|j: int| 0 <= j < k ==> recs[j].seq < start,
                forall|j: int| k <= j < n ==> recs[j].seq >= start,
            decreases n - i,
        {
            assert(recs[i as int].seq == self.ring@[i as int].seq);
            i += 1;
        }
        assert(i == k) by {
            if i < k {
                assert(recs[i as int].seq == self.ring@[i as int].seq);
            }
        }
        let mut out: Vec<LogRecord> = Vec::new();
        while i < n && out.len() < lim
            invariant
                n == self.ring@.len(),
                recs == self.records(),
                recs.len() == n,
                0 <= k <= i <= n,
                out@.len() == i - k,
                out@.len() <= lim,
                out@.map_values(|x: LogRecord| x@) == recs.subrange(k, i as int),
            decreases n - i,
        {
            let r = self.ring[i].duplicate();
            assert(recs[i as int] == self.ring@[i as int]@);
            let ghost prev = out@;
            out.push(r);
            assert(out@.map_values(|x: LogRecord| x@) =~= prev.map_values(|x: LogRecord| x@).push(
                r@,
            ));
            i += 1;
            assert(out@.map_values(|x: LogRecord| x@) =~= recs.subrange(k, i as int));
        }
        let ghost from = recs.subrange(k, n as int);
        let ghost page = snapshot_spec(recs, since_seq, limit).0;
        assert(page =~= recs.subrange(k, i as int)) by {
            assert(from.len() == n - k);
        }
        let next = if out.len() > 0 {
            let last = out[out.len() - 1].seq;
            assert(last == page.last().seq);
            assert(last < self.next_seq);
            last + 1
        } else {
            start
        };
        (out, next)
    }
}

/// Whether `regex::Regex::new` accepts `pattern` (with the default limits).
pub uninterp spec fn regex_accepts(pattern: Seq<char>) -> bool;

/// What `Regex::replace_all` makes of `text`: every non-overlapping match of
/// `pattern` replaced by `replacement`, with `$1`-style group references expanded.
pub uninterp spec fn regex_replace_all_of(
    pattern: Seq<char>,
    text: Seq<char>,
    replacement: Seq<char>,
) -> Seq<char>;

/// Replaces every match of `pattern` in `text` by `replacement`
/// (`regex::Regex::new(pattern)` then `replace_all(text, replacement)`);
/// `None` when the pattern does not compile.
///
/// Trusted: whether the pattern compiles is named `regex_accepts(pattern)`, and
/// the output is named `regex_replace_all_of(pattern, text, replacement)`.
#[verifier::external_body]
fn regex_replace_all(pattern: &str, text: &str, replacement: &str) -> (out: Option<String>)
    ensures
        out is Some == regex_accepts(pattern@),
        out matches Some(o) ==> o@ == regex_replace_all_of(pattern@, text@, replacement@),
{
    match regex::Regex::new(pattern) {
        Ok(re) => Some(re.replace_all(text, replacement).into_owned()),
        Err(_) => None,
    }
}

/// 64-character lowercase hex words: Ed25519 / X25519 public keys and hashes.
pub open spec fn hex64_pattern() -> Seq<char> {
    r"\b[0-9a-f]{64}\b"@
}

/// v3 onion addresses: 56 base32 characters and ".onion".
pub open spec fn onion_pattern() -> Seq<char> {
    r"\b[a-z2-7]{56}\.onion\b"@
}

/// Secret-bearing fields: `body=`, `ciphertext=`, `psk=`, `passphrase=`, `seed=`
/// and the value that follows.
pub open spec fn secret_pattern() -> Seq<char> {
    r"\b(body|ciphertext|psk|passphrase|seed)=\S+"@
}

/// What the redactor makes of `s`: public keys, then onion addresses, then
/// secret field values replaced by placeholders. Should a pattern fail to
/// compile, the whole message is withheld as "[REDACTED]".
pub open spec fn redacted(s: Seq<char>) -> Seq<char> {
    if regex_accepts(hex64_pattern()) && regex_accepts(onion_pattern()) && regex_accepts(
        secret_pattern(),
    ) {
        let a = regex_replace_all_of(hex64_pattern(), s, "[REDACTED-PUBKEY]"@);
        let b = regex_replace_all_of(onion_pattern(), a, "[REDACTED-ONION]"@);
        regex_replace_all_of(secret_pattern(), b, "$1=[REDACTED]"@)
    } else {
        "[REDACTED]"@
    }
}

/// Strips public keys, onion addresses and secret field values from log text.
#[derive(Debug, Clone, Copy)]
pub struct Redactor;

impl Redactor {
    /// A redactor.
    pub fn new() -> (r: Redactor) {
        Redactor
    }

    /// `s` with public keys, onion addresses and secret values replaced.
    pub fn redact(&self, s: &str) -> (out: String)
        ensures
            out@ == redacted(s@),
    {
        let withheld = "[REDACTED]";
        proof {
            reveal_strlit("[REDACTED]");
        }
        let a = match regex_replace_all(r"\b[0-9a-f]{64}\b", s, "[REDACTED-PUBKEY]") {
            Some(a) => a,
            None => return withheld.to_string(),
        };
        let b = match regex_replace_all(r"\b[a-z2-7]{56}\.onion\b", a.as_str(), "[REDACTED-ONION]") {
            Some(b) => b,
            None => return withheld.to_string(),
        };
        match regex_replace_all(r"\b(body|ciphertext|psk|passphrase|seed)=\S+", b.as_str(), "$1=[REDACTED]") {
            Some(c) => c,
            None => withheld.to_string(),
        }
    }
}

/// The message a ring record carries: trace and debug text verbatim, every
/// higher level redacted.
pub fn ring_message(redactor: &Redactor, level: LogLevel, formatted: String) -> (m: String)
    ensures
        m@ == match level {
            LogLevel::Trace | LogLevel::Debug => formatted@,
            _ => redacted(formatted@),
        },
{
    match level {
        LogLevel::Trace | LogLevel::Debug => formatted,
        _ => redactor.redact(formatted.as_str()),
    }
}

} // verus!
