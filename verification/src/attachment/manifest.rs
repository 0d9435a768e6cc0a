//! Attachment manifest: the descriptor carried inside a file message, and the
//! reduction of a sender-supplied file name to a safe base name.

use vstd::prelude::*;
use crate::attachment::error_kind::AttachmentErrorKind;
use crate::attachment::MANIFEST_VERSION;
use crate::text::{
    all_whitespace, chars_of, decimal, is_blank, is_control, is_control_spec, string_of,
    u64_to_decimal,
};

verus! {

/// Per-chunk descriptor: content address + length of the chunk ciphertext.
#[derive(Debug, Clone, PartialEq, Eq)]
pub struct ChunkRef {
    pub index: u32,
    pub ciphertext_hash: [u8; 32],
    pub len: u32,
}

/// Attachment manifest. Holds the file key from which per-chunk keys are
/// derived, so chunk blobs are opaque ciphertext.
#[derive(Debug, Clone, PartialEq, Eq)]
pub struct AttachmentManifest {
    pub manifest_version: u8,
    pub attachment_id: [u8; 16],
    pub filename: String,
    pub mime: String,
    pub total_size: u64,
    pub chunk_size: u32,
    pub file_key: [u8; 32],
    pub chunks: Vec<ChunkRef>,
}

/// The rejection message for a manifest carrying version `v`.
pub open spec fn unknown_version_message(v: u8) -> Seq<char> {
    "unknown manifest version "@ + decimal(v as nat)
}

impl AttachmentManifest {
    /// Validate a freshly decoded manifest: only `MANIFEST_VERSION` is accepted.
    pub fn validate(self) -> (r: Result<AttachmentManifest, AttachmentErrorKind>)
        ensures
            self.manifest_version == MANIFEST_VERSION ==> r == Ok::<
                AttachmentManifest,
                AttachmentErrorKind,
            >(self),
            self.manifest_version != MANIFEST_VERSION ==> (r matches Err(
                AttachmentErrorKind::ManifestInvalid(msg),
            ) && msg@ == unknown_version_message(self.manifest_version)),
    {
        if self.manifest_version != MANIFEST_VERSION {
            let mut msg = String::from_str("unknown manifest version ");
            let n = u64_to_decimal(self.manifest_version as u64);
            msg.append(n.as_str());
            proof {
                reveal_strlit("unknown manifest version ");
            }
            return Err(AttachmentErrorKind::ManifestInvalid(msg));
        }
        Ok(self)
    }
}

/// Unicode bidi/format controls that `char::is_control` misses but which
/// enable file-name display spoofing: LRM/RLM (U+200E/200F), the bidi
/// embeddings and overrides (U+202A–202E) and the isolates (U+2066–2069).
pub open spec fn is_bidi_spec(c: char) -> bool {
    c == '\u{200E}' || c == '\u{200F}' || ('\u{202A}' <= c && c <= '\u{202E}') || (
    '\u{2066}' <= c && c <= '\u{2069}')
}

/// A path separator, either style.
pub open spec fn is_separator(c: char) -> bool {
    c == '/' || c == '\\'
}

/// The characters after the last path separator (all of `s` if none).
pub open spec fn last_segment(s: Seq<char>) -> Seq<char>
    decreases s.len(),
{
    if s.len() == 0 {
        s
    } else if is_separator(s.last()) {
        Seq::empty()
    } else {
        last_segment(s.drop_last()).push(s.last())
    }
}

/// `s` without its leading '.' characters.
pub open spec fn trim_leading_dots(s: Seq<char>) -> Seq<char>
    decreases s.len(),
{
    if s.len() > 0 && s[0] == '.' {
        trim_leading_dots(s.drop_first())
    } else {
        s
    }
}

/// `s` without its trailing '.' characters.
pub open spec fn trim_trailing_dots(s: Seq<char>) -> Seq<char>
    decreases s.len(),
{
    if s.len() > 0 && s.last() == '.' {
        trim_trailing_dots(s.drop_last())
    } else {
        s
    }
}

/// Whether a character survives the file-name filter.
pub open spec fn kept_in_filename(c: char) -> bool {
    !is_control_spec(c) && !is_bidi_spec(c) && !is_separator(c)
}

/// The characters of `s` that survive the file-name filter, in order.
pub open spec fn keep_filename_chars(s: Seq<char>) -> Seq<char>
    decreases s.len(),
{
    if s.len() == 0 {
        s
    } else if kept_in_filename(s.last()) {
        keep_filename_chars(s.drop_last()).push(s.last())
    } else {
        keep_filename_chars(s.drop_last())
    }
}

/// The name used when nothing usable is left of the sender's name.
pub open spec fn fallback_filename() -> Seq<char> {
    "attachment"@
}

/// What `sanitize_filename` makes of `raw`: the last path segment, with
/// leading/trailing dots trimmed and control, bidi and separator characters
/// removed; a blank result falls back to "attachment".
pub open spec fn sanitized(raw: Seq<char>) -> Seq<char> {
    let cleaned = keep_filename_chars(trim_trailing_dots(trim_leading_dots(last_segment(raw))));
    if all_whitespace(cleaned) {
        fallback_filename()
    } else {
        cleaned
    }
}

proof fn lemma_keep_filename_chars(s: Seq<char>)
    ensures
        forall|i: int|
            0 <= i < keep_filename_chars(s).len() ==> kept_in_filename(
                #[trigger] keep_filename_chars(s)[i],
            ),
        keep_filename_chars(s).len() <= s.len(),
    decreases s.len(),
{
    if s.len() > 0 {
        lemma_keep_filename_chars(s.drop_last());
    }
}

/// Whether `c` is a bidi/format control that enables display spoofing.
fn is_bidi_or_format_control(c: char) -> (b: bool)
    ensures
        b == is_bidi_spec(c),
{
    c == '\u{200E}' || c == '\u{200F}' || ('\u{202A}' <= c && c <= '\u{202E}') || (
    '\u{2066}' <= c && c <= '\u{2069}')
}

/// Index just past the last separator in `s` (0 if there is none).
fn segment_start(s: &Vec<char>) -> (k: usize)
    ensures
        k <= s@.len(),
        last_segment(s@) == s@.subrange(k as int, s@.len() as int),
{
    let mut k: usize = s.len();
    assert(s@.take(k as int) =~= s@);
    assert(last_segment(s@) + s@.subrange(k as int, s@.len() as int) =~= last_segment(s@));
    while k > 0
        invariant
            k <= s@.len(),
            last_segment(s@) == last_segment(s@.take(k as int)) + s@.subrange(
                k as int,
                s@.len() as int,
            ),
        decreases k,
    {
        let c = s[k - 1];
        assert(s@.take(k as int).drop_last() =~= s@.take(k - 1));
        if c == '/' || c == '\\' {
            assert(s@.subrange(k as int, s@.len() as int) =~= Seq::<char>::empty()
                + s@.subrange(k as int, s@.len() as int));
            return k;
        }
        assert(s@.subrange(k - 1, s@.len() as int) =~= seq![c] + s@.subrange(
            k as int,
            s@.len() as int,
        ));
        assert(last_segment(s@.take(k as int)) == last_segment(s@.take(k - 1)).push(c));
        assert(last_segment(s@.take(k - 1)).push(c) + s@.subrange(k as int, s@.len() as int)
            =~= last_segment(s@.take(k - 1)) + s@.subrange(k - 1, s@.len() as int));
        k -= 1;
    }
    assert(last_segment(s@.take(0)) =~= Seq::<char>::empty());
    assert(s@.subrange(0, s@.len() as int) =~= s@);
    0
}

proof fn lemma_trim_leading_step(s: Seq<char>, a: int)
    requires
        0 <= a < s.len(),
        s[a] == '.',
    ensures
        trim_leading_dots(s.subrange(a, s.len() as int)) == trim_leading_dots(
            s.subrange(a + 1, s.len() as int),
        ),
{
    assert(s.subrange(a, s.len() as int).drop_first() =~= s.subrange(a + 1, s.len() as int));
}

proof fn lemma_trim_trailing_step(s: Seq<char>, b: int)
    requires
        0 < b <= s.len(),
        s[b - 1] == '.',
    ensures
        trim_trailing_dots(s.take(b)) == trim_trailing_dots(s.take(b - 1)),
{
    assert(s.take(b).drop_last() =~= s.take(b - 1));
}

/// Reduce a sender-supplied file name to a safe base name: drop any path
/// components, leading/trailing dots, ASCII and C1 control characters and the
/// Unicode bidi/format controls (the right-to-left-override spoofing vector);
/// a blank or empty result falls back to "attachment".
pub fn sanitize_filename(raw: &str) -> (out: String)
    ensures
        out@ == sanitized(raw@),
        out@.len() > 0,
        !all_whitespace(out@),
        forall|i: int|
            0 <= i < out@.len() ==> !is_control_spec(#[trigger] out@[i]) && !is_bidi_spec(out@[i])
                && !is_separator(out@[i]),
{
    let cs = chars_of(raw);
    let start = segment_start(&cs);
    let ghost seg = cs@.subrange(start as int, cs@.len() as int);
    // Trim leading dots.
    let mut a: usize = start;
    while a < cs.len() && cs[a] == '.'
        invariant
            start <= a <= cs@.len(),
            seg == cs@.subrange(start as int, cs@.len() as int),
            trim_leading_dots(seg) == trim_leading_dots(cs@.subrange(a as int, cs@.len() as int)),
        decreases cs@.len() - a,
    {
        proof {
            lemma_trim_leading_step(cs@, a as int);
        }
        a += 1;
    }
    let ghost lead = cs@.subrange(a as int, cs@.len() as int);
    assert(trim_leading_dots(lead) == lead) by {
        if lead.len() > 0 {
            assert(lead[0] == cs@[a as int]);
        }
    }
    // Trim trailing dots.
    let mut b: usize = cs.len();
    while b > a && cs[b - 1] == '.'
        invariant
            a <= b <= cs@.len(),
            lead == cs@.subrange(a as int, cs@.len() as int),
            trim_trailing_dots(lead) == trim_trailing_dots(cs@.subrange(a as int, b as int)),
        decreases b - a,
    {
        proof {
            let t = cs@.subrange(a as int, cs@.len() as int);
            assert(cs@.subrange(a as int, b as int) =~= t.take(b - a));
            assert(cs@.subrange(a as int, b - 1) =~= t.take(b - 1 - a));
            lemma_trim_trailing_step(t, b - a);
        }
        b -= 1;
    }
    let ghost base = cs@.subrange(a as int, b as int);
    assert(trim_trailing_dots(base) == base) by {
        if base.len() > 0 {
            assert(base.last() == cs@[b - 1]);
        }
    }
    // Filter.
    let mut kept: Vec<char> = Vec::new();
    let mut i: usize = a;
    while i < b
        invariant
            a <= i <= b <= cs@.len(),
            base == cs@.subrange(a as int, b as int),
            kept@ == keep_filename_chars(cs@.subrange(a as int, i as int)),
        decreases b - i,
    {
        let c = cs[i];
        assert(cs@.subrange(a as int, i + 1).drop_last() =~= cs@.subrange(a as int, i as int));
        if !is_control(c) && !is_bidi_or_format_control(c) && c != '/' && c != '\\' {
            kept.push(c);
        }
        i += 1;
    }
    proof {
        lemma_keep_filename_chars(base);
    }
    if is_blank(kept.as_slice()) {
        proof {
            reveal_strlit("attachment");
        }
        let out = String::from_str("attachment");
        assert(!is_whitespace_spec_at(out@, 0));
        out
    } else {
        string_of(kept.as_slice())
    }
}

spec fn is_whitespace_spec_at(s: Seq<char>, i: int) -> bool {
    crate::text::is_whitespace_spec(s[i])
}

/// A character the file-name filter must let through: neither a control
/// character, nor a bidi/format control, nor a path separator.
spec fn harmless_in_name(c: char) -> bool {
    !is_control_spec(c) && !is_bidi_spec(c) && c != '/' && c != '\\'
}

proof fn lemma_filter_matches_harmless(s: Seq<char>)
    ensures
        keep_filename_chars(s) == s.filter(|c: char| harmless_in_name(c)),
    decreases s.len(),
{
    reveal(Seq::filter);
    if s.len() > 0 {
        lemma_filter_matches_harmless(s.drop_last());
    }
}

proof fn lemma_last_segment_without_separator(s: Seq<char>)
    requires
        forall|i: int| 0 <= i < s.len() ==> s[i] != '/' && s[i] != '\\',
    ensures
        last_segment(s) == s,
    decreases s.len(),
{
    if s.len() > 0 {
        assert(s.last() == s[s.len() - 1]);
        lemma_last_segment_without_separator(s.drop_last());
        assert(s.drop_last().push(s.last()) =~= s);
    }
}

/// The file name keeps every harmless character: the sanitized name is the
/// last path segment, with leading and trailing dots trimmed, of which
/// exactly the control characters, bidi/format controls and path separators
/// are dropped and every other character (spaces included) is kept, in
/// order; only when nothing but whitespace is left does it fall back to
/// "attachment".
pub proof fn lemma_sanitize_keeps_harmless_chars(raw: Seq<char>)
    ensures
        ({
            let seg = trim_trailing_dots(trim_leading_dots(last_segment(raw)));
            let kept = seg.filter(
                |c: char| !is_control_spec(c) && !is_bidi_spec(c) && c != '/' && c != '\\',
            );
            sanitized(raw) == if all_whitespace(kept) {
                "attachment"@
            } else {
                kept
            }
        }),
{
    lemma_filter_matches_harmless(trim_trailing_dots(trim_leading_dots(last_segment(raw))));
    let f = |c: char| harmless_in_name(c);
    let g = |c: char| !is_control_spec(c) && !is_bidi_spec(c) && c != '/' && c != '\\';
    assert(f =~= g);
}

/// A name that is already safe comes back unchanged: one with no control
/// character, bidi/format control or path separator, that neither starts
/// nor ends with a dot and is not blank (e.g. "holiday photo.jpg").
pub proof fn lemma_sanitize_keeps_safe_names(raw: Seq<char>)
    requires
        raw.len() > 0,
        raw[0] != '.',
        raw[raw.len() - 1] != '.',
        forall|i: int|
            0 <= i < raw.len() ==> !is_control_spec(#[trigger] raw[i]) && !is_bidi_spec(raw[i])
                && raw[i] != '/' && raw[i] != '\\',
        !all_whitespace(raw),
    ensures
        sanitized(raw) == raw,
{
    lemma_last_segment_without_separator(raw);
    assert(trim_leading_dots(raw) == raw);
    assert(trim_trailing_dots(raw) == raw);
    lemma_filter_matches_harmless(raw);
    assert(raw.filter(|c: char| harmless_in_name(c)) == raw) by {
        lemma_filter_keeps_all(raw);
    }
}

proof fn lemma_filter_keeps_all(s: Seq<char>)
    requires
        forall|i: int| 0 <= i < s.len() ==> harmless_in_name(#[trigger] s[i]),
    ensures
        s.filter(|c: char| harmless_in_name(c)) == s,
    decreases s.len(),
{
    reveal(Seq::filter);
    if s.len() > 0 {
        assert(harmless_in_name(s[s.len() - 1]));
        lemma_filter_keeps_all(s.drop_last());
        assert(s.drop_last().push(s.last()) =~= s);
    }
}

proof fn lemma_last_segment_after_separator(dir: Seq<char>, sep: char, name: Seq<char>)
    requires
        sep == '/' || sep == '\\',
    ensures
        last_segment(dir.push(sep) + name) == last_segment(name),
    decreases name.len(),
{
    let whole = dir.push(sep) + name;
    if name.len() == 0 {
        assert(whole =~= dir.push(sep));
    } else {
        assert(whole.last() == name.last());
        assert(whole.drop_last() =~= dir.push(sep) + name.drop_last());
        lemma_last_segment_after_separator(dir, sep, name.drop_last());
    }
}

/// Only the part after the last path separator counts: whatever directory
/// part, in either separator style, precedes a name, the sanitized result
/// is that of the name alone; and leading dots of the name are dropped.
pub proof fn lemma_sanitize_drops_directories(dir: Seq<char>, name: Seq<char>)
    ensures
        sanitized(dir.push('/') + name) == sanitized(name),
        sanitized(dir.push('\\') + name) == sanitized(name),
        (forall|i: int| 0 <= i < name.len() ==> name[i] != '/' && name[i] != '\\') ==> sanitized(
            seq!['.'] + name,
        ) == sanitized(name),
{
    lemma_last_segment_after_separator(dir, '/', name);
    lemma_last_segment_after_separator(dir, '\\', name);
    if forall|i: int| 0 <= i < name.len() ==> name[i] != '/' && name[i] != '\\' {
        let dotted = seq!['.'] + name;
        assert forall|i: int| 0 <= i < dotted.len() implies dotted[i] != '/' && dotted[i]
            != '\\' by {
            if i > 0 {
                assert(dotted[i] == name[i - 1]);
            }
        }
        lemma_last_segment_without_separator(dotted);
        lemma_last_segment_without_separator(name);
        assert(dotted.drop_first() =~= name);
        assert(trim_leading_dots(dotted) == trim_leading_dots(name));
    }
}

} // verus!
