//! The command-line client's decisions: which contact or attachment a typed
//! prefix names, and the text lines it prints.

use vstd::prelude::*;
use crate::daemon::commands::{ContactSummary, Direction};
use crate::daemon::error_kind::DaemonErrorKind;
use crate::daemon::ipc::wire::IpcError;
use crate::daemon::hex::{ascii_upper, ascii_upper_str, hex_encode, to_hex};
use crate::identity::PublicKey;
use crate::text::{chars_of, debug_quoted, decimal, quote_debug, string_of, u64_to_decimal};

verus! {

/// `c` with ASCII upper case letters lowered (`char::to_ascii_lowercase`).
pub open spec fn ascii_lower(c: char) -> char {
    if 'A' <= c && c <= 'Z' {
        ((c as u32) + 32) as char
    } else {
        c
    }
}

/// `s` with ASCII upper case letters lowered (`str::to_ascii_lowercase`).
pub open spec fn ascii_lower_str(s: Seq<char>) -> Seq<char> {
    s.map_values(|c: char| ascii_lower(c))
}

/// `a` and `b` are equal ignoring ASCII case (`str::eq_ignore_ascii_case`).
pub open spec fn eq_ignore_ascii_case(a: Seq<char>, b: Seq<char>) -> bool {
    ascii_lower_str(a) == ascii_lower_str(b)
}

/// `p` is a prefix of `s`.
pub open spec fn starts_with(s: Seq<char>, p: Seq<char>) -> bool {
    p.len() <= s.len() && s.take(p.len() as int) == p
}

fn lower_char(c: char) -> (d: char)
    ensures
        d == ascii_lower(c),
{
    if 'A' <= c && c <= 'Z' {
        ((c as u8) + 32) as char
    } else {
        c
    }
}

/// `s` with ASCII upper case letters lowered.
pub fn to_ascii_lower(s: &[char]) -> (t: Vec<char>)
    ensures
        t@ == ascii_lower_str(s@),
{
    let mut t: Vec<char> = Vec::new();
    let mut i: usize = 0;
    while i < s.len()
        invariant
            i <= s@.len(),
            t@ == ascii_lower_str(s@.take(i as int)),
        decreases s@.len() - i,
    {
        t.push(lower_char(s[i]));
        i += 1;
        assert(t@ =~= ascii_lower_str(s@.take(i as int)));
    }
    assert(s@.take(s@.len() as int) =~= s@);
    t
}

/// Whether `p` is a prefix of `s`.
pub fn has_prefix(s: &[char], p: &[char]) -> (b: bool)
    ensures
        b == starts_with(s@, p@),
{
    if p.len() > s.len() {
        return false;
    }
    let mut i: usize = 0;
    while i < p.len()
        invariant
            p@.len() <= s@.len(),
            i <= p@.len(),
            forall|j: int| 0 <= j < i ==> s@[j] == p@[j],
        decreases p@.len() - i,
    {
        if s[i] != p[i] {
            assert(s@.take(p@.len() as int)[i as int] != p@[i as int]);
            return false;
        }
        i += 1;
    }
    assert(s@.take(p@.len() as int) =~= p@);
    true
}

/// Whether `a` and `b` are equal ignoring ASCII case.
pub fn same_ignoring_ascii_case(a: &[char], b: &[char]) -> (r: bool)
    ensures
        r == eq_ignore_ascii_case(a@, b@),
{
    let x = to_ascii_lower(a);
    let y = to_ascii_lower(b);
    if x.len() != y.len() {
        return false;
    }
    let mut i: usize = 0;
    while i < x.len()
        invariant
            x@ == ascii_lower_str(a@),
            y@ == ascii_lower_str(b@),
            x@.len() == y@.len(),
            i <= x@.len(),
            forall|j: int| 0 <= j < i ==> x@[j] == y@[j],
        decreases x@.len() - i,
    {
        if x[i] != y[i] {
            return false;
        }
        i += 1;
    }
    assert(x@ =~= y@);
    true
}

/// The availability field of a file line: whether every chunk is held, when
/// that is known.
pub open spec fn availability_label(availability: Option<bool>) -> Seq<char> {
    match availability {
        Some(true) => "  available"@,
        Some(false) => "  incomplete"@,
        None => Seq::empty(),
    }
}

/// A file message as the client lists it.
pub open spec fn file_kind_line_spec(
    filename: Seq<char>,
    size_text: Seq<char>,
    id: Seq<u8>,
    availability: Option<bool>,
) -> Seq<char> {
    "\u{1F4CE} "@ + filename + "  "@ + size_text + "  id="@ + hex_encode(id.take(8))
        + availability_label(availability)
}

/// The line for a file message: the paperclip, the file's name, its size as
/// already rendered, the first eight bytes of the attachment id in lowercase
/// hex and, when known, whether all chunks are held.
pub fn file_kind_line(
    filename: &str,
    size_text: &str,
    id: &[u8; 16],
    availability: Option<bool>,
) -> (line: String)
    ensures
        line@ == file_kind_line_spec(filename@, size_text@, id@, availability),
{
    let mut head: Vec<u8> = Vec::new();
    let mut i: usize = 0;
    while i < 8
        invariant
            i <= 8,
            id@.len() == 16,
            head@ == id@.take(i as int),
        decreases 8 - i,
    {
        head.push(id[i]);
        i += 1;
    }
    let hex = to_hex(head.as_slice());
    proof {
        reveal_strlit("\u{1F4CE} ");
        reveal_strlit("  ");
        reveal_strlit("  id=");
        reveal_strlit("  available");
        reveal_strlit("  incomplete");
    }
    let mut line = String::from_str("\u{1F4CE} ");
    line.append(filename);
    line.append("  ");
    line.append(size_text);
    line.append("  id=");
    line.append(hex.as_str());
    match availability {
        Some(true) => line.append("  available"),
        Some(false) => line.append("  incomplete"),
        None => {},
    }
    line
}

/// How a typed prefix failed to name exactly one item.
#[derive(Debug, Clone, Copy, PartialEq, Eq)]
pub enum PrefixError {
    /// Nothing matches.
    NoMatch,
    /// This many items match.
    Ambiguous(usize),
}

/// What the client says when `prefix` names no `noun`, or several.
pub open spec fn prefix_message(e: PrefixError, noun: Seq<char>, prefix: Seq<char>) -> Seq<char> {
    match e {
        PrefixError::NoMatch => "no "@ + noun + " matches "@ + debug_quoted(prefix),
        PrefixError::Ambiguous(n) => "ambiguous: "@ + decimal(n as nat) + " "@ + noun
            + "s match "@ + debug_quoted(prefix),
    }
}

impl PrefixError {
    /// The error as the client reports it, `noun` naming what was looked for
    /// ("contact", "attachment"): `no contact matches "ff"`, or
    /// `ambiguous: 2 contacts match "ab"`.
    pub fn message(&self, noun: &str, prefix: &str) -> (m: String)
        ensures
            m@ == prefix_message(*self, noun@, prefix@),
    {
        let quoted = quote_debug(prefix);
        proof {
            reveal_strlit("no ");
            reveal_strlit(" matches ");
            reveal_strlit("ambiguous: ");
            reveal_strlit(" ");
            reveal_strlit("s match ");
        }
        match self {
            PrefixError::NoMatch => {
                let mut m = String::from_str("no ");
                m.append(noun);
                m.append(" matches ");
                m.append(quoted.as_str());
                m
            },
            PrefixError::Ambiguous(n) => {
                let mut m = String::from_str("ambiguous: ");
                m.append(u64_to_decimal(*n as u64).as_str());
                m.append(" ");
                m.append(noun);
                m.append("s match ");
                m.append(quoted.as_str());
                m
            },
        }
    }
}

/// A contact row answers to `prefix`: its key in hex starts with the
/// lowered prefix, or its nickname equals the prefix ignoring ASCII case.
pub open spec fn contact_answers(row: ContactSummary, prefix: Seq<char>) -> bool {
    ||| starts_with(hex_encode(row.pubkey.0@), ascii_lower_str(prefix))
    ||| (row.nickname matches Some(n) && eq_ignore_ascii_case(n@, prefix))
}

/// The rows that answer to `prefix`, in order.
pub open spec fn answering(rows: Seq<ContactSummary>, prefix: Seq<char>) -> Seq<ContactSummary> {
    rows.filter(|r: ContactSummary| contact_answers(r, prefix))
}

/// Whether `row` answers to `prefix`.
fn row_answers(row: &ContactSummary, lower: &Vec<char>, prefix: &Vec<char>) -> (b: bool)
    requires
        lower@ == ascii_lower_str(prefix@),
    ensures
        b == contact_answers(*row, prefix@),
{
    let hex = chars_of(to_hex(&row.pubkey.0).as_str());
    if has_prefix(hex.as_slice(), lower.as_slice()) {
        return true;
    }
    match &row.nickname {
        Some(n) => {
            let nc = chars_of(n.as_str());
            same_ignoring_ascii_case(nc.as_slice(), prefix.as_slice())
        },
        None => false,
    }
}

/// The contact a typed `prefix` names: the only row whose key in hex starts
/// with the prefix (ignoring ASCII case) or whose nickname equals it
/// (ignoring ASCII case). No such row, or several, is an error.
pub fn resolve_contact(rows: &Vec<ContactSummary>, prefix: &str) -> (r: Result<
    PublicKey,
    PrefixError,
>)
    ensures
        answering(rows@, prefix@).len() == 0 ==> r == Err::<PublicKey, PrefixError>(
            PrefixError::NoMatch,
        ),
        answering(rows@, prefix@).len() == 1 ==> r == Ok::<PublicKey, PrefixError>(
            answering(rows@, prefix@)[0].pubkey,
        ),
        answering(rows@, prefix@).len() > 1 ==> r == Err::<PublicKey, PrefixError>(
            PrefixError::Ambiguous(answering(rows@, prefix@).len() as usize),
        ),
{
    let p = chars_of(prefix);
    let lower = to_ascii_lower(p.as_slice());
    let mut count: usize = 0;
    let mut found: Option<PublicKey> = None;
    let mut i: usize = 0;
    while i < rows.len()
        invariant
            i <= rows@.len(),
            p@ == prefix@,
            lower@ == ascii_lower_str(p@),
            count == answering(rows@.take(i as int), prefix@).len(),
            count <= i,
            count > 0 ==> found == Some(answering(rows@.take(i as int), prefix@)[0].pubkey),
        decreases rows@.len() - i,
    {
        proof {
            reveal(Seq::filter);
            assert(rows@.take(i + 1).drop_last() =~= rows@.take(i as int));
            assert(rows@.take(i + 1).last() == rows@[i as int]);
        }
        if row_answers(&rows[i], &lower, &p) {
            if count == 0 {
                found = Some(rows[i].pubkey);
            }
            proof {
                let prev = answering(rows@.take(i as int), prefix@);
                assert(answering(rows@.take(i + 1), prefix@) == prev.push(rows@[i as int]));
                if count > 0 {
                    assert(prev.push(rows@[i as int])[0] == prev[0]);
                }
            }
            count += 1;
        }
        i += 1;
    }
    assert(rows@.take(rows@.len() as int) =~= rows@);
    if count == 0 {
        Err(PrefixError::NoMatch)
    } else if count == 1 {
        match found {
            Some(pk) => Ok(pk),
            None => Err(PrefixError::NoMatch),
        }
    } else {
        Err(PrefixError::Ambiguous(count))
    }
}

/// `s` padded with spaces on the right to at least `width` characters
/// (what `{:<width}` prints).
pub open spec fn pad_right(s: Seq<char>, width: nat) -> Seq<char> {
    if s.len() >= width {
        s
    } else {
        s + Seq::new((width - s.len()) as nat, |i: int| ' ')
    }
}

/// The name a contact row is listed under.
pub open spec fn listed_name(row: ContactSummary) -> Seq<char> {
    match row.nickname {
        Some(n) => n@,
        None => "(unnamed)"@,
    }
}

/// One line of the contact list: the first four key bytes in hex, the name
/// padded to 20 characters, the onion and the time the contact was added.
pub open spec fn contact_line(row: ContactSummary) -> Seq<char> {
    hex_encode(row.pubkey.0@.take(4)) + "  "@ + pad_right(listed_name(row), 20) + "  "@ + row.onion@
        + "  added="@ + decimal(row.added_at as nat) + "\n"@
}

/// The lines of `rows`, one after another.
pub open spec fn contact_lines(rows: Seq<ContactSummary>) -> Seq<char>
    decreases rows.len(),
{
    if rows.len() == 0 {
        Seq::empty()
    } else {
        contact_lines(rows.drop_last()) + contact_line(rows.last())
    }
}

/// The contact list as printed.
pub open spec fn contacts_text(rows: Seq<ContactSummary>) -> Seq<char> {
    if rows.len() == 0 {
        "No contacts.\n"@
    } else {
        contact_lines(rows)
    }
}

/// Appends the characters of `s`.
fn push_str(out: &mut Vec<char>, s: &str)
    ensures
        final(out)@ == old(out)@ + s@,
{
    let cs = chars_of(s);
    let mut i: usize = 0;
    while i < cs.len()
        invariant
            i <= cs@.len(),
            cs@ == s@,
            out@ == old(out)@ + cs@.take(i as int),
        decreases cs@.len() - i,
    {
        out.push(cs[i]);
        i += 1;
        assert(out@ =~= old(out)@ + cs@.take(i as int));
    }
    assert(cs@.take(cs@.len() as int) =~= cs@);
}

/// Appends `n` spaces.
fn push_spaces(out: &mut Vec<char>, n: usize)
    ensures
        final(out)@ == old(out)@ + Seq::new(n as nat, |i: int| ' '),
{
    let mut i: usize = 0;
    while i < n
        invariant
            i <= n,
            out@ == old(out)@ + Seq::new(i as nat, |k: int| ' '),
        decreases n - i,
    {
        out.push(' ');
        i += 1;
        assert(out@ =~= old(out)@ + Seq::new(i as nat, |k: int| ' '));
    }
}

/// Appends the contact-list line of `row`.
fn push_contact_line(out: &mut Vec<char>, row: &ContactSummary)
    ensures
        final(out)@ == old(out)@ + contact_line(*row),
{
    let short: [u8; 4] = [row.pubkey.0[0], row.pubkey.0[1], row.pubkey.0[2], row.pubkey.0[3]];
    assert(short@ =~= row.pubkey.0@.take(4));
    push_str(out, to_hex(&short).as_str());
    push_str(out, "  ");
    let name_len: usize;
    match &row.nickname {
        Some(n) => {
            let nc = chars_of(n.as_str());
            name_len = nc.len();
            push_str(out, n.as_str());
        },
        None => {
            proof {
                reveal_strlit("(unnamed)");
            }
            name_len = 9;
            push_str(out, "(unnamed)");
        },
    }
    if name_len < 20 {
        push_spaces(out, 20 - name_len);
    }
    push_str(out, "  ");
    push_str(out, row.onion.as_str());
    push_str(out, "  added=");
    push_str(out, u64_to_decimal(row.added_at).as_str());
    push_str(out, "\n");
    assert(out@ =~= old(out)@ + contact_line(*row));
}

/// The contact list as the client prints it: one line per contact, or a
/// note that there are none.
pub fn render_contacts_human(rows: &Vec<ContactSummary>) -> (s: String)
    ensures
        s@ == contacts_text(rows@),
{
    if rows.len() == 0 {
        proof {
            reveal_strlit("No contacts.\n");
        }
        return String::from_str("No contacts.\n");
    }
    let mut out: Vec<char> = Vec::new();
    let mut i: usize = 0;
    while i < rows.len()
        invariant
            i <= rows@.len(),
            out@ == contact_lines(rows@.take(i as int)),
        decreases rows@.len() - i,
    {
        push_contact_line(&mut out, &rows[i]);
        i += 1;
        assert(rows@.take(i as int).drop_last() =~= rows@.take(i - 1));
    }
    assert(rows@.take(rows@.len() as int) =~= rows@);
    string_of(out.as_slice())
}

/// The arrow a message line shows for its direction.
pub open spec fn direction_arrow(d: Direction) -> Seq<char> {
    match d {
        Direction::Incoming => "<-"@,
        Direction::Outgoing => "->"@,
    }
}

/// One printed message line: receive time in brackets, direction arrow,
/// the first four bytes of the peer's key in hex, and the rendered body.
pub open spec fn message_line(ts: u64, d: Direction, contact: Seq<u8>, body: Seq<char>) -> Seq<
    char,
> {
    "["@ + decimal(ts as nat) + "] "@ + direction_arrow(d) + " "@ + hex_encode(contact.take(4))
        + " "@ + body
}

/// The printed line of a message received at `ts` (unix seconds).
pub fn render_message_line(ts: u64, direction: Direction, contact: &PublicKey, body: &str) -> (s:
    String)
    ensures
        s@ == message_line(ts, direction, contact.0@, body@),
{
    let mut out: Vec<char> = Vec::new();
    push_str(&mut out, "[");
    push_str(&mut out, u64_to_decimal(ts).as_str());
    push_str(&mut out, "] ");
    match direction {
        Direction::Incoming => push_str(&mut out, "<-"),
        Direction::Outgoing => push_str(&mut out, "->"),
    }
    push_str(&mut out, " ");
    let short: [u8; 4] = [contact.0[0], contact.0[1], contact.0[2], contact.0[3]];
    assert(short@ =~= contact.0@.take(4));
    push_str(&mut out, to_hex(&short).as_str());
    push_str(&mut out, " ");
    push_str(&mut out, body);
    assert(out@ =~= message_line(ts, direction, contact.0@, body@));
    string_of(out.as_slice())
}

/// The lines of `lines` from last to first, each ending in a newline.
pub open spec fn reversed_lines(lines: Seq<Seq<char>>) -> Seq<char>
    decreases lines.len(),
{
    if lines.len() == 0 {
        Seq::empty()
    } else {
        lines.last() + "\n"@ + reversed_lines(lines.drop_last())
    }
}

/// A message listing as printed: the store answers newest first, the client
/// prints oldest first; an empty listing says so.
pub fn render_messages_human(lines: &Vec<String>) -> (s: String)
    ensures
        s@ == if lines@.len() == 0 {
            "No messages.\n"@
        } else {
            reversed_lines(lines@.map_values(|l: String| l@))
        },
{
    let ghost views = lines@.map_values(|l: String| l@);
    if lines.len() == 0 {
        proof {
            reveal_strlit("No messages.\n");
        }
        return String::from_str("No messages.\n");
    }
    let mut out: Vec<char> = Vec::new();
    let mut i: usize = lines.len();
    assert(views.take(lines@.len() as int) =~= views);
    assert(out@ + reversed_lines(views) =~= reversed_lines(views));
    while i > 0
        invariant
            i <= lines@.len(),
            views == lines@.map_values(|l: String| l@),
            out@ + reversed_lines(views.take(i as int)) == reversed_lines(views),
        decreases i,
    {
        i -= 1;
        let ghost before = out@;
        push_str(&mut out, lines[i].as_str());
        push_str(&mut out, "\n");
        proof {
            assert(views.take(i + 1).drop_last() =~= views.take(i as int));
            assert(views.take(i + 1).last() == views[i as int]);
            assert(out@ + reversed_lines(views.take(i as int)) =~= before + reversed_lines(
                views.take(i + 1),
            ));
        }
    }
    assert(views.take(0) =~= Seq::<Seq<char>>::empty());
    assert(out@ =~= reversed_lines(views));
    string_of(out.as_slice())
}

/// `ids[i]` occurs nowhere before position `i`.
pub open spec fn first_at(ids: Seq<[u8; 16]>, i: int) -> bool {
    forall|j: int| 0 <= j < i ==> ids[j] != ids[i]
}

/// The id at position `i` answers to `prefix` (its hex starts with the
/// lowered prefix) and is the first occurrence of that id.
pub open spec fn id_answers(ids: Seq<[u8; 16]>, i: int, prefix: Seq<char>) -> bool {
    starts_with(hex_encode(ids[i]@), ascii_lower_str(prefix)) && first_at(ids, i)
}

/// Number of distinct ids among the first `n` of `ids` that answer to `prefix`.
pub open spec fn count_answering_ids(ids: Seq<[u8; 16]>, n: int, prefix: Seq<char>) -> nat
    decreases n,
{
    if n <= 0 {
        0
    } else if id_answers(ids, n - 1, prefix) {
        count_answering_ids(ids, n - 1, prefix) + 1
    } else {
        count_answering_ids(ids, n - 1, prefix)
    }
}

/// Whether two ids are equal.
fn same_id(a: &[u8; 16], b: &[u8; 16]) -> (r: bool)
    ensures
        r == (*a == *b),
{
    let mut i: usize = 0;
    while i < 16
        invariant
            i <= 16,
            forall|j: int| 0 <= j < i ==> a@[j] == b@[j],
        decreases 16 - i,
    {
        if a[i] != b[i] {
            return false;
        }
        i += 1;
    }
    proof {
        broadcast use vstd::array::axiom_array_ext_equal;

        assert(a =~= b);
    }
    true
}

/// The attachment a typed `prefix` names among the ids of the listed file
/// messages: the position of the only distinct id whose hex starts with the
/// prefix (ignoring ASCII case). No such id, or several, is an error.
pub fn resolve_attachment_prefix(ids: &Vec<[u8; 16]>, prefix: &str) -> (r: Result<usize, PrefixError>)
    ensures
        count_answering_ids(ids@, ids@.len() as int, prefix@) == 0 ==> r == Err::<
            usize,
            PrefixError,
        >(PrefixError::NoMatch),
        count_answering_ids(ids@, ids@.len() as int, prefix@) > 1 ==> r == Err::<usize, PrefixError>(
            PrefixError::Ambiguous(count_answering_ids(ids@, ids@.len() as int, prefix@) as usize),
        ),
        count_answering_ids(ids@, ids@.len() as int, prefix@) == 1 ==> (r matches Ok(i) && i
            < ids@.len() && id_answers(ids@, i as int, prefix@)),
{
    let p = chars_of(prefix);
    let lower = to_ascii_lower(p.as_slice());
    let mut count: usize = 0;
    let mut found: usize = 0;
    let mut i: usize = 0;
    while i < ids.len()
        invariant
            i <= ids@.len(),
            p@ == prefix@,
            lower@ == ascii_lower_str(prefix@),
            count == count_answering_ids(ids@, i as int, prefix@),
            count <= i,
            count > 0 ==> found < i && id_answers(ids@, found as int, prefix@),
        decreases ids@.len() - i,
    {
        let hex = chars_of(to_hex(&ids[i]).as_str());
        if has_prefix(hex.as_slice(), lower.as_slice()) {
            let mut seen = false;
            let mut j: usize = 0;
            while j < i
                invariant
                    j <= i < ids@.len(),
                    !seen ==> forall|k: int| 0 <= k < j ==> ids@[k] != ids@[i as int],
                    seen ==> !first_at(ids@, i as int),
                decreases i - j,
            {
                if same_id(&ids[j], &ids[i]) {
                    seen = true;
                }
                j += 1;
            }
            if !seen {
                if count == 0 {
                    found = i;
                }
                count += 1;
            }
        }
        i += 1;
    }
    if count == 0 {
        Err(PrefixError::NoMatch)
    } else if count == 1 {
        Ok(found)
    } else {
        Err(PrefixError::Ambiguous(count))
    }
}

/// What the client prints, and the exit status it ends with, for an error
/// the daemon answered with; `None` for the server errors it prints in their
/// debug form with status 1.
pub open spec fn server_error_report_spec(err: IpcError) -> Option<(Seq<char>, i32)> {
    match err {
        IpcError::AuthDenied => Some(("ipc: auth denied (peer-cred mismatch)"@, 4)),
        IpcError::Daemon(k) => Some(
            match k {
                DaemonErrorKind::ContactNotFound => ("contact not found"@, 6),
                DaemonErrorKind::ContactAmbiguous { matches } => (
                    "contact prefix is ambiguous ("@ + decimal(matches as nat) + " matches)"@,
                    6,
                ),
                DaemonErrorKind::InviteExpired => ("invite expired"@, 7),
                DaemonErrorKind::InviteConsumed => ("invite already consumed"@, 7),
                DaemonErrorKind::InviteSignatureInvalid => ("invite signature invalid"@, 7),
                DaemonErrorKind::GroupCorrupt => ("mls group state corrupt"@, 1),
                DaemonErrorKind::DeliveryTimeout => ("delivery timed out"@, 8),
                DaemonErrorKind::TorNotReady => ("Tor still bootstrapping; retry shortly"@, 1),
                DaemonErrorKind::StorageError => ("storage error (see daemon logs)"@, 1),
                DaemonErrorKind::SearchSyntax => ("search query rejected by FTS5 engine"@, 6),
                DaemonErrorKind::InvalidArgument { message } => (
                    "argument error: "@ + message@,
                    2,
                ),
                DaemonErrorKind::Unauthorized => ("error: authentication failed"@, 1),
            },
        ),
        _ => None,
    }
}

/// The message and exit status for an error the daemon answered with.
pub fn server_error_report(err: &IpcError) -> (r: Option<(String, i32)>)
    ensures
        match (r, server_error_report_spec(*err)) {
            (Some((m, code)), Some((sm, scode))) => m@ == sm && code == scode,
            (None, None) => true,
            _ => false,
        },
{
    let (text, code): (&str, i32) = match err {
        IpcError::AuthDenied => ("ipc: auth denied (peer-cred mismatch)", 4),
        IpcError::Daemon(k) => match k {
            DaemonErrorKind::ContactNotFound => ("contact not found", 6),
            DaemonErrorKind::ContactAmbiguous { matches } => {
                let mut m = String::from_str("contact prefix is ambiguous (");
                m.append(u64_to_decimal(*matches as u64).as_str());
                m.append(" matches)");
                proof {
                    reveal_strlit("contact prefix is ambiguous (");
                    reveal_strlit(" matches)");
                }
                return Some((m, 6));
            },
            DaemonErrorKind::InviteExpired => ("invite expired", 7),
            DaemonErrorKind::InviteConsumed => ("invite already consumed", 7),
            DaemonErrorKind::InviteSignatureInvalid => ("invite signature invalid", 7),
            DaemonErrorKind::GroupCorrupt => ("mls group state corrupt", 1),
            DaemonErrorKind::DeliveryTimeout => ("delivery timed out", 8),
            DaemonErrorKind::TorNotReady => ("Tor still bootstrapping; retry shortly", 1),
            DaemonErrorKind::StorageError => ("storage error (see daemon logs)", 1),
            DaemonErrorKind::SearchSyntax => ("search query rejected by FTS5 engine", 6),
            DaemonErrorKind::InvalidArgument { message } => {
                let mut m = String::from_str("argument error: ");
                m.append(message.as_str());
                proof {
                    reveal_strlit("argument error: ");
                }
                return Some((m, 2));
            },
            DaemonErrorKind::Unauthorized => ("error: authentication failed", 1),
        },
        _ => {
            return None;
        },
    };
    Some((String::from_str(text), code))
}

/// `s` without one trailing line ending: a final `\n`, together with a `\r`
/// just before it; otherwise `s` unchanged. Earlier line breaks are kept.
pub open spec fn without_one_newline(s: Seq<char>) -> Seq<char> {
    if s.len() > 0 && s.last() == '\n' {
        let t = s.drop_last();
        if t.len() > 0 && t.last() == '\r' {
            t.drop_last()
        } else {
            t
        }
    } else {
        s
    }
}

/// A passphrase read from a file, with exactly one trailing newline (LF or
/// CRLF) removed and internal newlines preserved.
pub fn trim_one_newline(s: String) -> (t: String)
    ensures
        t@ == without_one_newline(s@),
{
    let cs = chars_of(s.as_str());
    let mut end: usize = cs.len();
    if end > 0 && cs[end - 1] == '\n' {
        end -= 1;
        if end > 0 && cs[end - 1] == '\r' {
            end -= 1;
        }
    } else {
        return s;
    }
    let mut out: Vec<char> = Vec::new();
    let mut i: usize = 0;
    while i < end
        invariant
            i <= end <= cs@.len(),
            out@ == cs@.take(i as int),
        decreases end - i,
    {
        out.push(cs[i]);
        i += 1;
        assert(out@ =~= cs@.take(i as int));
    }
    assert(out@ =~= without_one_newline(s@));
    string_of(out.as_slice())
}

/// Lowering is the same whatever the ASCII case of the input.
proof fn lemma_lower_absorbs_case(p: Seq<char>)
    ensures
        ascii_lower_str(ascii_lower_str(p)) == ascii_lower_str(p),
        ascii_lower_str(ascii_upper_str(p)) == ascii_lower_str(p),
{
    assert forall|i: int| 0 <= i < p.len() implies #[trigger] ascii_lower(ascii_lower(p[i]))
        == ascii_lower(p[i]) && ascii_lower(ascii_upper(p[i])) == ascii_lower(p[i]) by {
        let c = p[i];
        let u = c as u32;
        if 'a' <= c && c <= 'z' {
            assert(97 <= u <= 122);
            assert(((u - 32) as char) as u32 == u - 32);
        } else if 'A' <= c && c <= 'Z' {
            assert(65 <= u <= 90);
            assert(((u + 32) as char) as u32 == u + 32);
        }
    }
    assert(ascii_lower_str(ascii_lower_str(p)) =~= ascii_lower_str(p));
    assert(ascii_lower_str(ascii_upper_str(p)) =~= ascii_lower_str(p));
}

/// A typed contact prefix ignores ASCII case: a row answers `p` exactly when
/// it answers `p` lowered, and exactly when it answers `p` raised; in
/// particular a row whose key, in lowercase hex, starts with `p` lowered
/// answers `p`. So the rows a prefix names, and hence what `resolve_contact`
/// gives, do not depend on the case in which it was typed.
pub proof fn lemma_contact_prefix_ignores_case(rows: Seq<ContactSummary>, row: ContactSummary, p: Seq<char>)
    ensures
        contact_answers(row, p) == contact_answers(row, ascii_lower_str(p)),
        contact_answers(row, p) == contact_answers(row, ascii_upper_str(p)),
        starts_with(hex_encode(row.pubkey.0@), ascii_lower_str(p)) ==> contact_answers(row, p),
        answering(rows, p) == answering(rows, ascii_lower_str(p)),
        answering(rows, p) == answering(rows, ascii_upper_str(p)),
{
    lemma_lower_absorbs_case(p);
    let f = |r: ContactSummary| contact_answers(r, p);
    let g = |r: ContactSummary| contact_answers(r, ascii_lower_str(p));
    let h = |r: ContactSummary| contact_answers(r, ascii_upper_str(p));
    assert(f =~= g);
    assert(f =~= h);
}

/// A typed attachment prefix ignores ASCII case: the id at each position
/// answers `p` exactly when it answers `p` lowered or raised, and the number
/// of ids a prefix names is the same in every case; an id whose lowercase
/// hex starts with `p` lowered, and which occurs first there, answers `p`.
pub proof fn lemma_attachment_prefix_ignores_case(ids: Seq<[u8; 16]>, i: int, n: int, p: Seq<char>)
    ensures
        id_answers(ids, i, p) == id_answers(ids, i, ascii_lower_str(p)),
        id_answers(ids, i, p) == id_answers(ids, i, ascii_upper_str(p)),
        starts_with(hex_encode(ids[i]@), ascii_lower_str(p)) && first_at(ids, i) ==> id_answers(
            ids,
            i,
            p,
        ),
        count_answering_ids(ids, n, p) == count_answering_ids(ids, n, ascii_lower_str(p)),
        count_answering_ids(ids, n, p) == count_answering_ids(ids, n, ascii_upper_str(p)),
    decreases n,
{
    lemma_lower_absorbs_case(p);
    if n > 0 {
        lemma_attachment_prefix_ignores_case(ids, n - 1, n - 1, p);
    }
}

} // verus!
