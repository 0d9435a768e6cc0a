//! Hex newtypes for wire-safe byte arrays.
//!
//! Both types render as lowercase hex and parse case-insensitively; a parse
//! of a rendering gives back the bytes that were rendered.

use vstd::prelude::*;
use vstd::string::StringSliceAdditionalSpecFns;
use vstd::utf8::{encode_utf8, is_ascii_chars};
use crate::text::{push_char};

verus! {

broadcast use vstd::utf8::is_ascii_chars_encode_utf8;

/// 16-byte hex newtype (backing `MessageId`).
#[derive(Debug, Clone, Copy, PartialEq, Eq, Hash)]
pub struct Hex16(pub [u8; 16]);

/// 32-byte hex newtype (backing `PublicKey`, `GroupId`).
#[derive(Debug, Clone, Copy, PartialEq, Eq, Hash)]
pub struct Hex32(pub [u8; 32]);

/// Parse errors for the hex newtypes.
#[derive(Debug, Clone, Copy, PartialEq, Eq)]
pub enum HexParseError {
    /// Input string was not the expected length (in bytes).
    Length {
        /// Number of bytes expected.
        expected: usize,
        /// Number of bytes actually received.
        got: usize,
    },
    /// Input contained a non-hex character.
    NonHex {
        /// Byte offset of the offending character.
        index: usize,
    },
}

/// Value of one ASCII hex digit (either case), or `None`.
pub open spec fn hex_value(c: u8) -> Option<u8> {
    if 48 <= c <= 57 {
        Some((c - 48) as u8)
    } else if 97 <= c <= 102 {
        Some((c - 87) as u8)
    } else if 65 <= c <= 70 {
        Some((c - 55) as u8)
    } else {
        None
    }
}

/// Lowercase hex digit for a nibble.
pub open spec fn hex_digit(n: int) -> char {
    if n < 10 {
        (n + 48) as char
    } else {
        (n + 87) as char
    }
}

/// Lowercase hex rendering of `b`: two digits per byte, high nibble first.
pub open spec fn hex_encode(b: Seq<u8>) -> Seq<char> {
    Seq::new(
        2 * b.len(),
        |i: int|
            if i % 2 == 0 {
                hex_digit(b[i / 2] as int / 16)
            } else {
                hex_digit(b[i / 2] as int % 16)
            },
    )
}

/// Least index holding a byte that is not a hex digit, if any.
pub open spec fn first_non_hex(s: Seq<u8>) -> Option<nat>
    decreases s.len(),
{
    if s.len() == 0 {
        None
    } else if hex_value(s[0]) is None {
        Some(0nat)
    } else {
        match first_non_hex(s.drop_first()) {
            Some(k) => Some(k + 1),
            None => None,
        }
    }
}

/// The bytes decoded from a string of `2 * n` hex digits.
pub open spec fn decode_hex(s: Seq<u8>, n: nat) -> Seq<u8> {
    Seq::new(
        n,
        |i: int| (hex_value(s[2 * i])->0 * 16 + hex_value(s[2 * i + 1])->0) as u8,
    )
}

/// What parsing the UTF-8 bytes `s` as exactly `n` hex-encoded bytes yields.
pub open spec fn parse_hex_spec(s: Seq<u8>, n: nat) -> Result<Seq<u8>, HexParseError> {
    if s.len() != 2 * n {
        Err(HexParseError::Length { expected: (2 * n) as usize, got: s.len() as usize })
    } else {
        match first_non_hex(s) {
            Some(k) => Err(HexParseError::NonHex { index: k as usize }),
            None => Ok(decode_hex(s, n)),
        }
    }
}

proof fn lemma_first_non_hex(s: Seq<u8>)
    ensures
        first_non_hex(s) matches Some(k) ==> k < s.len() && hex_value(s[k as int]) is None
            && forall|j: int| 0 <= j < k ==> hex_value(#[trigger] s[j]) is Some,
        first_non_hex(s) is None ==> forall|j: int|
            0 <= j < s.len() ==> hex_value(#[trigger] s[j]) is Some,
    decreases s.len(),
{
    if s.len() > 0 {
        let t = s.drop_first();
        lemma_first_non_hex(t);
        if hex_value(s[0]) is Some {
            match first_non_hex(t) {
                Some(k) => {
                    assert forall|j: int| 0 <= j < k + 1 implies hex_value(#[trigger] s[j]) is Some by {
                        if j > 0 {
                            assert(s[j] == t[j - 1]);
                        }
                    }
                    assert(s[k + 1int] == t[k as int]);
                },
                None => {
                    assert forall|j: int| 0 <= j < s.len() implies hex_value(#[trigger] s[j]) is Some by {
                        if j > 0 {
                            assert(s[j] == t[j - 1]);
                        }
                    }
                },
            }
        }
    }
}

/// Value of an ASCII hex digit.
fn from_hex_char(c: u8) -> (r: Option<u8>)
    ensures
        r == hex_value(c),
{
    if 48 <= c && c <= 57 {
        Some(c - 48)
    } else if 97 <= c && c <= 102 {
        Some(c - 87)
    } else if 65 <= c && c <= 70 {
        Some(c - 55)
    } else {
        None
    }
}

/// Parse exactly `N` bytes from `2 * N` hex digits.
fn parse_fixed<const N: usize>(s: &str) -> (r: Result<[u8; N], HexParseError>)
    requires
        2 * N <= usize::MAX,
    ensures
        match r {
            Ok(a) => parse_hex_spec(s.spec_bytes(), N as nat) == Ok::<Seq<u8>, HexParseError>(a@),
            Err(e) => parse_hex_spec(s.spec_bytes(), N as nat) == Err::<Seq<u8>, HexParseError>(e),
        },
{
    let bytes = s.as_bytes();
    if bytes.len() != N * 2 {
        return Err(HexParseError::Length { expected: N * 2, got: bytes.len() });
    }
    proof {
        lemma_first_non_hex(bytes@);
    }
    let mut out = [0u8; N];
    let mut i: usize = 0;
    while i < N
        invariant
            i <= N,
            2 * N <= usize::MAX,
            bytes@ == s.spec_bytes(),
            bytes@.len() == 2 * N,
            out@.len() == N,
            forall|j: int| 0 <= j < 2 * i ==> hex_value(#[trigger] bytes@[j]) is Some,
            forall|j: int| 0 <= j < i ==> out@[j] == decode_hex(bytes@, N as nat)[j],
            first_non_hex(bytes@) matches Some(k) ==> k >= 2 * i,
        decreases N - i,
    {
        proof {
            lemma_first_non_hex(bytes@);
        }
        let hi = match from_hex_char(bytes[2 * i]) {
            Some(v) => v,
            None => {
                return Err(HexParseError::NonHex { index: 2 * i });
            },
        };
        let lo = match from_hex_char(bytes[2 * i + 1]) {
            Some(v) => v,
            None => {
                return Err(HexParseError::NonHex { index: 2 * i + 1 });
            },
        };
        out[i] = hi * 16 + lo;
        i += 1;
    }
    assert(out@ =~= decode_hex(bytes@, N as nat));
    Ok(out)
}

/// Lowercase hex digit for a nibble.
fn nibble_char(n: u8) -> (c: char)
    requires
        n < 16,
    ensures
        c == hex_digit(n as int),
{
    if n < 10 {
        (n + 48) as char
    } else {
        (n + 87) as char
    }
}

/// Lowercase hex rendering of `b`.
pub fn to_hex(b: &[u8]) -> (s: String)
    ensures
        s@ == hex_encode(b@),
{
    let mut s = String::new();
    let mut i: usize = 0;
    while i < b.len()
        invariant
            i <= b@.len(),
            s@ =~= hex_encode(b@.take(i as int)),
            forall|j: int| 0 <= j < 2 * i ==> s@[j] == hex_encode(b@)[j],
        decreases b@.len() - i,
    {
        let byte = b[i];
        push_char(&mut s, nibble_char(byte / 16));
        push_char(&mut s, nibble_char(byte % 16));
        i += 1;
        assert(s@ =~= hex_encode(b@.take(i as int)));
    }
    assert(b@.take(b@.len() as int) =~= b@);
    s
}

impl Hex16 {
    /// Wrap raw bytes.
    pub fn from_bytes(b: [u8; 16]) -> (h: Self)
        ensures
            h.0 == b,
    {
        Hex16(b)
    }

    /// Lowercase hex rendering (32 characters).
    pub fn to_string(&self) -> (s: String)
        ensures
            s@ == hex_encode(self.0@),
    {
        to_hex(&self.0)
    }

    /// Parse 32 hex digits, either case.
    pub fn from_hex(s: &str) -> (r: Result<Self, HexParseError>)
        ensures
            match r {
                Ok(h) => parse_hex_spec(s.spec_bytes(), 16) == Ok::<Seq<u8>, HexParseError>(h.0@),
                Err(e) => parse_hex_spec(s.spec_bytes(), 16) == Err::<Seq<u8>, HexParseError>(e),
            },
    {
        match parse_fixed::<16>(s) {
            Ok(a) => Ok(Hex16(a)),
            Err(e) => Err(e),
        }
    }
}

impl Hex32 {
    /// Wrap raw bytes.
    pub fn from_bytes(b: [u8; 32]) -> (h: Self)
        ensures
            h.0 == b,
    {
        Hex32(b)
    }

    /// Lowercase hex rendering (64 characters).
    pub fn to_string(&self) -> (s: String)
        ensures
            s@ == hex_encode(self.0@),
    {
        to_hex(&self.0)
    }

    /// Parse 64 hex digits, either case.
    pub fn from_hex(s: &str) -> (r: Result<Self, HexParseError>)
        ensures
            match r {
                Ok(h) => parse_hex_spec(s.spec_bytes(), 32) == Ok::<Seq<u8>, HexParseError>(h.0@),
                Err(e) => parse_hex_spec(s.spec_bytes(), 32) == Err::<Seq<u8>, HexParseError>(e),
            },
    {
        match parse_fixed::<32>(s) {
            Ok(a) => Ok(Hex32(a)),
            Err(e) => Err(e),
        }
    }
}

impl std::str::FromStr for Hex16 {
    type Err = HexParseError;

    /// Parse 32 hex digits, either case (see `from_hex`).
    fn from_str(s: &str) -> (r: Result<Self, Self::Err>)
        ensures
            match r {
                Ok(h) => parse_hex_spec(s.spec_bytes(), 16) == Ok::<Seq<u8>, HexParseError>(h.0@),
                Err(e) => parse_hex_spec(s.spec_bytes(), 16) == Err::<Seq<u8>, HexParseError>(e),
            },
    {
        Self::from_hex(s)
    }
}

impl std::str::FromStr for Hex32 {
    type Err = HexParseError;

    /// Parse 64 hex digits, either case (see `from_hex`).
    fn from_str(s: &str) -> (r: Result<Self, Self::Err>)
        ensures
            match r {
                Ok(h) => parse_hex_spec(s.spec_bytes(), 32) == Ok::<Seq<u8>, HexParseError>(h.0@),
                Err(e) => parse_hex_spec(s.spec_bytes(), 32) == Err::<Seq<u8>, HexParseError>(e),
            },
    {
        Self::from_hex(s)
    }
}

impl From<[u8; 16]> for Hex16 {
    fn from(b: [u8; 16]) -> (h: Self) {
        Hex16(b)
    }
}

impl vstd::std_specs::convert::FromSpecImpl<[u8; 16]> for Hex16 {
    open spec fn obeys_from_spec() -> bool {
        true
    }

    open spec fn from_spec(b: [u8; 16]) -> Self {
        Hex16(b)
    }
}

impl From<[u8; 32]> for Hex32 {
    fn from(b: [u8; 32]) -> (h: Self) {
        Hex32(b)
    }
}

impl vstd::std_specs::convert::FromSpecImpl<[u8; 32]> for Hex32 {
    open spec fn obeys_from_spec() -> bool {
        true
    }

    open spec fn from_spec(b: [u8; 32]) -> Self {
        Hex32(b)
    }
}

/// Rendering then parsing gives back the bytes: for every byte sequence `b`,
/// parsing the UTF-8 bytes of its lowercase hex rendering as `b.len()` bytes
/// succeeds with `b`.
pub proof fn lemma_hex_roundtrip(b: Seq<u8>)
    ensures
        parse_hex_spec(encode_utf8(hex_encode(b)), b.len())
            == Ok::<Seq<u8>, HexParseError>(b),
{
    let cs = hex_encode(b);
    assert forall|i: int| 0 <= i < cs.len() implies '\0' <= #[trigger] cs[i] <= '\u{7f}' by {
        assert(0 <= b[i / 2] as int / 16 < 16);
        assert(0 <= b[i / 2] as int % 16 < 16);
    }
    assert(is_ascii_chars(cs));
    let bytes = encode_utf8(cs);
    assert(bytes.len() == 2 * b.len());
    assert forall|j: int| 0 <= j < bytes.len() implies hex_value(#[trigger] bytes[j]) is Some by {
        assert(bytes[j] == cs[j] as u8);
        assert(0 <= b[j / 2] as int / 16 < 16);
        assert(0 <= b[j / 2] as int % 16 < 16);
    }
    lemma_first_non_hex(bytes);
    assert forall|i: int| 0 <= i < b.len() implies #[trigger] decode_hex(bytes, b.len())[i] == b[i] by {
        assert(bytes[2 * i] == cs[2 * i] as u8);
        assert(bytes[2 * i + 1] == cs[2 * i + 1] as u8);
        assert((2 * i) / 2 == i);
        assert((2 * i + 1) / 2 == i);
        assert((2 * i) % 2 == 0);
        assert((2 * i + 1) % 2 == 1);
        let hi = b[i] as int / 16;
        let lo = b[i] as int % 16;
        assert(hex_value(hex_digit(hi) as u8) == Some(hi as u8));
        assert(hex_value(hex_digit(lo) as u8) == Some(lo as u8));
        assert(hi * 16 + lo == b[i]);
    }
    assert(decode_hex(bytes, b.len()) =~= b);
}

/// `c` with ASCII lower case letters raised (`char::to_ascii_uppercase`).
pub open spec fn ascii_upper(c: char) -> char {
    if 'a' <= c && c <= 'z' {
        ((c as u32) - 32) as char
    } else {
        c
    }
}

/// `s` with ASCII lower case letters raised (`str::to_ascii_uppercase`).
pub open spec fn ascii_upper_str(s: Seq<char>) -> Seq<char> {
    s.map_values(|c: char| ascii_upper(c))
}

/// Parsing accepts either case: for every byte sequence `b`, parsing the
/// UTF-8 bytes of its hex rendering raised to upper case, as `b.len()`
/// bytes, succeeds with `b`.
pub proof fn lemma_upper_hex_roundtrip(b: Seq<u8>)
    ensures
        parse_hex_spec(encode_utf8(ascii_upper_str(hex_encode(b))), b.len())
            == Ok::<Seq<u8>, HexParseError>(b),
{
    let lower = hex_encode(b);
    let cs = ascii_upper_str(lower);
    assert forall|i: int| 0 <= i < cs.len() implies '\0' <= #[trigger] cs[i] <= '\u{7f}' by {
        assert(cs[i] == ascii_upper(lower[i]));
        assert(0 <= b[i / 2] as int / 16 < 16);
        assert(0 <= b[i / 2] as int % 16 < 16);
    }
    assert(is_ascii_chars(cs));
    let bytes = encode_utf8(cs);
    assert(bytes.len() == 2 * b.len());
    assert forall|j: int| 0 <= j < bytes.len() implies hex_value(#[trigger] bytes[j]) is Some by {
        assert(bytes[j] == cs[j] as u8);
        assert(cs[j] == ascii_upper(lower[j]));
        assert(0 <= b[j / 2] as int / 16 < 16);
        assert(0 <= b[j / 2] as int % 16 < 16);
    }
    lemma_first_non_hex(bytes);
    assert forall|i: int| 0 <= i < b.len() implies #[trigger] decode_hex(bytes, b.len())[i] == b[i] by {
        assert(bytes[2 * i] == cs[2 * i] as u8);
        assert(bytes[2 * i + 1] == cs[2 * i + 1] as u8);
        assert(cs[2 * i] == ascii_upper(lower[2 * i]));
        assert(cs[2 * i + 1] == ascii_upper(lower[2 * i + 1]));
        assert((2 * i) / 2 == i);
        assert((2 * i + 1) / 2 == i);
        assert((2 * i) % 2 == 0);
        assert((2 * i + 1) % 2 == 1);
        let hi = b[i] as int / 16;
        let lo = b[i] as int % 16;
        assert(hex_value(ascii_upper(hex_digit(hi)) as u8) == Some(hi as u8));
        assert(hex_value(ascii_upper(hex_digit(lo)) as u8) == Some(lo as u8));
        assert(hi * 16 + lo == b[i]);
    }
    assert(decode_hex(bytes, b.len()) =~= b);
}

} // verus!
