//! `ContactCard`: signed, versioned, self-published routing record.
//!
//! When a user rotates their onion address or their mailbox list, they
//! publish a new `ContactCard` with a higher `version`, signed by their
//! identity key. Peers reject cards whose version is not strictly greater
//! than the last verified version for that identity (replay resistance).
//!
//! The signature covers the deterministic CBOR encoding of the body: a map
//! of the five fields, keys in the order RFC 8949 prescribes for
//! deterministic encoding (`onion`, `version`, `identity`, `mailboxes`,
//! `expires_at`), the identity as a byte string.

use vstd::prelude::*;
use crate::cbor::{
    bytes_item, head, int_item, lemma_bytes_item_unique, lemma_cancel_prefix, lemma_head_unique,
    lemma_int_item_unique, lemma_reassociate12, lemma_text_item_unique, lemma_text_items_unique,
    push_byte_string,
    push_head, push_int, push_text, push_texts, push_uint, text_item, text_items, texts_sized,
    uint_item,
};
use vstd::utf8::encode_utf8;
use crate::identity::{
    ed25519_accepts, ed25519_public_of, ed25519_signature_of, verify_signature, IdentityKey,
    PublicKey, Signature,
};

verus! {

/// Content the owner signs. Excludes the signature.
#[derive(Debug)]
pub struct ContactCardBody {
    /// Long-term identity of the card's owner.
    pub identity: PublicKey,
    /// Current onion service, v3 format (56-char base32).
    pub onion: String,
    /// Mailboxes this user is registered with.
    pub mailboxes: Vec<String>,
    /// Monotonic version. Higher is newer.
    pub version: u64,
    /// Unix timestamp after which this card is considered stale.
    pub expires_at: i64,
}

/// Mathematical value of a card body.
pub struct ContactCardBodyView {
    pub identity: Seq<u8>,
    pub onion: Seq<char>,
    pub mailboxes: Seq<Seq<char>>,
    pub version: u64,
    pub expires_at: i64,
}

/// The characters of each string of `v`.
pub open spec fn strings_view(v: Seq<String>) -> Seq<Seq<char>> {
    v.map_values(|s: String| s@)
}

impl View for ContactCardBody {
    type V = ContactCardBodyView;

    open spec fn view(&self) -> ContactCardBodyView {
        ContactCardBodyView {
            identity: self.identity.0@,
            onion: self.onion@,
            mailboxes: strings_view(self.mailboxes@),
            version: self.version,
            expires_at: self.expires_at,
        }
    }
}

/// The bytes a card body is signed in.
pub open spec fn body_bytes(b: ContactCardBodyView) -> Seq<u8> {
    head(5, 5) + text_item("onion"@) + text_item(b.onion) + text_item("version"@) + uint_item(
        b.version,
    ) + text_item("identity"@) + bytes_item(b.identity) + text_item("mailboxes"@) + head(
        4,
        b.mailboxes.len() as u64,
    ) + text_items(b.mailboxes) + text_item("expires_at"@) + int_item(b.expires_at)
}

/// A copy of the strings of `v`.
pub fn copy_strings(v: &Vec<String>) -> (w: Vec<String>)
    ensures
        strings_view(w@) == strings_view(v@),
{
    let mut w: Vec<String> = Vec::new();
    let mut i: usize = 0;
    while i < v.len()
        invariant
            i <= v@.len(),
            w@.len() == i,
            strings_view(w@) == strings_view(v@.take(i as int)),
        decreases v@.len() - i,
    {
        let ghost before = w@;
        let c = v[i].clone();
        w.push(c);
        i += 1;
        assert forall|j: int| 0 <= j < i implies #[trigger] strings_view(w@)[j] == strings_view(
            v@.take(i as int),
        )[j] by {
            if j < i - 1 {
                assert(strings_view(before)[j] == strings_view(v@.take(i - 1))[j]);
            }
        }
        assert(strings_view(w@) =~= strings_view(v@.take(i as int)));
    }
    assert(v@.take(v@.len() as int) =~= v@);
    w
}

/// Every length a head of the body's encoding carries fits 64 bits, as it
/// does for any body held in memory.
pub open spec fn body_sized(b: ContactCardBodyView) -> bool {
    &&& encode_utf8(b.onion).len() < 0x1_0000_0000_0000_0000
    &&& texts_sized(b.mailboxes)
    &&& b.mailboxes.len() < 0x1_0000_0000_0000_0000
    &&& b.identity.len() < 0x1_0000_0000_0000_0000
}

/// Law: the signed bytes of a card body determine the body. Two bodies with
/// the same signed bytes agree on every field, so a signature over those
/// bytes covers the identity, onion, mailboxes, version and expiry alike.
pub proof fn lemma_signed_bytes_determine_body(a: ContactCardBodyView, b: ContactCardBodyView)
    requires
        body_sized(a),
        body_sized(b),
        body_bytes(a) == body_bytes(b),
    ensures
        a == b,
{
    let tail_a11 = int_item(a.expires_at);
    let tail_a10 = text_item("expires_at"@) + tail_a11;
    let tail_a9 = text_items(a.mailboxes) + tail_a10;
    let tail_a8 = head(4, a.mailboxes.len() as u64) + tail_a9;
    let tail_a7 = text_item("mailboxes"@) + tail_a8;
    let tail_a6 = bytes_item(a.identity) + tail_a7;
    let tail_a5 = text_item("identity"@) + tail_a6;
    let tail_a4 = uint_item(a.version) + tail_a5;
    let tail_a3 = text_item("version"@) + tail_a4;
    let tail_a2 = text_item(a.onion) + tail_a3;
    let tail_a1 = text_item("onion"@) + tail_a2;
    let tail_b11 = int_item(b.expires_at);
    let tail_b10 = text_item("expires_at"@) + tail_b11;
    let tail_b9 = text_items(b.mailboxes) + tail_b10;
    let tail_b8 = head(4, b.mailboxes.len() as u64) + tail_b9;
    let tail_b7 = text_item("mailboxes"@) + tail_b8;
    let tail_b6 = bytes_item(b.identity) + tail_b7;
    let tail_b5 = text_item("identity"@) + tail_b6;
    let tail_b4 = uint_item(b.version) + tail_b5;
    let tail_b3 = text_item("version"@) + tail_b4;
    let tail_b2 = text_item(b.onion) + tail_b3;
    let tail_b1 = text_item("onion"@) + tail_b2;
    lemma_reassociate12(
        head(5, 5),
        text_item("onion"@),
        text_item(a.onion),
        text_item("version"@),
        uint_item(a.version),
        text_item("identity"@),
        bytes_item(a.identity),
        text_item("mailboxes"@),
        head(4, a.mailboxes.len() as u64),
        text_items(a.mailboxes),
        text_item("expires_at"@),
        int_item(a.expires_at),
    );
    lemma_reassociate12(
        head(5, 5),
        text_item("onion"@),
        text_item(b.onion),
        text_item("version"@),
        uint_item(b.version),
        text_item("identity"@),
        bytes_item(b.identity),
        text_item("mailboxes"@),
        head(4, b.mailboxes.len() as u64),
        text_items(b.mailboxes),
        text_item("expires_at"@),
        int_item(b.expires_at),
    );
    lemma_cancel_prefix(head(5, 5), tail_a1, tail_b1);
    lemma_cancel_prefix(text_item("onion"@), tail_a2, tail_b2);
    lemma_text_item_unique(a.onion, tail_a3, b.onion, tail_b3);
    lemma_cancel_prefix(text_item("version"@), tail_a4, tail_b4);
    lemma_head_unique(0, a.version, tail_a5, 0, b.version, tail_b5);
    lemma_cancel_prefix(text_item("identity"@), tail_a6, tail_b6);
    lemma_bytes_item_unique(a.identity, tail_a7, b.identity, tail_b7);
    lemma_cancel_prefix(text_item("mailboxes"@), tail_a8, tail_b8);
    lemma_head_unique(4, a.mailboxes.len() as u64, tail_a9, 4, b.mailboxes.len() as u64, tail_b9);
    lemma_text_items_unique(a.mailboxes, tail_a10, b.mailboxes, tail_b10);
    lemma_cancel_prefix(text_item("expires_at"@), tail_a11, tail_b11);
    assert(int_item(a.expires_at) + Seq::<u8>::empty() == int_item(b.expires_at) + Seq::<
        u8,
    >::empty()) by {
        assert(int_item(a.expires_at) + Seq::<u8>::empty() =~= tail_a11);
        assert(int_item(b.expires_at) + Seq::<u8>::empty() =~= tail_b11);
    }
    lemma_int_item_unique(a.expires_at, Seq::<u8>::empty(), b.expires_at, Seq::<u8>::empty());
}

impl ContactCardBody {
    /// A copy of this body.
    pub fn duplicate(&self) -> (b: ContactCardBody)
        ensures
            b@ == self@,
    {
        ContactCardBody {
            identity: self.identity,
            onion: self.onion.clone(),
            mailboxes: copy_strings(&self.mailboxes),
            version: self.version,
            expires_at: self.expires_at,
        }
    }

    /// The bytes this body is signed in.
    pub fn signed_bytes(&self) -> (bytes: Vec<u8>)
        ensures
            bytes@ == body_bytes(self@),
    {
        let mut out: Vec<u8> = Vec::new();
        push_head(&mut out, 5, 5);
        push_text(&mut out, "onion");
        push_text(&mut out, self.onion.as_str());
        push_text(&mut out, "version");
        push_uint(&mut out, self.version);
        push_text(&mut out, "identity");
        push_byte_string(&mut out, &self.identity.0);
        push_text(&mut out, "mailboxes");
        push_head(&mut out, 4, self.mailboxes.len() as u64);
        push_texts(&mut out, &self.mailboxes);
        push_text(&mut out, "expires_at");
        push_int(&mut out, self.expires_at);
        proof {
            assert(out@ =~= body_bytes(self@));
        }
        out
    }
}

/// Why a card could not be made or was refused.
#[derive(Debug, Clone, Copy, PartialEq, Eq)]
pub enum CardError {
    /// `now + ttl_secs` does not fit the expiry field.
    ExpiryOverflow,
    /// The signature does not verify under the card's own identity.
    BadSignature,
    /// The card's expiry lies in the past.
    Expired,
}

/// A contact's published routing record.
#[derive(Debug)]
pub struct ContactCard {
    /// Unsigned fields.
    pub body: ContactCardBody,
    /// Ed25519 signature over the deterministic CBOR of `body`.
    pub signature: Signature,
}

/// Mathematical value of a card: its body and its signature bytes.
pub struct ContactCardView {
    pub body: ContactCardBodyView,
    pub signature: Seq<u8>,
}

impl View for ContactCard {
    type V = ContactCardView;

    open spec fn view(&self) -> ContactCardView {
        ContactCardView { body: self.body@, signature: self.signature.0@ }
    }
}

/// What checking `card` at time `now` gives: the signature is checked first,
/// under the identity the body names, then the expiry (`now > expires_at` is
/// stale); a card passing both yields its identity.
pub open spec fn card_verification(card: &ContactCard, now: i64) -> Result<PublicKey, CardError> {
    if !ed25519_accepts(card.body.identity.0@, body_bytes(card.body@), card.signature.0@) {
        Err(CardError::BadSignature)
    } else if now > card.body.expires_at {
        Err(CardError::Expired)
    } else {
        Ok(card.body.identity)
    }
}

/// The outcome of checking a card whose signature check gave `signature_ok`:
/// a bad signature first, then staleness (`now > expires_at`); a card passing
/// both yields `identity`.
pub fn verification_outcome(signature_ok: bool, identity: PublicKey, expires_at: i64, now: i64) -> (r:
    Result<PublicKey, CardError>)
    ensures
        r == if !signature_ok {
            Err::<PublicKey, CardError>(CardError::BadSignature)
        } else if now > expires_at {
            Err::<PublicKey, CardError>(CardError::Expired)
        } else {
            Ok::<PublicKey, CardError>(identity)
        },
{
    if !signature_ok {
        Err(CardError::BadSignature)
    } else if now > expires_at {
        Err(CardError::Expired)
    } else {
        Ok(identity)
    }
}

impl ContactCard {
    /// A copy of this card.
    pub fn duplicate(&self) -> (c: ContactCard)
        ensures
            c@ == self@,
    {
        ContactCard { body: self.body.duplicate(), signature: self.signature }
    }

    /// Build and sign a new card, valid for `ttl_secs` from `now`.
    ///
    /// The card verifies, giving back the signer's public key, at every time
    /// up to and including its expiry.
    pub fn sign(
        signer: &IdentityKey,
        onion: String,
        mailboxes: Vec<String>,
        version: u64,
        ttl_secs: u64,
        now: i64,
    ) -> (r: Result<Self, CardError>)
        ensures
            r is Ok <==> now + ttl_secs <= i64::MAX,
            r matches Err(e) ==> e == CardError::ExpiryOverflow,
            r matches Ok(card) ==> {
                &&& card.body@ == (ContactCardBodyView {
                    identity: ed25519_public_of(signer.secret_bytes()),
                    onion: onion@,
                    mailboxes: strings_view(mailboxes@),
                    version,
                    expires_at: (now + ttl_secs) as i64,
                })
                &&& card.signature.0@ == ed25519_signature_of(
                    signer.secret_bytes(),
                    body_bytes(card.body@),
                )
                &&& forall|t: i64|
                    t <= card.body.expires_at ==> #[trigger] card_verification(&card, t) == Ok::<
                        PublicKey,
                        CardError,
                    >(card.body.identity)
            },
    {
        let expiry: i128 = now as i128 + ttl_secs as i128;
        if expiry > i64::MAX as i128 {
            return Err(CardError::ExpiryOverflow);
        }
        let identity = signer.public();
        let body = ContactCardBody {
            identity,
            onion,
            mailboxes,
            version,
            expires_at: expiry as i64,
        };
        let bytes = body.signed_bytes();
        let signature = signer.sign(bytes.as_slice());
        Ok(ContactCard { body, signature })
    }

    /// Verify the Ed25519 signature, then the expiry. On success returns the
    /// body's `identity` (the caller typically cross-checks it against a known
    /// contact).
    pub fn verify(&self, now: i64) -> (r: Result<PublicKey, CardError>)
        ensures
            r == card_verification(self, now),
    {
        let bytes = self.body.signed_bytes();
        let signature_ok = verify_signature(&self.body.identity, bytes.as_slice(), &self.signature);
        verification_outcome(signature_ok, self.body.identity, self.body.expires_at, now)
    }

    /// Whether this card may replace a stored card of version `stored`
    /// (`None`: none stored yet): only a strictly higher version does.
    pub fn supersedes(&self, stored: Option<u64>) -> (b: bool)
        ensures
            b == match stored {
                None => true,
                Some(v) => self.body.version > v,
            },
    {
        match stored {
            None => true,
            Some(v) => self.body.version > v,
        }
    }
}

} // verus!
