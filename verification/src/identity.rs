//! Identity keys: the Ed25519 key pair that names a user, and its signatures.

use vstd::prelude::*;

verus! {

/// Long-term Ed25519 identity public key.
#[derive(Debug, Clone, Copy, Hash)]
pub struct PublicKey(pub [u8; 32]);

impl PartialEq for PublicKey {
    fn eq(&self, other: &Self) -> (r: bool) {
        let mut i: usize = 0;
        while i < 32
            invariant
                i <= 32,
                forall|j: int| 0 <= j < i ==> self.0@[j] == other.0@[j],
            decreases 32 - i,
        {
            if self.0[i] != other.0[i] {
                return false;
            }
            i += 1;
        }
        proof {
            broadcast use vstd::array::axiom_array_ext_equal;

            assert(self.0 =~= other.0);
        }
        true
    }
}

impl vstd::std_specs::cmp::PartialEqSpecImpl for PublicKey {
    open spec fn obeys_eq_spec() -> bool {
        true
    }

    open spec fn eq_spec(&self, other: &Self) -> bool {
        *self == *other
    }
}

impl Eq for PublicKey {
}

/// An Ed25519 signature (64 bytes).
#[derive(Debug, Clone, Copy)]
pub struct Signature(pub [u8; 64]);

/// What Ed25519 derives as the public key of a 32-byte secret key
/// (`ed25519_dalek::SigningKey::from_bytes(..).verifying_key().to_bytes()`).
pub uninterp spec fn ed25519_public_of(secret: Seq<u8>) -> Seq<u8>;

/// The Ed25519 signature that a 32-byte secret key makes over a message
/// (`ed25519_dalek::Signer::sign`). Ed25519 signing is deterministic.
pub uninterp spec fn ed25519_signature_of(secret: Seq<u8>, message: Seq<u8>) -> Seq<u8>;

/// Whether `ed25519_dalek` accepts `signature` over `message` under the
/// encoded public key `public` (`VerifyingKey::from_bytes` then `Verifier::verify`).
pub uninterp spec fn ed25519_accepts(public: Seq<u8>, message: Seq<u8>, signature: Seq<u8>) -> bool;

/// The public key of `secret` (`SigningKey::from_bytes(secret).verifying_key().to_bytes()`).
///
/// Trusted: the result is named `ed25519_public_of(secret)`; nothing more is claimed.
#[verifier::external_body]
fn ed25519_public(secret: &[u8; 32]) -> (public: [u8; 32])
    ensures
        public@ == ed25519_public_of(secret@),
{
    ed25519_dalek::SigningKey::from_bytes(secret).verifying_key().to_bytes()
}

/// Signs `message` with `secret` (`ed25519_dalek::Signer::sign` on
/// `SigningKey::from_bytes(secret)`).
///
/// Trusted: the result is named `ed25519_signature_of(secret, message)`, and,
/// as Ed25519 promises of every signature made with a key, it is accepted under
/// that key's own public key.
#[verifier::external_body]
fn ed25519_sign(secret: &[u8; 32], message: &[u8]) -> (signature: [u8; 64])
    ensures
        signature@ == ed25519_signature_of(secret@, message@),
        ed25519_accepts(ed25519_public_of(secret@), message@, signature@),
{
    let key = ed25519_dalek::SigningKey::from_bytes(secret);
    ed25519_dalek::Signer::sign(&key, message).to_bytes()
}

/// Checks `signature` over `message` under the encoded public key `public`
/// (`VerifyingKey::from_bytes`, then `Verifier::verify`; a key that does not
/// decode is a rejection).
///
/// Trusted: the answer is named `ed25519_accepts(public, message, signature)`.
#[verifier::external_body]
fn ed25519_verify(public: &[u8; 32], message: &[u8], signature: &[u8; 64]) -> (ok: bool)
    ensures
        ok == ed25519_accepts(public@, message@, signature@),
{
    match ed25519_dalek::VerifyingKey::from_bytes(public) {
        Ok(key) => {
            let sig = ed25519_dalek::Signature::from_bytes(signature);
            ed25519_dalek::Verifier::verify(&key, message, &sig).is_ok()
        },
        Err(_) => false,
    }
}

/// A user's long-term Ed25519 signing key.
pub struct IdentityKey {
    secret: [u8; 32],
}

impl IdentityKey {
    /// The 32 secret bytes this key was made from.
    pub closed spec fn secret_bytes(&self) -> Seq<u8> {
        self.secret@
    }

    /// The key whose 32-byte secret is `secret`.
    pub fn from_secret_bytes(secret: [u8; 32]) -> (key: IdentityKey)
        ensures
            key.secret_bytes() == secret@,
    {
        IdentityKey { secret }
    }

    /// This key's public half.
    pub fn public(&self) -> (pk: PublicKey)
        ensures
            pk.0@ == ed25519_public_of(self.secret_bytes()),
    {
        PublicKey(ed25519_public(&self.secret))
    }

    /// Signs `message`; the signature is accepted under `self.public()`.
    pub fn sign(&self, message: &[u8]) -> (sig: Signature)
        ensures
            sig.0@ == ed25519_signature_of(self.secret_bytes(), message@),
            ed25519_accepts(ed25519_public_of(self.secret_bytes()), message@, sig.0@),
    {
        Signature(ed25519_sign(&self.secret, message))
    }
}

/// Whether `sig` is a valid Ed25519 signature by `public` over `message`.
pub fn verify_signature(public: &PublicKey, message: &[u8], sig: &Signature) -> (ok: bool)
    ensures
        ok == ed25519_accepts(public.0@, message@, sig.0@),
{
    ed25519_verify(&public.0, message, &sig.0)
}

} // verus!
