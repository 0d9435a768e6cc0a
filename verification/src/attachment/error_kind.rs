//! Typed attachment failures.

use vstd::prelude::*;

verus! {

/// Why an attachment operation failed.
#[derive(Debug, Clone, PartialEq, Eq)]
pub enum AttachmentErrorKind {
    /// Total plaintext size exceeds `MAX_ATTACHMENT_BYTES`.
    TooLarge,
    /// A chunk ciphertext's SHA-256 did not match the manifest `ChunkRef`.
    ChunkHashMismatch,
    /// XChaCha20-Poly1305 decryption (tag verification) failed.
    AeadFailed,
    /// Reassembled size or chunk count disagrees with the manifest.
    SizeMismatch,
    /// Manifest is malformed or has an unknown version.
    ManifestInvalid(String),
    /// Metadata could not be stripped from a supported type.
    StripFailed(String),
}

} // verus!
