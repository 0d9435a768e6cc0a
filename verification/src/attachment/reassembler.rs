//! The checks reassembly makes: every chunk's hash before it is decrypted,
//! and the total size once all chunks are written.

use vstd::prelude::*;
use crate::attachment::error_kind::AttachmentErrorKind;
use crate::attachment::manifest::ChunkRef;
use crate::digest::{same_digest, sha256, sha256_of};

verus! {

/// A fetched chunk must hash to what its descriptor says; it is rejected
/// before any decryption otherwise.
pub fn check_chunk(chunk: &ChunkRef, ciphertext: &[u8]) -> (r: Result<(), AttachmentErrorKind>)
    ensures
        r == if sha256_of(ciphertext@) == chunk.ciphertext_hash@ {
            Ok::<(), AttachmentErrorKind>(())
        } else {
            Err::<(), AttachmentErrorKind>(AttachmentErrorKind::ChunkHashMismatch)
        },
{
    let hash = sha256(ciphertext);
    if same_digest(&hash, &chunk.ciphertext_hash) {
        Ok(())
    } else {
        Err(AttachmentErrorKind::ChunkHashMismatch)
    }
}

/// Bytes written so far after another `n` plaintext bytes (saturating).
pub fn add_written(written: u64, n: usize) -> (w: u64)
    ensures
        w == if written + n <= u64::MAX {
            (written + n) as u64
        } else {
            u64::MAX
        },
{
    if n as u64 > u64::MAX - written {
        u64::MAX
    } else {
        written + n as u64
    }
}

/// The reassembled plaintext must be exactly the manifest's total size.
pub fn check_total_size(written: u64, total_size: u64) -> (r: Result<(), AttachmentErrorKind>)
    ensures
        r == if written == total_size {
            Ok::<(), AttachmentErrorKind>(())
        } else {
            Err::<(), AttachmentErrorKind>(AttachmentErrorKind::SizeMismatch)
        },
{
    if written == total_size {
        Ok(())
    } else {
        Err(AttachmentErrorKind::SizeMismatch)
    }
}

} // verus!
