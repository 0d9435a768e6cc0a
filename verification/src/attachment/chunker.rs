//! The chunker's layout rules: the size gate, the spans a plaintext is cut
//! into, and the manifest that describes the sealed chunks.

use vstd::prelude::*;
use crate::attachment::error_kind::AttachmentErrorKind;
use crate::attachment::manifest::{sanitize_filename, sanitized, AttachmentManifest, ChunkRef};
use crate::attachment::{CHUNK_SIZE, MANIFEST_VERSION};
use crate::digest::{sha256, sha256_of};

verus! {

/// Refuse a plaintext larger than `max_bytes` before any work is done.
pub fn check_attachment_size(len: usize, max_bytes: u64) -> (r: Result<(), AttachmentErrorKind>)
    ensures
        r == if len > max_bytes {
            Err::<(), AttachmentErrorKind>(AttachmentErrorKind::TooLarge)
        } else {
            Ok::<(), AttachmentErrorKind>(())
        },
{
    if len as u64 > max_bytes {
        Err(AttachmentErrorKind::TooLarge)
    } else {
        Ok(())
    }
}

/// Number of chunks a plaintext of `len` bytes is cut into (the last one may
/// be short; an empty plaintext has none).
pub open spec fn chunk_count(len: nat) -> nat {
    if len == 0 {
        0
    } else {
        ((len - 1) as nat / CHUNK_SIZE as nat) + 1
    }
}

/// The byte range `[start, end)` of chunk `i` of a plaintext of `len` bytes.
pub open spec fn chunk_span(len: nat, i: nat) -> (int, int) {
    let start = i * CHUNK_SIZE;
    let end = if start + CHUNK_SIZE <= len {
        start + CHUNK_SIZE
    } else {
        len as int
    };
    (start, end)
}

/// Law: the chunk spans tile the plaintext. The first starts at 0, each
/// starts where the one before it ended, the last ends at `len`, and every
/// span is non-empty and `CHUNK_SIZE` long except possibly the last.
pub proof fn lemma_chunk_spans_tile(len: nat)
    ensures
        chunk_count(len) > 0 ==> chunk_span(len, 0).0 == 0,
        chunk_count(len) > 0 ==> chunk_span(len, (chunk_count(len) - 1) as nat).1 == len,
        forall|i: nat|
            i + 1 < chunk_count(len) ==> #[trigger] chunk_span(len, i).1 == chunk_span(
                len,
                i + 1,
            ).0,
        forall|i: nat|
            i < chunk_count(len) ==> #[trigger] chunk_span(len, i).0 < chunk_span(len, i).1,
        forall|i: nat|
            i + 1 < chunk_count(len) ==> #[trigger] chunk_span(len, i).1 - chunk_span(len, i).0
                == CHUNK_SIZE,
{
    let cs = CHUNK_SIZE as int;
    if len > 0 {
        let n = chunk_count(len);
        let q = (len - 1) as nat / CHUNK_SIZE as nat;
        assert(q * cs <= len - 1 < (q + 1) * cs) by (nonlinear_arith)
            requires
                q == (len - 1) as nat / CHUNK_SIZE as nat,
                cs == 49152,
                len > 0,
        ;
        assert(chunk_span(len, (n - 1) as nat).1 == len) by {
            assert((n - 1) as nat == q);
        }
        assert forall|i: nat| i < n implies #[trigger] chunk_span(len, i).0 < chunk_span(len, i).1 by {
            assert(i * cs < len) by (nonlinear_arith)
                requires
                    i <= q,
                    q * cs <= len - 1,
                    cs > 0,
            ;
        }
        assert forall|i: nat| i + 1 < n implies #[trigger] chunk_span(len, i).1 == chunk_span(
            len,
            i + 1,
        ).0 && chunk_span(len, i).1 - chunk_span(len, i).0 == CHUNK_SIZE by {
            assert((i + 1) * cs <= len) by (nonlinear_arith)
                requires
                    i + 1 <= q,
                    q * cs <= len - 1,
                    cs > 0,
            ;
            assert(i * cs + cs == (i + 1) * cs) by (nonlinear_arith);
        }
    }
}

/// The spans `slice::chunks(CHUNK_SIZE)` cuts a plaintext of `len` bytes into,
/// in order: consecutive, each `CHUNK_SIZE` long but the last, which holds
/// the remainder.
pub fn chunk_spans(len: usize) -> (spans: Vec<(usize, usize)>)
    ensures
        spans@.len() == chunk_count(len as nat),
        forall|i: int|
            0 <= i < spans@.len() ==> (#[trigger] spans@[i]).0 == chunk_span(len as nat, i as nat).0
                && spans@[i].1 == chunk_span(len as nat, i as nat).1,
{
    let mut spans: Vec<(usize, usize)> = Vec::new();
    let mut start: usize = 0;
    while start < len
        invariant
            start <= len,
            start < len ==> start == spans@.len() * CHUNK_SIZE,
            start < len ==> spans@.len() < chunk_count(len as nat),
            start >= len ==> spans@.len() == chunk_count(len as nat),
            forall|i: int|
                0 <= i < spans@.len() ==> (#[trigger] spans@[i]).0 == chunk_span(
                    len as nat,
                    i as nat,
                ).0 && spans@[i].1 == chunk_span(len as nat, i as nat).1,
        decreases len - start,
    {
        let end = if len - start >= CHUNK_SIZE {
            start + CHUNK_SIZE
        } else {
            len
        };
        proof {
            let k = spans@.len();
            assert(chunk_span(len as nat, k).0 == start);
            assert((k + 1) * CHUNK_SIZE == start + CHUNK_SIZE) by (nonlinear_arith)
                requires
                    start == k * CHUNK_SIZE,
            ;
        }
        let ghost prev = start;
        spans.push((start, end));
        start = end;
        proof {
            let k = spans@.len();
            if start < len {
                assert(start == prev + CHUNK_SIZE);
                assert(start == k * CHUNK_SIZE) by (nonlinear_arith)
                    requires
                        prev == (k - 1) * CHUNK_SIZE,
                        start == prev + CHUNK_SIZE,
                        k >= 1,
                ;
                assert(((len - 1) as nat / CHUNK_SIZE as nat) >= k) by (nonlinear_arith)
                    requires
                        k * CHUNK_SIZE < len,
                        CHUNK_SIZE == 49152,
                ;
            } else {
                assert(len > 0);
                assert(((len - 1) as nat / CHUNK_SIZE as nat) + 1 == k) by (nonlinear_arith)
                    requires
                        prev == (k - 1) * CHUNK_SIZE,
                        prev < len,
                        len <= prev + CHUNK_SIZE,
                        k >= 1,
                        CHUNK_SIZE == 49152,
                ;
            }
        }
    }
    spans
}

/// The descriptor of sealed chunk `i`: its index, the SHA-256 of its bytes
/// and its length.
pub open spec fn chunk_ref_spec(i: int, ct: Seq<u8>) -> (u32, Seq<u8>, int) {
    (i as u32, sha256_of(ct), ct.len() as int)
}

/// The manifest describing a plaintext of `total_size` bytes sealed into
/// `ciphertexts` (in chunk order) under `file_key`. Fails when a sealed chunk
/// is longer than a `u32` can say, or there are more chunks than a `u32` counts.
pub fn build_manifest(
    attachment_id: [u8; 16],
    file_key: [u8; 32],
    filename: &str,
    mime: &str,
    total_size: u64,
    ciphertexts: &Vec<Vec<u8>>,
) -> (r: Result<AttachmentManifest, AttachmentErrorKind>)
    ensures
        ciphertexts@.len() > u32::MAX + 1 ==> r == Err::<AttachmentManifest, AttachmentErrorKind>(
            AttachmentErrorKind::TooLarge,
        ),
        ciphertexts@.len() <= u32::MAX + 1 && (exists|i: int|
            0 <= i < ciphertexts@.len() && #[trigger] ciphertexts@[i]@.len() > u32::MAX)
            ==> r == Err::<AttachmentManifest, AttachmentErrorKind>(
            AttachmentErrorKind::SizeMismatch,
        ),
        ciphertexts@.len() <= u32::MAX + 1 && (forall|i: int|
            0 <= i < ciphertexts@.len() ==> #[trigger] ciphertexts@[i]@.len() <= u32::MAX)
            ==> r is Ok,
        r matches Ok(m) ==> {
            &&& m.manifest_version == MANIFEST_VERSION
            &&& m.attachment_id == attachment_id
            &&& m.filename@ == sanitized(filename@)
            &&& m.mime@ == mime@
            &&& m.total_size == total_size
            &&& m.chunk_size == CHUNK_SIZE
            &&& m.file_key == file_key
            &&& m.chunks@.len() == ciphertexts@.len()
            &&& forall|i: int|
                0 <= i < m.chunks@.len() ==> {
                    &&& (#[trigger] m.chunks@[i]).index == i
                    &&& m.chunks@[i].ciphertext_hash@ == sha256_of(ciphertexts@[i]@)
                    &&& m.chunks@[i].len == ciphertexts@[i]@.len()
                }
        },
{
    if ciphertexts.len() as u64 > u32::MAX as u64 + 1 {
        return Err(AttachmentErrorKind::TooLarge);
    }
    let mut refs: Vec<ChunkRef> = Vec::new();
    let mut i: usize = 0;
    while i < ciphertexts.len()
        invariant
            i <= ciphertexts@.len() <= u32::MAX + 1,
            refs@.len() == i,
            forall|j: int| 0 <= j < i ==> #[trigger] ciphertexts@[j]@.len() <= u32::MAX,
            forall|j: int|
                0 <= j < i ==> {
                    &&& (#[trigger] refs@[j]).index == j
                    &&& refs@[j].ciphertext_hash@ == sha256_of(ciphertexts@[j]@)
                    &&& refs@[j].len == ciphertexts@[j]@.len()
                },
        decreases ciphertexts@.len() - i,
    {
        let ct = &ciphertexts[i];
        if ct.len() as u64 > u32::MAX as u64 {
            return Err(AttachmentErrorKind::SizeMismatch);
        }
        let hash = sha256(ct.as_slice());
        refs.push(ChunkRef { index: i as u32, ciphertext_hash: hash, len: ct.len() as u32 });
        i += 1;
    }
    Ok(
        AttachmentManifest {
            manifest_version: MANIFEST_VERSION,
            attachment_id,
            filename: sanitize_filename(filename),
            mime: mime.to_string(),
            total_size,
            chunk_size: CHUNK_SIZE as u32,
            file_key,
            chunks: refs,
        },
    )
}

} // verus!
