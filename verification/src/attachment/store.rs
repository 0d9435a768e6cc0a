//! Names in the on-disk ciphertext chunk store
//! `<data_dir>/attachments/<hex id>/<index>`. The blobs are AEAD ciphertext
//! (the keys live in the MLS-protected manifest).

use vstd::prelude::*;
use crate::daemon::hex::{hex_encode, to_hex};
use crate::text::{decimal, u64_to_decimal};

verus! {

/// Directory under the data directory that holds all chunk directories.
pub open spec fn attachments_dir_name() -> Seq<char> {
    "attachments"@
}

/// Name of the directory holding one attachment's chunks: the attachment id
/// in lowercase hex.
pub fn chunk_dir_name(attachment_id: &[u8; 16]) -> (s: String)
    ensures
        s@ == hex_encode(attachment_id@),
{
    to_hex(attachment_id)
}

/// File name of chunk `index`: its decimal index.
pub fn chunk_file_name(index: u32) -> (s: String)
    ensures
        s@ == decimal(index as nat),
{
    u64_to_decimal(index as u64)
}

/// Name a chunk is written under before it is renamed into place.
pub fn chunk_part_file_name(index: u32) -> (s: String)
    ensures
        s@ == decimal(index as nat) + ".part"@,
{
    let mut s = u64_to_decimal(index as u64);
    s.append(".part");
    s
}

} // verus!
