use skattr_core::attachment::chunker::{build_manifest, check_attachment_size, chunk_spans};
use skattr_core::attachment::error_kind::AttachmentErrorKind;
use skattr_core::attachment::manifest::{sanitize_filename, AttachmentManifest, ChunkRef};
use skattr_core::attachment::reassembler::{add_written, check_chunk, check_total_size};
use skattr_core::attachment::store::{chunk_dir_name, chunk_file_name, chunk_part_file_name};
use skattr_core::attachment::{CHUNK_SIZE, MANIFEST_VERSION, MAX_ATTACHMENT_BYTES};

fn unhex(s: &str) -> Vec<u8> {
    (0..s.len()).step_by(2).map(|i| u8::from_str_radix(&s[i..i + 2], 16).unwrap()).collect()
}

#[test]
fn sanitize_filename_strips_path_and_control() {
    assert_eq!(sanitize_filename("../../etc/passwd"), "passwd");
    assert_eq!(sanitize_filename("a/b\\c.txt"), "c.txt");
    assert_eq!(sanitize_filename(""), "attachment");
}

#[test]
fn sanitize_filename_strips_bidi_override_and_blank() {
    let spoof = sanitize_filename("invoice\u{202E}cod.exe");
    assert!(!spoof.contains('\u{202E}'), "bidi override must be stripped");
    assert_eq!(spoof, "invoicecod.exe");
    assert_eq!(sanitize_filename("   "), "attachment");
    assert_eq!(sanitize_filename("\u{202A}\u{202C}"), "attachment");
}

#[test]
fn sanitize_filename_trims_dots_and_controls() {
    assert_eq!(sanitize_filename("...hidden.txt.."), "hidden.txt");
    assert_eq!(sanitize_filename("a\u{0007}b\u{009f}c"), "abc");
    assert_eq!(sanitize_filename("dir/"), "attachment");
}

#[test]
fn manifest_rejects_unknown_version() {
    let m = AttachmentManifest {
        manifest_version: 99,
        attachment_id: [0x11; 16],
        filename: "photo.jpg".into(),
        mime: "image/jpeg".into(),
        total_size: 1000,
        chunk_size: 262_144,
        file_key: [0x22; 32],
        chunks: vec![ChunkRef { index: 0, ciphertext_hash: [0x33; 32], len: 1016 }],
    };
    match m.validate() {
        Err(AttachmentErrorKind::ManifestInvalid(msg)) => {
            assert_eq!(msg, "unknown manifest version 99")
        }
        other => panic!("unexpected {other:?}"),
    }
}

#[test]
fn chunker_rejects_oversize() {
    assert_eq!(check_attachment_size(8, 4), Err(AttachmentErrorKind::TooLarge));
    assert_eq!(check_attachment_size(4, 4), Ok(()));
    assert_eq!(check_attachment_size(0, MAX_ATTACHMENT_BYTES), Ok(()));
}

#[test]
fn chunk_spans_cover_the_plaintext() {
    assert!(chunk_spans(0).is_empty());
    assert_eq!(chunk_spans(1), vec![(0, 1)]);
    assert_eq!(chunk_spans(CHUNK_SIZE), vec![(0, CHUNK_SIZE)]);
    assert_eq!(
        chunk_spans(CHUNK_SIZE * 2 + 100),
        vec![(0, CHUNK_SIZE), (CHUNK_SIZE, 2 * CHUNK_SIZE), (2 * CHUNK_SIZE, 2 * CHUNK_SIZE + 100)]
    );
}

#[test]
fn manifest_describes_each_sealed_chunk() {
    let cts = vec![b"abc".to_vec(), Vec::new()];
    let m = build_manifest([7; 16], [8; 32], "../x/f.bin", "application/octet-stream", 42, &cts)
        .unwrap();
    assert_eq!(m.manifest_version, MANIFEST_VERSION);
    assert_eq!(m.attachment_id, [7; 16]);
    assert_eq!(m.file_key, [8; 32]);
    assert_eq!(m.filename, "f.bin");
    assert_eq!(m.mime, "application/octet-stream");
    assert_eq!(m.total_size, 42);
    assert_eq!(m.chunk_size as usize, CHUNK_SIZE);
    assert_eq!(m.chunks.len(), 2);
    assert_eq!(m.chunks[0].index, 0);
    assert_eq!(m.chunks[0].len, 3);
    assert_eq!(
        m.chunks[0].ciphertext_hash.to_vec(),
        unhex("ba7816bf8f01cfea414140de5dae2223b00361a396177a9cb410ff61f20015ad")
    );
    assert_eq!(m.chunks[1].index, 1);
    assert_eq!(m.chunks[1].len, 0);
    assert_eq!(
        m.chunks[1].ciphertext_hash.to_vec(),
        unhex("e3b0c44298fc1c149afbf4c8996fb92427ae41e4649b934ca495991b7852b855")
    );
}

#[test]
fn empty_plaintext_yields_a_manifest_without_chunks() {
    let m = build_manifest([1; 16], [2; 32], "empty.bin", "application/octet-stream", 0, &Vec::new())
        .unwrap();
    assert_eq!(m.total_size, 0);
    assert!(m.chunks.is_empty());
    assert_eq!(m.manifest_version, MANIFEST_VERSION);
}

#[test]
fn flipped_ciphertext_byte_fails_hash_check() {
    let ct = b"ciphertext".to_vec();
    let m = build_manifest([1; 16], [2; 32], "f", "m", 10, &vec![ct.clone()]).unwrap();
    assert_eq!(check_chunk(&m.chunks[0], &ct), Ok(()));
    let mut bad = ct.clone();
    bad[3] ^= 1;
    assert_eq!(check_chunk(&m.chunks[0], &bad), Err(AttachmentErrorKind::ChunkHashMismatch));
}

#[test]
fn reassembled_size_must_match() {
    let w = add_written(add_written(0, 5), 7);
    assert_eq!(w, 12);
    assert_eq!(add_written(u64::MAX - 1, 5), u64::MAX);
    assert_eq!(check_total_size(w, 12), Ok(()));
    assert_eq!(check_total_size(w, 13), Err(AttachmentErrorKind::SizeMismatch));
}

#[test]
fn chunk_store_names() {
    let mut id = [0u8; 16];
    id[0] = 0xab;
    id[15] = 0x01;
    assert_eq!(chunk_dir_name(&id), format!("ab{}01", "00".repeat(14)));
    assert_eq!(chunk_file_name(0), "0");
    assert_eq!(chunk_file_name(4_000_000_000), "4000000000");
    assert_eq!(chunk_part_file_name(12), "12.part");
}
