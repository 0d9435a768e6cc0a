use skattr_core::contact::card::CardError;
use skattr_core::contact::self_card::{build_next_self_card, SelfCardError, DEFAULT_TTL_SECS};
use skattr_core::contact::{ContactCard, ContactErrorKind};
use skattr_core::identity::{verify_signature, IdentityKey, PublicKey, Signature};

fn unhex(s: &str) -> Vec<u8> {
    (0..s.len()).step_by(2).map(|i| u8::from_str_radix(&s[i..i + 2], 16).unwrap()).collect()
}

fn rfc8032_key() -> IdentityKey {
    let secret: [u8; 32] = unhex("9d61b19deffd5a60ba844af492ec2cc44449c5697b326919703bac031cae7f60")
        .try_into()
        .unwrap();
    IdentityKey::from_secret_bytes(secret)
}

#[test]
fn identity_key_matches_rfc8032_vector() {
    let key = rfc8032_key();
    assert_eq!(
        key.public().0.to_vec(),
        unhex("d75a980182b10ab7d54bfed3c964073a0ee172f3daa62325af021a68f707511a")
    );
    let sig = key.sign(b"");
    assert_eq!(
        sig.0.to_vec(),
        unhex(
            "e5564300c360ac729086e2cc806e828a84877f1eb8e5d974d873e065224901555fb8821590a33bacc61e39701cf9b46bd25bf5f0595bbe24655141438e7a100b"
        )
    );
    assert!(verify_signature(&key.public(), b"", &sig));
    assert!(!verify_signature(&key.public(), b"x", &sig));
    assert!(!verify_signature(&PublicKey([1; 32]), b"", &sig));
}

#[test]
fn first_self_card_starts_at_version_1() {
    let signer = IdentityKey::from_secret_bytes([5; 32]);
    let card = build_next_self_card(&signer, "aaaa.onion".into(), vec![], 1, 3600, 100).unwrap();
    assert_eq!(card.body.version, 1);
    assert_eq!(card.body.onion, "aaaa.onion");
    assert_eq!(card.body.expires_at, 100 + 3600);
}

#[test]
fn self_card_carries_the_store_counter_as_its_version() {
    let signer = IdentityKey::from_secret_bytes([5; 32]);
    let mut counter: i64 = 0;
    let mut next = |onion: &str, now: i64| {
        counter += 1;
        build_next_self_card(&signer, onion.into(), vec![], counter, 3600, now).unwrap().body.version
    };
    let v1 = next("a.onion", 100);
    let v2 = next("b.onion", 200);
    let v3 = next("c.onion", 300);
    assert_eq!((v1, v2, v3), (1, 2, 3));
}

#[test]
fn mailboxes_field_round_trips_to_signed_card() {
    let signer = IdentityKey::from_secret_bytes([9; 32]);
    let card = build_next_self_card(
        &signer,
        "self.onion".into(),
        vec!["mb1.onion".into(), "mb2.onion".into()],
        1,
        DEFAULT_TTL_SECS,
        100,
    )
    .unwrap();
    // Signature verifies + content matches.
    let pk = card.verify(100).unwrap();
    assert_eq!(pk, signer.public());
    assert_eq!(card.body.mailboxes, vec!["mb1.onion".to_string(), "mb2.onion".to_string()]);
}

#[test]
fn negative_store_version_is_refused() {
    let signer = IdentityKey::from_secret_bytes([9; 32]);
    let r = build_next_self_card(&signer, "x.onion".into(), vec![], -1, 10, 0);
    assert_eq!(r.unwrap_err(), SelfCardError::VersionOverflow);
}

#[test]
fn card_verifies_until_expiry_then_reports_expired() {
    let signer = IdentityKey::from_secret_bytes([3; 32]);
    let card = ContactCard::sign(&signer, "o.onion".into(), vec![], 4, 60, 1_000).unwrap();
    assert_eq!(card.verify(1_000).unwrap(), signer.public());
    assert_eq!(card.verify(1_060).unwrap(), signer.public());
    assert_eq!(card.verify(1_061).unwrap_err(), CardError::Expired);
}

#[test]
fn tampered_card_fails_signature_check() {
    let signer = IdentityKey::from_secret_bytes([3; 32]);
    let mut card = ContactCard::sign(&signer, "o.onion".into(), vec![], 4, 60, 1_000).unwrap();
    card.body.onion = "evil.onion".into();
    assert_eq!(card.verify(1_000).unwrap_err(), CardError::BadSignature);

    let mut card = ContactCard::sign(&signer, "o.onion".into(), vec![], 4, 60, 1_000).unwrap();
    card.body.version = 5;
    assert_eq!(card.verify(1_000).unwrap_err(), CardError::BadSignature);

    let mut card = ContactCard::sign(&signer, "o.onion".into(), vec![], 4, 60, 1_000).unwrap();
    card.signature = Signature([0; 64]);
    assert_eq!(card.verify(1_000).unwrap_err(), CardError::BadSignature);
}

#[test]
fn card_expiry_overflow_is_refused() {
    let signer = IdentityKey::from_secret_bytes([3; 32]);
    let r = ContactCard::sign(&signer, "o".into(), vec![], 1, u64::MAX, 0);
    assert_eq!(r.unwrap_err(), CardError::ExpiryOverflow);
    let r = ContactCard::sign(&signer, "o".into(), vec![], 1, 1, i64::MAX);
    assert_eq!(r.unwrap_err(), CardError::ExpiryOverflow);
    let ok = ContactCard::sign(&signer, "o".into(), vec![], 1, 0, i64::MAX).unwrap();
    assert_eq!(ok.body.expires_at, i64::MAX);
}

#[test]
fn signed_bytes_are_deterministic_cbor() {
    let signer = IdentityKey::from_secret_bytes([3; 32]);
    let mut card = ContactCard::sign(&signer, "ab".into(), vec!["m".into()], 1, 0, 0).unwrap();
    card.body.identity = PublicKey([1; 32]);
    card.body.expires_at = -1;
    let mut expected = vec![0xa5];
    expected.push(0x65);
    expected.extend_from_slice(b"onion");
    expected.extend_from_slice(&[0x62, b'a', b'b']);
    expected.push(0x67);
    expected.extend_from_slice(b"version");
    expected.push(0x01);
    expected.push(0x68);
    expected.extend_from_slice(b"identity");
    expected.extend_from_slice(&[0x58, 0x20]);
    expected.extend_from_slice(&[1; 32]);
    expected.push(0x69);
    expected.extend_from_slice(b"mailboxes");
    expected.extend_from_slice(&[0x81, 0x61, b'm']);
    expected.push(0x6a);
    expected.extend_from_slice(b"expires_at");
    expected.push(0x20);
    assert_eq!(card.body.signed_bytes(), expected);

    card.body.version = 500;
    card.body.expires_at = 3700;
    let bytes = card.body.signed_bytes();
    let v = bytes.iter().position(|&b| b == 0x19).unwrap();
    assert_eq!(&bytes[v..v + 3], &[0x19, 0x01, 0xf4]);
    assert_eq!(&bytes[bytes.len() - 3..], &[0x19, 0x0e, 0x74]);
}

#[test]
fn newer_card_supersedes_only_a_lower_version() {
    let signer = IdentityKey::from_secret_bytes([3; 32]);
    let card = ContactCard::sign(&signer, "o".into(), vec![], 7, 10, 0).unwrap();
    assert!(card.supersedes(None));
    assert!(card.supersedes(Some(6)));
    assert!(!card.supersedes(Some(7)));
    assert!(!card.supersedes(Some(8)));
}

#[test]
fn contact_error_messages() {
    assert_eq!(ContactErrorKind::NotFound.message(), "contact not found");
    assert_eq!(
        ContactErrorKind::Ambiguous { matches: 3 }.message(),
        "contact ambiguous (3 matches)"
    );
    assert_eq!(ContactErrorKind::Other("x".into()).message(), "contact: x");
}
