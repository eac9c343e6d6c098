use aes_gcm::aead::{Aead, Payload};
use aes_gcm::KeyInit;
use freesignal::double_ratchet::SessionHeader;
use freesignal::{
    Header, HeaderEncryptionError, HeaderKey, MessageEncryptionError, MessageKey, PublicIdentity,
    PublicKey, SigningKey, StaticSecret, VerifyingKey,
};

fn hex<const N: usize>(text: &str) -> [u8; N] {
    let mut out = [0u8; N];
    for (i, byte) in out.iter_mut().enumerate() {
        *byte = u8::from_str_radix(&text[2 * i..2 * i + 2], 16).unwrap();
    }
    out
}

#[test]
fn a_payload_decrypts_to_itself() {
    let key = MessageKey([1; 32]);
    let sealed = key.encrypt_payload(b"hello", b"context").unwrap();
    assert_eq!(sealed.len(), 5 + 16);
    assert_eq!(key.decrypt_payload(&sealed, b"context").unwrap(), b"hello");
    assert_eq!(
        key.decrypt_payload(&sealed, b"other").err(),
        Some(MessageEncryptionError())
    );
    assert_eq!(
        MessageKey([2; 32]).decrypt_payload(&sealed, b"context").err(),
        Some(MessageEncryptionError())
    );
    assert_eq!(
        key.decrypt_payload(&sealed[..15], b"context").err(),
        Some(MessageEncryptionError())
    );
}

#[test]
fn a_payload_is_encrypted_under_derived_key_and_nonce() {
    let mut okm = [0u8; 44];
    hkdf::Hkdf::<sha2::Sha256>::new(None, &[1; 32])
        .expand(b"/freesignal/payload/v0.1", &mut okm)
        .unwrap();
    let cipher = aes_gcm::Aes256Gcm::new_from_slice(&okm[..32]).unwrap();
    let expected = cipher
        .encrypt(
            aes_gcm::Nonce::from_slice(&okm[32..]),
            Payload {
                msg: b"hello",
                aad: b"context",
            },
        )
        .unwrap();
    let sealed = MessageKey([1; 32]).encrypt_payload(b"hello", b"context");
    assert_eq!(sealed.unwrap(), expected);
}

fn header() -> SessionHeader {
    SessionHeader {
        count: 3,
        previous: 2,
        public_key: PublicKey([9; 32]),
    }
}

#[test]
fn a_header_decrypts_to_itself() {
    let key = HeaderKey([1; 32]);
    let sealed = key.encrypt_header(&header()).unwrap();
    assert_eq!(sealed.len(), 12 + 40 + 16);
    let opened: SessionHeader = key.decrypt_header(&sealed).unwrap();
    assert_eq!(opened.to_slice(), header().to_slice());
    let again = key.encrypt_header(&header()).unwrap();
    assert_ne!(sealed, again);
    let wrong: Result<SessionHeader, HeaderEncryptionError> =
        HeaderKey([2; 32]).decrypt_header(&sealed);
    assert_eq!(wrong.err(), Some(HeaderEncryptionError()));
}

#[test]
fn a_header_is_encrypted_behind_its_nonce() {
    let key = HeaderKey([1; 32]);
    let nonce = [7u8; 12];
    let cipher = aes_gcm::Aes256Gcm::new_from_slice(&[1; 32]).unwrap();
    let expected = cipher
        .encrypt(aes_gcm::Nonce::from_slice(&nonce), header().to_slice().as_slice())
        .unwrap();
    let sealed = key.encrypt_header_with(&header(), &nonce).unwrap();
    assert_eq!(&sealed[..12], &nonce);
    assert_eq!(&sealed[12..], &expected[..]);
}

#[test]
fn an_authentic_header_of_the_wrong_length_is_refused() {
    let nonce = [7u8; 12];
    let cipher = aes_gcm::Aes256Gcm::new_from_slice(&[1; 32]).unwrap();
    let mut sealed = nonce.to_vec();
    sealed.extend_from_slice(
        &cipher
            .encrypt(aes_gcm::Nonce::from_slice(&nonce), &[0u8; 39][..])
            .unwrap(),
    );
    let opened: Result<SessionHeader, HeaderEncryptionError> =
        HeaderKey([1; 32]).decrypt_header(&sealed);
    assert_eq!(opened.err(), Some(HeaderEncryptionError()));
}

#[test]
fn encryption_errors_have_their_words() {
    assert_eq!(MessageEncryptionError().to_string(), "Failed crypto operation");
    assert_eq!(HeaderEncryptionError().to_string(), "Failed crypto operation");
}

#[test]
fn x25519_secrets_agree() {
    let alice = StaticSecret([4; 32]);
    let bob = StaticSecret([5; 32]);
    let shared = alice.diffie_hellman(&PublicKey::from_secret(&bob));
    assert_eq!(shared.0, bob.diffie_hellman(&PublicKey::from_secret(&alice)).0);
    let secret = x25519_dalek::StaticSecret::from(alice.to_bytes());
    assert_eq!(
        PublicKey::from_secret(&alice).as_bytes(),
        x25519_dalek::PublicKey::from(&secret).as_bytes()
    );
    let public = x25519_dalek::PublicKey::from(&x25519_dalek::StaticSecret::from([5; 32]));
    assert_eq!(&shared.0, secret.diffie_hellman(&public).as_bytes());
}

#[test]
fn a_signature_verifies_under_its_own_key_only() {
    let key = SigningKey([3; 32]);
    let signature = key.sign(b"message");
    let verifying = key.verifying_key();
    assert!(verifying.verify_strict(b"message", &signature).is_ok());
    assert!(verifying.verify_strict(b"massage", &signature).is_err());
    let other = SigningKey([4; 32]).verifying_key();
    assert!(other.verify_strict(b"message", &signature).is_err());
}

#[test]
fn ed25519_known_answer() {
    let key = SigningKey(hex(
        "9d61b19deffd5a60ba844af492ec2cc44449c5697b326919703bac031cae7f60",
    ));
    assert_eq!(
        key.verifying_key().to_bytes(),
        hex("d75a980182b10ab7d54bfed3c964073a0ee172f3daa62325af021a68f707511a")
    );
    assert_eq!(
        key.sign(b"").0[..],
        hex::<64>(
            "e5564300c360ac729086e2cc806e828a84877f1eb8e5d974d873e065224901555fb8821590a33bacc61e39701cf9b46bd25bf5f0595bbe24655141438e7a100b"
        )[..]
    );
}

#[test]
fn a_verifying_key_must_be_a_point() {
    let good = SigningKey([3; 32]).verifying_key().to_bytes();
    assert_eq!(VerifyingKey::from_bytes(&good).unwrap().to_bytes(), good);
    let mut bad = [0u8; 32];
    while ed25519_dalek::VerifyingKey::from_bytes(&bad).is_ok() {
        bad[0] += 1;
    }
    assert!(VerifyingKey::from_bytes(&bad).is_err());
}

#[test]
fn an_identity_has_an_id_and_an_x25519_key() {
    let key = SigningKey([3; 32]);
    let identity = PublicIdentity(key.verifying_key());
    let mut id = [0u8; 32];
    hkdf::Hkdf::<sha2::Sha256>::new(Some(&[0; 32]), &identity.to_bytes())
        .expand(b"freesignal/user_id/v0.1", &mut id)
        .unwrap();
    assert_eq!(identity.get_user_id().0, id);
    assert_eq!(identity.get_key().to_bytes(), identity.to_bytes());
    let secret = freesignal::x3dh::get_identity_x25519_secret(&key);
    assert_eq!(identity.to_public_key(), PublicKey::from_secret(&secret));
}
