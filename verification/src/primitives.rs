//! The cryptographic primitives that the protocol is built on, and the other
//! calls into outside crates.
//!
//! Nothing in this module is proved. Each function hands its arguments to one
//! function of an outside crate, and its contract states what is believed of
//! that function. The names without a body stand for results that take pages
//! to describe but depend on the arguments alone.
use crate::bytes::zeros;
use aes_gcm::aead::{Aead, AeadCore, OsRng, Payload};
use aes_gcm::{Aes256Gcm, KeyInit, Nonce};
use base64::engine::general_purpose::STANDARD;
use base64::Engine;
use ed25519_dalek::Signer;
use hkdf::Hkdf;
use hmac::{Hmac, Mac};
use rand_core::RngCore;
use sha2::{Digest, Sha256, Sha512};
use subtle::ConstantTimeEq;
use vstd::prelude::*;
use zeroize::Zeroize;

verus! {

/// The error of HKDF when too much output is asked for.
#[verifier::external_type_specification]
#[verifier::external_body]
pub struct ExInvalidLength(hkdf::InvalidLength);

/// The error of AES-GCM, which tells nothing about its cause.
#[verifier::external_type_specification]
#[verifier::external_body]
pub struct ExAeadError(aes_gcm::Error);

/// The error of Ed25519: a malformed key or a signature that does not verify.
#[verifier::external_type_specification]
#[verifier::external_body]
pub struct ExSignatureError(ed25519_dalek::SignatureError);

/// The error of the Base64 decoder.
#[verifier::external_type_specification]
#[verifier::external_body]
pub struct ExDecodeError(base64::DecodeError);

/// The SHA-256 digest of `data`.
pub uninterp spec fn sha256(data: Seq<u8>) -> Seq<u8>;

/// The SHA-512 digest of `data`.
pub uninterp spec fn sha512(data: Seq<u8>) -> Seq<u8>;

/// The HMAC-SHA256 tag of `data` under `key`.
pub uninterp spec fn hmac_sha256(key: Seq<u8>, data: Seq<u8>) -> Seq<u8>;

/// The first `len` bytes of HKDF-SHA256 output.
pub uninterp spec fn hkdf_sha256(
    salt: Option<Seq<u8>>,
    ikm: Seq<u8>,
    info: Seq<u8>,
    len: nat,
) -> Seq<u8>;

/// The AES-256-GCM ciphertext of `plaintext`, with its tag behind it.
pub uninterp spec fn aes256gcm_seal(
    key: Seq<u8>,
    nonce: Seq<u8>,
    plaintext: Seq<u8>,
    aad: Seq<u8>,
) -> Seq<u8>;

/// What AES-256-GCM makes of a ciphertext with its tag behind it: the
/// plaintext, or nothing where the tag does not fit.
pub uninterp spec fn aes256gcm_open(
    key: Seq<u8>,
    nonce: Seq<u8>,
    ciphertext: Seq<u8>,
    aad: Seq<u8>,
) -> Option<Seq<u8>>;

/// The X25519 public key of a secret.
pub uninterp spec fn x25519_public(secret: Seq<u8>) -> Seq<u8>;

/// The X25519 shared secret of a secret and another's public key.
pub uninterp spec fn x25519_shared(secret: Seq<u8>, public: Seq<u8>) -> Seq<u8>;

/// The Ed25519 verifying key of a signing key.
pub uninterp spec fn ed25519_public(secret: Seq<u8>) -> Seq<u8>;

/// Whether the bytes encode a point, and so can be an Ed25519 verifying key.
pub uninterp spec fn ed25519_is_key(bytes: Seq<u8>) -> bool;

/// The X25519 public key that an Ed25519 verifying key maps to.
pub uninterp spec fn ed25519_montgomery(key: Seq<u8>) -> Seq<u8>;

/// The Ed25519 signature of `message` under a signing key.
pub uninterp spec fn ed25519_signature(secret: Seq<u8>, message: Seq<u8>) -> Seq<u8>;

/// Whether strict Ed25519 verification accepts the signature.
pub uninterp spec fn ed25519_accepts(
    key: Seq<u8>,
    message: Seq<u8>,
    signature: Seq<u8>,
) -> bool;

/// What standard, padded Base64 text decodes to, or nothing where it is
/// malformed.
pub uninterp spec fn base64_decoded(text: Seq<char>) -> Option<Seq<u8>>;

/// The longest plaintext, and the longest associated data, that AES-GCM takes.
pub const AEAD_LIMIT: u64 = 0x10_0000_0000;

/// The secret half of the X25519 key pair that belongs to an Ed25519 signing
/// key: the first half of the SHA-512 digest of the signing key.
pub open spec fn identity_secret(signing_key: Seq<u8>) -> Seq<u8> {
    sha512(signing_key).subrange(0, 32)
}

/// The Ed25519 encoding of the neutral element.
pub open spec fn neutral_point() -> Seq<u8> {
    seq![1u8] + zeros(31)
}

/// Calls `sha2::Sha256::digest`.
#[verifier::external_body]
pub(crate) fn sha256_digest(data: &[u8]) -> (r: [u8; 32])
    ensures
        r@ == sha256(data@),
{
    Sha256::digest(data).into()
}

/// Calls `sha2::Sha512::digest`.
#[verifier::external_body]
pub(crate) fn sha512_digest(data: &[u8]) -> (r: [u8; 64])
    ensures
        r@ == sha512(data@),
{
    Sha512::digest(data).into()
}

/// Calls `hmac::Hmac::<Sha256>`: keyed with `key`, fed with `data` and
/// finalized. HMAC takes keys of every length.
#[verifier::external_body]
pub(crate) fn hmac_sha256_tag(key: &[u8], data: &[u8]) -> (r: [u8; 32])
    ensures
        r@ == hmac_sha256(key@, data@),
{
    let mut mac = <Hmac::<Sha256> as Mac>::new_from_slice(key).expect(
        "HMAC accepts keys of any size",
    );
    mac.update(data);
    mac.finalize().into_bytes().into()
}

/// Calls `hkdf::Hkdf::<Sha256>::new` and `expand`. The only failure is an
/// output of more than 255 blocks of 32 bytes.
#[verifier::external_body]
pub(crate) fn hkdf_sha256_derive<const N: usize>(
    salt: Option<&[u8]>,
    ikm: &[u8],
    info: &[u8],
) -> (r: Result<[u8; N], hkdf::InvalidLength>)
    ensures
        r is Ok <==> N <= 255 * 32,
        r matches Ok(okm) ==> okm@ == hkdf_sha256(
            match salt {
                Some(s) => Some(s@),
                None => None,
            },
            ikm@,
            info@,
            N as nat,
        ),
{
    let mut okm = [0u8;N];
    Hkdf::<Sha256>::new(salt, ikm).expand(info, &mut okm).map(|()| okm)
}

/// Calls `aes_gcm::Aes256Gcm::encrypt`. It fails on a plaintext or on
/// associated data over the limit, and on nothing else. The ciphertext is as
/// long as the plaintext and the tag of 16 bytes, and decrypting it with the
/// same key, nonce and associated data gives the plaintext back.
#[verifier::external_body]
pub(crate) fn aes256gcm_encrypt(
    key: &[u8; 32],
    nonce: &[u8; 12],
    plaintext: &[u8],
    aad: &[u8],
) -> (r: Result<Vec<u8>, aes_gcm::Error>)
    ensures
        r is Ok <==> (plaintext@.len() <= AEAD_LIMIT && aad@.len() <= AEAD_LIMIT),
        r matches Ok(c) ==> c@ == aes256gcm_seal(key@, nonce@, plaintext@, aad@),
        r matches Ok(c) ==> c@.len() == plaintext@.len() + 16,
        r matches Ok(c) ==> aes256gcm_open(key@, nonce@, c@, aad@) == Some(plaintext@),
{
    let cipher = Aes256Gcm::new(key.into());
    cipher.encrypt(Nonce::from_slice(nonce), Payload { msg: plaintext, aad })
}

/// Calls `aes_gcm::Aes256Gcm::decrypt`. The plaintext is 16 bytes shorter
/// than the ciphertext, which holds the tag. That an altered ciphertext, other
/// associated data or another key fails is left unsaid: it is hard to find any
/// that pass, but there are some.
#[verifier::external_body]
pub(crate) fn aes256gcm_decrypt(
    key: &[u8; 32],
    nonce: &[u8; 12],
    ciphertext: &[u8],
    aad: &[u8],
) -> (r: Result<Vec<u8>, aes_gcm::Error>)
    ensures
        match r {
            Ok(p) => aes256gcm_open(key@, nonce@, ciphertext@, aad@) == Some(p@) && p@.len() + 16
                == ciphertext@.len(),
            Err(_) => aes256gcm_open(key@, nonce@, ciphertext@, aad@) is None,
        },
{
    let cipher = Aes256Gcm::new(key.into());
    cipher.decrypt(Nonce::from_slice(nonce), Payload { msg: ciphertext, aad })
}

/// Calls `aes_gcm::Aes256Gcm::generate_nonce` on the random numbers of the
/// operating system. Which bytes come is left open. The call panics where the
/// system has no random numbers to give.
#[verifier::external_body]
pub(crate) fn random_nonce() -> (r: [u8; 12]) {
    Aes256Gcm::generate_nonce(&mut OsRng).into()
}

/// Calls `x25519_dalek::StaticSecret::random_from_rng` on the random numbers
/// of the operating system. Which bytes come is left open. The call panics
/// where the system has no random numbers to give.
#[verifier::external_body]
pub(crate) fn random_secret() -> (r: [u8; 32]) {
    x25519_dalek::StaticSecret::random_from_rng(rand_core::OsRng).to_bytes()
}

/// Calls `rand_core::OsRng::next_u32`. Which number comes is left open. The
/// call panics where the system has no random numbers to give.
#[verifier::external_body]
pub(crate) fn random_u32() -> (r: u32) {
    rand_core::OsRng.next_u32()
}

/// Calls `rand_core::OsRng::fill_bytes`. Which bytes come is left open. The
/// call panics where the system has no random numbers to give.
#[verifier::external_body]
pub(crate) fn random_id() -> (r: [u8; 16]) {
    let mut id = [0u8;16];
    rand_core::OsRng.fill_bytes(&mut id);
    id
}

/// Calls the conversion of an `x25519_dalek::StaticSecret` into its
/// `PublicKey`. Whoever combines their own secret with this public key comes
/// to the shared secret that the holder of `secret` comes to.
#[verifier::external_body]
pub(crate) fn x25519_public_key(secret: &[u8; 32]) -> (r: [u8; 32])
    ensures
        r@ == x25519_public(secret@),
        forall|other: Seq<u8>|
            other.len() == 32 ==> #[trigger] x25519_shared(other, r@) == x25519_shared(
                secret@,
                x25519_public(other),
            ),
{
    x25519_dalek::PublicKey::from(&x25519_dalek::StaticSecret::from(*secret)).to_bytes()
}

/// Calls `x25519_dalek::StaticSecret::diffie_hellman`.
#[verifier::external_body]
pub(crate) fn x25519_diffie_hellman(secret: &[u8; 32], public: &[u8; 32]) -> (r: [u8; 32])
    ensures
        r@ == x25519_shared(secret@, public@),
{
    let secret = x25519_dalek::StaticSecret::from(*secret);
    secret.diffie_hellman(&x25519_dalek::PublicKey::from(*public)).to_bytes()
}

/// Calls `ed25519_dalek::SigningKey::verifying_key`. The verifying key is a
/// well-formed one, and the X25519 public key that it maps to belongs to the
/// first half of the SHA-512 digest of the signing key.
#[verifier::external_body]
pub(crate) fn ed25519_verifying_key(secret: &[u8; 32]) -> (r: [u8; 32])
    ensures
        r@ == ed25519_public(secret@),
        ed25519_is_key(r@),
        ed25519_montgomery(r@) == x25519_public(identity_secret(secret@)),
{
    ed25519_dalek::SigningKey::from_bytes(secret).verifying_key().to_bytes()
}

/// Calls `ed25519_dalek::VerifyingKey::from_bytes` for its verdict.
#[verifier::external_body]
pub(crate) fn ed25519_check_key(bytes: &[u8; 32]) -> (r: Result<
    (),
    ed25519_dalek::SignatureError,
>)
    ensures
        r is Ok <==> ed25519_is_key(bytes@),
{
    ed25519_dalek::VerifyingKey::from_bytes(bytes).map(|_key| ())
}

/// Calls `ed25519_dalek::VerifyingKey::to_montgomery`.
#[verifier::external_body]
pub(crate) fn ed25519_to_montgomery(key: &[u8; 32]) -> (r: [u8; 32])
    requires
        ed25519_is_key(key@),
    ensures
        r@ == ed25519_montgomery(key@),
{
    let key = ed25519_dalek::VerifyingKey::from_bytes(key).expect("the key is well-formed");
    key.to_montgomery().to_bytes()
}

/// Calls `ed25519_dalek::SigningKey::sign`. Strict verification accepts the
/// signature under the verifying key of the signing key, unless the first
/// half of the signature is the neutral element, which strict verification
/// always turns down.
#[verifier::external_body]
pub(crate) fn ed25519_sign(secret: &[u8; 32], message: &[u8]) -> (r: [u8; 64])
    ensures
        r@ == ed25519_signature(secret@, message@),
        r@.subrange(0, 32) != neutral_point() ==> ed25519_accepts(
            ed25519_public(secret@),
            message@,
            r@,
        ),
{
    ed25519_dalek::SigningKey::from_bytes(secret).sign(message).to_bytes()
}

/// Calls `ed25519_dalek::VerifyingKey::verify_strict`.
#[verifier::external_body]
pub(crate) fn ed25519_verify_strict(key: &[u8; 32], message: &[u8], signature: &[u8; 64]) -> (r:
    Result<(), ed25519_dalek::SignatureError>)
    requires
        ed25519_is_key(key@),
    ensures
        r is Ok <==> ed25519_accepts(key@, message@, signature@),
{
    let key = ed25519_dalek::VerifyingKey::from_bytes(key).expect("the key is well-formed");
    key.verify_strict(message, &ed25519_dalek::Signature::from_bytes(signature))
}

/// Calls `subtle::ConstantTimeEq::ct_eq` on two byte slices: it tells whether
/// they hold the same bytes.
#[verifier::external_body]
pub(crate) fn equal_bytes(a: &[u8], b: &[u8]) -> (r: bool)
    ensures
        r == (a@ == b@),
{
    a.ct_eq(b).into()
}

/// Calls `zeroize::Zeroize::zeroize` on an array: every byte becomes zero.
#[verifier::external_body]
pub(crate) fn wipe<const N: usize>(secret: &mut [u8; N])
    ensures
        final(secret)@ == zeros(N as nat),
    opens_invariants none
    no_unwind
{
    secret.zeroize()
}

/// Calls `decode` of Base64's `STANDARD` engine.
#[verifier::external_body]
pub(crate) fn base64_decode(text: &str) -> (r: Result<Vec<u8>, base64::DecodeError>)
    ensures
        match r {
            Ok(bytes) => base64_decoded(text@) == Some(bytes@),
            Err(_) => base64_decoded(text@) is None,
        },
{
    STANDARD.decode(text)
}

} // verus!
