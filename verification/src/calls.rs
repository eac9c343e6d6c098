//! What keys come to when they are used, and how one use bears on another.
use crate::header::{Header, HeaderEncryptionError, HeaderKey};
use crate::identity::{PublicIdentity, UserId};
use crate::keys::{
    agree, Ed25519Error, PublicKey, SharedSecret, Signature, SigningKey, StaticSecret, VerifyingKey,
};
use crate::message::{MessageEncryptionError, MessageKey};
use crate::primitives::{ed25519_is_key, neutral_point, AEAD_LIMIT};
use crate::x3dh::get_identity_x25519_secret;
use vstd::prelude::*;

verus! {

/// A payload that is encrypted is 16 bytes longer, and is decrypted to what it
/// was under the same key and associated data. It is encrypted unless it or the
/// associated data is longer than 64 GiB.
pub proof fn law_payload_is_decrypted(
    key: &MessageKey,
    plaintext: &[u8],
    associated_data: &[u8],
    encrypted: Result<Vec<u8>, MessageEncryptionError>,
    ciphertext: &[u8],
    decrypted: Result<Vec<u8>, MessageEncryptionError>,
)
    requires
        call_ensures(MessageKey::encrypt_payload, (key, plaintext, associated_data), encrypted),
        encrypted matches Ok(given) ==> given@ == ciphertext@,
        call_ensures(MessageKey::decrypt_payload, (key, ciphertext, associated_data), decrypted),
    ensures
        encrypted is Ok <==> plaintext@.len() <= 0x10_0000_0000 && associated_data@.len()
            <= 0x10_0000_0000,
        encrypted is Ok ==> ciphertext@.len() == plaintext@.len() + 16,
        encrypted is Ok ==> (decrypted matches Ok(given) && given@ == plaintext@),
{
}

/// A header that is encrypted, under any nonce, is 28 bytes longer than its
/// encoding, and is decrypted to what it was where its encoding decodes to it.
pub proof fn law_header_is_decrypted<H: Header>(
    key: &HeaderKey,
    header: &H,
    nonce: &[u8; 12],
    encrypted: Result<Vec<u8>, HeaderEncryptionError>,
    bytes: &[u8],
    decrypted: Result<H, HeaderEncryptionError>,
)
    requires
        call_ensures(HeaderKey::encrypt_header_with::<H>, (key, header, nonce), encrypted)
            || call_ensures(HeaderKey::encrypt_header::<H>, (key, header), encrypted),
        encrypted matches Ok(given) ==> given@ == bytes@,
        call_ensures(HeaderKey::decrypt_header::<H>, (key, bytes), decrypted),
        H::decoded(H::encoded(header@)) == Some(header@),
    ensures
        encrypted is Ok <==> H::encoded(header@).len() <= AEAD_LIMIT,
        encrypted is Ok ==> bytes@.len() == H::encoded(header@).len() + 28,
        encrypted is Ok ==> (decrypted matches Ok(given) && given@ == header@),
{
}

/// Two ends that combine their own secret with the public key of the other come
/// to the same shared secret.
pub proof fn law_shared_secrets_are_equal(
    a: &StaticSecret,
    b: &StaticSecret,
    a_public: &PublicKey,
    b_public: &PublicKey,
    of_a: SharedSecret,
    of_b: SharedSecret,
)
    requires
        call_ensures(PublicKey::from_secret, (a,), *a_public),
        call_ensures(PublicKey::from_secret, (b,), *b_public),
        call_ensures(StaticSecret::diffie_hellman, (a, b_public), of_a),
        call_ensures(StaticSecret::diffie_hellman, (b, a_public), of_b),
    ensures
        of_a@ == of_b@,
{
    assert(a@.len() == 32);
    assert(agree(a@, b@));
}

/// A signature is accepted by the verifying key of the key that made it, for the
/// message that it was made for, unless its first half is the neutral element.
pub proof fn law_signature_is_accepted(
    key: &SigningKey,
    verifying_key: &VerifyingKey,
    message: &[u8],
    signature: &Signature,
    accepted: Result<(), Ed25519Error>,
)
    requires
        call_ensures(SigningKey::verifying_key, (key,), *verifying_key),
        call_ensures(SigningKey::sign, (key, message), *signature),
        call_ensures(VerifyingKey::verify_strict, (verifying_key, message, signature), accepted),
        signature@.subrange(0, 32) != neutral_point(),
    ensures
        accepted is Ok,
{
}

/// The X25519 secret of a signing key belongs to the X25519 key that its
/// verifying key, and the identity with that verifying key, map to.
pub proof fn law_identity_has_one_key_pair(
    key: &SigningKey,
    verifying_key: &VerifyingKey,
    secret: &StaticSecret,
    of_secret: PublicKey,
    of_key: PublicKey,
    of_identity: PublicKey,
)
    requires
        call_ensures(SigningKey::verifying_key, (key,), *verifying_key),
        call_ensures(get_identity_x25519_secret, (key,), *secret),
        call_ensures(PublicKey::from_secret, (secret,), of_secret),
        call_ensures(VerifyingKey::to_montgomery, (verifying_key,), of_key),
        call_ensures(
            PublicIdentity::to_public_key,
            (&PublicIdentity(*verifying_key),),
            of_identity,
        ),
    ensures
        of_secret@ == of_key@,
        of_identity@ == of_key@,
{
}

/// A verifying key is read from its bytes and gives them back. Bytes that are
/// none are turned down.
pub proof fn law_verifying_key_keeps_its_bytes(
    bytes: &[u8; 32],
    read: Result<VerifyingKey, Ed25519Error>,
    written: [u8; 32],
    shown: [u8; 32],
)
    requires
        call_ensures(VerifyingKey::from_bytes, (bytes,), read),
        read matches Ok(key) ==> call_ensures(VerifyingKey::to_bytes, (&key,), written),
        read matches Ok(key) ==> call_ensures(
            PublicIdentity::to_bytes,
            (&PublicIdentity(key),),
            shown,
        ),
    ensures
        read is Ok <==> ed25519_is_key(bytes@),
        read is Ok ==> written@ == bytes@,
        read is Ok ==> shown@ == bytes@,
{
}

/// Identities with the same verifying key are the same user.
pub proof fn law_user_has_one_id(
    a: &PublicIdentity,
    b: &PublicIdentity,
    a_id: UserId,
    b_id: UserId,
    a_key: VerifyingKey,
)
    requires
        call_ensures(PublicIdentity::get_user_id, (a,), a_id),
        call_ensures(PublicIdentity::get_user_id, (b,), b_id),
        call_ensures(PublicIdentity::get_key, (a,), a_key),
        a@ == b@,
    ensures
        a_id@ == b_id@,
        a_key == a.0,
        a_id@ == crate::identity::user_id(a_key@),
{
}

} // verus!
