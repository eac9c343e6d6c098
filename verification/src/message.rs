//! Message keys: each encrypts one payload.
use crate::bytes::{take_array, zeros};
use crate::primitives::{
    aes256gcm_decrypt, aes256gcm_encrypt, aes256gcm_open, aes256gcm_seal, hkdf_sha256,
    hkdf_sha256_derive, wipe, AEAD_LIMIT,
};
use vstd::prelude::*;
use vstd::string::StringExecFns;

verus! {

/// What the key and the nonce of a payload are derived for.
pub const MESSAGE_KEY_INFO: &'static str = "/freesignal/payload/v0.1";

/// The key of one message.
pub struct MessageKey(pub [u8; 32]);

impl View for MessageKey {
    type V = Seq<u8>;

    open spec fn view(&self) -> Seq<u8> {
        self.0@
    }
}

impl Clone for MessageKey {
    fn clone(&self) -> (r: Self)
        ensures
            r == *self,
    {
        MessageKey(self.0)
    }
}

impl Drop for MessageKey {
    fn drop(&mut self)
        ensures
            final(self)@ == zeros(32),
        opens_invariants none
        no_unwind
    {
        wipe(&mut self.0);
    }
}

/// A payload could not be encrypted or decrypted.
#[derive(Debug, Clone, Copy, PartialEq, Eq)]
pub struct MessageEncryptionError();

impl MessageEncryptionError {
    pub fn to_string(&self) -> (r: String)
        ensures
            r@ == "Failed crypto operation"@,
    {
        String::from_str("Failed crypto operation")
    }
}

/// The 44 bytes of key and nonce that a message key stands for.
pub open spec fn payload_material(key: Seq<u8>) -> Seq<u8> {
    hkdf_sha256(None, key, vstd::utf8::encode_utf8(MESSAGE_KEY_INFO@), 44)
}

/// The AES key that a message key stands for.
pub open spec fn payload_key(key: Seq<u8>) -> Seq<u8> {
    payload_material(key).subrange(0, 32)
}

/// The nonce that a message key stands for.
pub open spec fn payload_nonce(key: Seq<u8>) -> Seq<u8> {
    payload_material(key).subrange(32, 44)
}

/// The encrypted payload.
pub open spec fn sealed_payload(key: Seq<u8>, plaintext: Seq<u8>, aad: Seq<u8>) -> Seq<u8> {
    aes256gcm_seal(payload_key(key), payload_nonce(key), plaintext, aad)
}

/// What an encrypted payload decrypts to, if it is authentic.
pub open spec fn opened_payload(key: Seq<u8>, ciphertext: Seq<u8>, aad: Seq<u8>) -> Option<
    Seq<u8>,
> {
    aes256gcm_open(payload_key(key), payload_nonce(key), ciphertext, aad)
}

impl MessageKey {
    fn derive_crypto_material(&self) -> (r: ([u8; 32], [u8; 12]))
        ensures
            r.0@ == payload_key(self@),
            r.1@ == payload_nonce(self@),
    {
        let mut derived: [u8; 44] = hkdf_sha256_derive(
            None,
            self.0.as_slice(),
            MESSAGE_KEY_INFO.as_bytes(),
        ).expect("the length is in range");
        let key: [u8; 32] = take_array(derived.as_slice(), 0);
        let nonce: [u8; 12] = take_array(derived.as_slice(), 32);
        wipe(&mut derived);
        (key, nonce)
    }

    /// Encrypts a payload. What comes out is 16 bytes longer, and decrypts to
    /// the payload under the same key and associated data.
    pub fn encrypt_payload(&self, plaintext: &[u8], associated_data: &[u8]) -> (r: Result<
        Vec<u8>,
        MessageEncryptionError,
    >)
        ensures
            r is Ok <==> plaintext@.len() <= AEAD_LIMIT && associated_data@.len() <= AEAD_LIMIT,
            r matches Ok(c) ==> {
                &&& c@ == sealed_payload(self@, plaintext@, associated_data@)
                &&& c@.len() == plaintext@.len() + 16
                &&& opened_payload(self@, c@, associated_data@) == Some(plaintext@)
            },
    {
        let (key, nonce) = self.derive_crypto_material();
        match aes256gcm_encrypt(&key, &nonce, plaintext, associated_data) {
            Ok(ciphertext) => Ok(ciphertext),
            Err(_) => Err(MessageEncryptionError()),
        }
    }

    /// Decrypts a payload. It fails where the ciphertext is not authentic
    /// under this key and the associated data.
    pub fn decrypt_payload(&self, ciphertext: &[u8], associated_data: &[u8]) -> (r: Result<
        Vec<u8>,
        MessageEncryptionError,
    >)
        ensures
            match r {
                Ok(p) => opened_payload(self@, ciphertext@, associated_data@) == Some(p@)
                    && p@.len() + 16 == ciphertext@.len(),
                Err(_) => opened_payload(self@, ciphertext@, associated_data@) is None,
            },
    {
        let (key, nonce) = self.derive_crypto_material();
        match aes256gcm_decrypt(&key, &nonce, ciphertext, associated_data) {
            Ok(plaintext) => Ok(plaintext),
            Err(_) => Err(MessageEncryptionError()),
        }
    }
}

/// A payload is encrypted under the first 32 bytes that its message key
/// derives, with the 12 bytes behind them as nonce, and bound to the associated
/// data as it is; it is decrypted under the same.
pub proof fn law_payload_encryption(key: Seq<u8>, text: Seq<u8>, aad: Seq<u8>)
    ensures
        ({
            let material = hkdf_sha256(
                None,
                key,
                vstd::utf8::encode_utf8("/freesignal/payload/v0.1"@),
                44,
            );
            let (aes_key, nonce) = (material.subrange(0, 32), material.subrange(32, 44));
            &&& sealed_payload(key, text, aad) == aes256gcm_seal(aes_key, nonce, text, aad)
            &&& opened_payload(key, text, aad) == aes256gcm_open(aes_key, nonce, text, aad)
        }),
        AEAD_LIMIT == 64 * 1024 * 1024 * 1024,
{
}

} // verus!
