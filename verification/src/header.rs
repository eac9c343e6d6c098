//! Header keys: they encrypt the headers that travel with messages.
use crate::bytes::{append_bytes, take_array, zeros};
use crate::keys::PublicKey;
use crate::primitives::{
    aes256gcm_decrypt, aes256gcm_encrypt, aes256gcm_open, aes256gcm_seal, random_nonce, wipe,
    AEAD_LIMIT,
};
use vstd::prelude::*;
use vstd::string::StringExecFns;

verus! {

/// A key that hides message headers.
#[derive(PartialEq, Eq, Hash, Debug)]
pub struct HeaderKey(pub [u8; 32]);

impl View for HeaderKey {
    type V = Seq<u8>;

    open spec fn view(&self) -> Seq<u8> {
        self.0@
    }
}

impl Clone for HeaderKey {
    fn clone(&self) -> (r: Self)
        ensures
            r == *self,
    {
        HeaderKey(self.0)
    }
}

impl Drop for HeaderKey {
    fn drop(&mut self)
        ensures
            final(self)@ == zeros(32),
        opens_invariants none
        no_unwind
    {
        wipe(&mut self.0);
    }
}

/// Bytes that are no header.
#[derive(Debug, Clone, Copy, PartialEq, Eq)]
pub struct HeaderError();

/// A header could not be encrypted or decrypted.
#[derive(Debug, Clone, Copy, PartialEq, Eq)]
pub struct HeaderEncryptionError();

impl HeaderEncryptionError {
    pub fn to_string(&self) -> (r: String)
        ensures
            r@ == "Failed crypto operation"@,
    {
        String::from_str("Failed crypto operation")
    }
}

/// What travels with a message so that its receiver finds the right key.
pub trait Header: View + Sized {
    /// The ratchet key that the header names.
    spec fn key_of(header: Self::V) -> Seq<u8>;

    /// The encoding of a header.
    spec fn encoded(header: Self::V) -> Seq<u8>;

    /// The header that the bytes encode, if they do.
    spec fn decoded(bytes: Seq<u8>) -> Option<Self::V>;

    fn get_public_key(&self) -> (r: PublicKey)
        ensures
            r@ == Self::key_of(self@),
    ;

    fn to_slice(&self) -> (r: Vec<u8>)
        ensures
            r@ == Self::encoded(self@),
    ;

    fn from_bytes(bytes: &[u8]) -> (r: Result<Self, HeaderError>)
        ensures
            match r {
                Ok(header) => Self::decoded(bytes@) == Some(header@),
                Err(_) => Self::decoded(bytes@) is None,
            },
    ;
}

/// An encrypted header: the nonce, then the ciphertext with its tag.
pub open spec fn sealed_header(key: Seq<u8>, nonce: Seq<u8>, plaintext: Seq<u8>) -> Seq<u8> {
    nonce + aes256gcm_seal(key, nonce, plaintext, Seq::empty())
}

/// What an encrypted header decrypts to, if it is authentic.
pub open spec fn opened_header(key: Seq<u8>, bytes: Seq<u8>) -> Option<Seq<u8>> {
    aes256gcm_open(
        key,
        bytes.subrange(0, 12),
        bytes.subrange(12, bytes.len() as int),
        Seq::empty(),
    )
}

/// The header inside an encrypted one: nothing where it is not authentic, or
/// where what it holds is no header.
pub open spec fn decrypted_header<H: Header>(key: Seq<u8>, bytes: Seq<u8>) -> Option<H::V> {
    match opened_header(key, bytes) {
        Some(plaintext) => H::decoded(plaintext),
        None => None,
    }
}

/// Whether the bytes are a nonce that the random numbers of the operating
/// system have given.
pub closed spec fn nonce_given(bytes: Seq<u8>) -> bool {
    exists|given: [u8; 12]| #[trigger] call_ensures(random_nonce, (), given) && given@ == bytes
}

impl HeaderKey {
    /// Encrypts a header under a fresh nonce. What comes out decrypts to the
    /// encoding of the header under the same key.
    pub fn encrypt_header<H: Header>(&self, header: &H) -> (r: Result<
        Vec<u8>,
        HeaderEncryptionError,
    >)
        ensures
            r is Ok <==> H::encoded(header@).len() <= AEAD_LIMIT,
            r matches Ok(out) ==> {
                &&& exists|nonce: Seq<u8>|
                    nonce.len() == 12 && nonce_given(nonce) && out@ == #[trigger] sealed_header(
                        self@,
                        nonce,
                        H::encoded(header@),
                    )
                &&& out@.len() == H::encoded(header@).len() + 28
                &&& opened_header(self@, out@) == Some(H::encoded(header@))
            },
    {
        self.encrypt_header_with(header, &random_nonce())
    }

    /// Encrypts a header under the given nonce.
    pub fn encrypt_header_with<H: Header>(&self, header: &H, nonce: &[u8; 12]) -> (r: Result<
        Vec<u8>,
        HeaderEncryptionError,
    >)
        ensures
            r is Ok <==> H::encoded(header@).len() <= AEAD_LIMIT,
            r matches Ok(out) ==> {
                &&& out@ == sealed_header(self@, nonce@, H::encoded(header@))
                &&& out@.len() == H::encoded(header@).len() + 28
                &&& opened_header(self@, out@) == Some(H::encoded(header@))
            },
    {
        let plaintext: Vec<u8> = header.to_slice();
        let aad: [u8; 0] = [];
        assert(aad@ =~= Seq::<u8>::empty());
        match aes256gcm_encrypt(&self.0, nonce, plaintext.as_slice(), aad.as_slice()) {
            Ok(ciphertext) => {
                let mut out: Vec<u8> = Vec::new();
                append_bytes(&mut out, nonce.as_slice());
                append_bytes(&mut out, ciphertext.as_slice());
                assert(out@ =~= nonce@ + ciphertext@);
                assert(out@.subrange(0, 12) =~= nonce@);
                assert(out@.subrange(12, out@.len() as int) =~= ciphertext@);
                Ok(out)
            },
            Err(_) => Err(HeaderEncryptionError()),
        }
    }

    /// Decrypts a header. The first 12 bytes are the nonce.
    pub fn decrypt_header<H: Header>(&self, bytes: &[u8]) -> (r: Result<
        H,
        HeaderEncryptionError,
    >)
        requires
            bytes@.len() >= 12,
        ensures
            match r {
                Ok(header) => decrypted_header::<H>(self@, bytes@) == Some(header@),
                Err(_) => decrypted_header::<H>(self@, bytes@) is None,
            },
    {
        let nonce: [u8; 12] = take_array(bytes, 0);
        let ciphertext = vstd::slice::slice_subrange(bytes, 12, bytes.len());
        let aad: [u8; 0] = [];
        assert(aad@ =~= Seq::<u8>::empty());
        match aes256gcm_decrypt(&self.0, &nonce, ciphertext, aad.as_slice()) {
            Ok(plaintext) => match H::from_bytes(plaintext.as_slice()) {
                Ok(header) => Ok(header),
                Err(_) => Err(HeaderEncryptionError()),
            },
            Err(_) => Err(HeaderEncryptionError()),
        }
    }
}

/// An encrypted header starts with its nonce, and the rest is opened with that
/// nonce and no associated data.
pub proof fn law_header_encryption(key: Seq<u8>, nonce: Seq<u8>, text: Seq<u8>)
    requires
        nonce.len() == 12,
    ensures
        ({
            let none = Seq::<u8>::empty();
            let sealed = aes256gcm_seal(key, nonce, text, none);
            &&& sealed_header(key, nonce, text).subrange(0, 12) == nonce
            &&& sealed_header(key, nonce, text).len() == 12 + sealed.len()
            &&& sealed_header(key, nonce, text).subrange(
                12,
                sealed_header(key, nonce, text).len() as int,
            ) == sealed
            &&& opened_header(key, nonce + text) == aes256gcm_open(key, nonce, text, none)
        }),
{
    let none = Seq::<u8>::empty();
    let out = sealed_header(key, nonce, text);
    let sealed = aes256gcm_seal(key, nonce, text, none);
    assert(out.subrange(0, 12) =~= nonce);
    assert(out.subrange(12, out.len() as int) =~= sealed);
    let given = nonce + text;
    assert(given.subrange(0, 12) =~= nonce);
    assert(given.subrange(12, given.len() as int) =~= text);
}

/// Decrypting gives a header where the bytes are authentic and what they hide
/// encodes one, and nothing otherwise.
pub proof fn law_header_decryption<H: Header>(key: Seq<u8>, bytes: Seq<u8>)
    ensures
        opened_header(key, bytes) is None ==> decrypted_header::<H>(key, bytes) is None,
        opened_header(key, bytes) matches Some(plaintext) ==> decrypted_header::<H>(key, bytes)
            == H::decoded(plaintext),
{
}

/// A nonce that was given is one that the random numbers of the operating
/// system have given.
pub(crate) proof fn law_given_nonce(nonce: Seq<u8>)
    requires
        nonce_given(nonce),
    ensures
        exists|given: [u8; 12]| #[trigger] call_ensures(random_nonce, (), given) && given@ == nonce,
{
}

} // verus!
