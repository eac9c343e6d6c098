//! Who a user is: a public identity and the id that follows from it.
use crate::bytes::{zero_array, zeros};
use crate::keys::{PublicKey, VerifyingKey};
use crate::primitives::{ed25519_montgomery, hkdf_sha256, hkdf_sha256_derive, wipe};
use vstd::prelude::*;

verus! {

/// What the id of a user is derived for.
pub const PUBLIC_ID_INFO: &'static str = "freesignal/user_id/v0.1";

/// Names a user.
#[derive(PartialEq, Eq, Hash, Debug)]
pub struct UserId(pub [u8; 32]);

impl View for UserId {
    type V = Seq<u8>;

    open spec fn view(&self) -> Seq<u8> {
        self.0@
    }
}

impl Clone for UserId {
    fn clone(&self) -> (r: Self)
        ensures
            r == *self,
    {
        UserId(self.0)
    }
}

impl Drop for UserId {
    fn drop(&mut self)
        ensures
            final(self)@ == zeros(32),
        opens_invariants none
        no_unwind
    {
        wipe(&mut self.0);
    }
}

/// The id of the user with the given verifying key.
pub open spec fn user_id(key: Seq<u8>) -> Seq<u8> {
    hkdf_sha256(Some(zeros(32)), key, vstd::utf8::encode_utf8(PUBLIC_ID_INFO@), 32)
}

/// A user as others see them: the key that verifies their signatures.
#[derive(Clone, Copy)]
pub struct PublicIdentity(pub VerifyingKey);

impl View for PublicIdentity {
    type V = Seq<u8>;

    open spec fn view(&self) -> Seq<u8> {
        self.0@
    }
}

impl PublicIdentity {
    pub fn get_user_id(&self) -> (r: UserId)
        ensures
            r@ == user_id(self@),
    {
        let salt: [u8; 32] = zero_array();
        let id: [u8; 32] = hkdf_sha256_derive(
            Some(salt.as_slice()),
            self.0.as_bytes().as_slice(),
            PUBLIC_ID_INFO.as_bytes(),
        ).expect("the length is in range");
        UserId(id)
    }

    pub fn get_key(&self) -> (r: VerifyingKey)
        ensures
            r == self.0,
    {
        self.0
    }

    /// The X25519 public key of this identity.
    pub fn to_public_key(&self) -> (r: PublicKey)
        ensures
            r@ == ed25519_montgomery(self@),
    {
        self.0.to_montgomery()
    }

    pub fn to_bytes(&self) -> (r: [u8; 32])
        ensures
            r@ == self@,
    {
        self.0.to_bytes()
    }
}

/// The id of a user is derived from their verifying key and nothing else.
pub proof fn law_user_id(key: Seq<u8>)
    ensures
        user_id(key) == hkdf_sha256(
            Some(Seq::new(32, |i: int| 0u8)),
            key,
            vstd::utf8::encode_utf8("freesignal/user_id/v0.1"@),
            32,
        ),
{
}

} // verus!
