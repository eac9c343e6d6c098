//! Key material: X25519 and Ed25519 keys, and the tags and secrets that the
//! protocol derives. A value of each type that holds a secret is wiped when it
//! goes out of scope.
use crate::bytes::zeros;
use crate::primitives::{
    ed25519_accepts, ed25519_check_key, ed25519_is_key, ed25519_montgomery, ed25519_public,
    ed25519_sign, ed25519_signature, ed25519_to_montgomery, ed25519_verify_strict,
    ed25519_verifying_key, identity_secret, neutral_point, random_secret, wipe,
    x25519_diffie_hellman, x25519_public, x25519_public_key, x25519_shared,
};
use vstd::prelude::*;

verus! {

/// The hash of a pre-key.
pub type KeyHash = [u8; 32];

/// Names a session to both of its ends.
#[derive(PartialEq, Eq, Hash)]
pub struct SessionTag(pub [u8; 32]);

impl View for SessionTag {
    type V = Seq<u8>;

    open spec fn view(&self) -> Seq<u8> {
        self.0@
    }
}

impl Clone for SessionTag {
    fn clone(&self) -> (r: Self)
        ensures
            r == *self,
    {
        SessionTag(self.0)
    }
}

impl Drop for SessionTag {
    fn drop(&mut self)
        ensures
            final(self)@ == zeros(32),
        opens_invariants none
        no_unwind
    {
        wipe(&mut self.0);
    }
}

/// The secret that a session starts from.
pub struct RootKey(pub [u8; 32]);

impl View for RootKey {
    type V = Seq<u8>;

    open spec fn view(&self) -> Seq<u8> {
        self.0@
    }
}

impl Clone for RootKey {
    fn clone(&self) -> (r: Self)
        ensures
            r == *self,
    {
        RootKey(self.0)
    }
}

impl Drop for RootKey {
    fn drop(&mut self)
        ensures
            final(self)@ == zeros(32),
        opens_invariants none
        no_unwind
    {
        wipe(&mut self.0);
    }
}

/// The SHA-256 digest of a ratchet public key.
#[derive(Clone, Copy, PartialEq, Eq, Hash, Debug)]
pub struct HashKey(pub [u8; 32]);

impl View for HashKey {
    type V = Seq<u8>;

    open spec fn view(&self) -> Seq<u8> {
        self.0@
    }
}

/// An X25519 public key: any 32 bytes.
#[derive(Clone, Copy, PartialEq, Eq, Hash, Debug)]
pub struct PublicKey(pub [u8; 32]);

impl View for PublicKey {
    type V = Seq<u8>;

    open spec fn view(&self) -> Seq<u8> {
        self.0@
    }
}

/// An X25519 secret key: any 32 bytes.
pub struct StaticSecret(pub [u8; 32]);

impl View for StaticSecret {
    type V = Seq<u8>;

    open spec fn view(&self) -> Seq<u8> {
        self.0@
    }
}

impl Clone for StaticSecret {
    fn clone(&self) -> (r: Self)
        ensures
            r == *self,
    {
        StaticSecret(self.0)
    }
}

impl Drop for StaticSecret {
    fn drop(&mut self)
        ensures
            final(self)@ == zeros(32),
        opens_invariants none
        no_unwind
    {
        wipe(&mut self.0);
    }
}

/// What two X25519 secrets have in common.
pub struct SharedSecret(pub [u8; 32]);

impl View for SharedSecret {
    type V = Seq<u8>;

    open spec fn view(&self) -> Seq<u8> {
        self.0@
    }
}

impl Drop for SharedSecret {
    fn drop(&mut self)
        ensures
            final(self)@ == zeros(32),
        opens_invariants none
        no_unwind
    {
        wipe(&mut self.0);
    }
}

/// An Ed25519 signing key: any 32 bytes.
pub struct SigningKey(pub [u8; 32]);

impl View for SigningKey {
    type V = Seq<u8>;

    open spec fn view(&self) -> Seq<u8> {
        self.0@
    }
}

impl Clone for SigningKey {
    fn clone(&self) -> (r: Self)
        ensures
            r == *self,
    {
        SigningKey(self.0)
    }
}

impl Drop for SigningKey {
    fn drop(&mut self)
        ensures
            final(self)@ == zeros(32),
        opens_invariants none
        no_unwind
    {
        wipe(&mut self.0);
    }
}

/// An Ed25519 signature.
#[derive(Clone, Copy, PartialEq, Eq, Debug)]
pub struct Signature(pub [u8; 64]);

impl View for Signature {
    type V = Seq<u8>;

    open spec fn view(&self) -> Seq<u8> {
        self.0@
    }
}

/// Two secrets come to the same shared secret, each combined with the public
/// key of the other.
pub open spec fn agree(a: Seq<u8>, b: Seq<u8>) -> bool {
    x25519_shared(a, x25519_public(b)) == x25519_shared(b, x25519_public(a))
}

/// Whoever the other is, they come to the same shared secret with the holder
/// of `secret`.
pub open spec fn agrees_with_all(secret: Seq<u8>) -> bool {
    forall|other: Seq<u8>| other.len() == 32 ==> #[trigger] agree(other, secret)
}

/// Whether the bytes are a secret that the random numbers of the operating
/// system have given.
pub closed spec fn secret_given(bytes: Seq<u8>) -> bool {
    exists|given: [u8; 32]| #[trigger] call_ensures(random_secret, (), given) && given@ == bytes
}

/// Whether the secret is one that [`StaticSecret::random`] has given.
pub open spec fn drawn(secret: Seq<u8>) -> bool {
    exists|given: StaticSecret|
        #[trigger] call_ensures(StaticSecret::random, (), given) && given@ == secret
}

impl PublicKey {
    pub fn as_bytes(&self) -> (r: &[u8; 32])
        ensures
            r@ == self@,
    {
        &self.0
    }

    /// The public key of a secret.
    pub fn from_secret(secret: &StaticSecret) -> (r: PublicKey)
        ensures
            r@ == x25519_public(secret@),
            agrees_with_all(secret@),
    {
        PublicKey(x25519_public_key(&secret.0))
    }
}

impl StaticSecret {
    /// A secret out of the random numbers of the operating system. Any 32 bytes
    /// may come.
    pub fn random() -> (r: StaticSecret)
        ensures
            secret_given(r@),
            r@.len() == 32,
    {
        StaticSecret(random_secret())
    }

    pub fn to_bytes(&self) -> (r: [u8; 32])
        ensures
            r@ == self@,
    {
        self.0
    }

    /// The shared secret of this secret and another's public key.
    pub fn diffie_hellman(&self, public: &PublicKey) -> (r: SharedSecret)
        ensures
            r@ == x25519_shared(self@, public@),
    {
        SharedSecret(x25519_diffie_hellman(&self.0, &public.0))
    }
}

impl SigningKey {
    pub fn as_bytes(&self) -> (r: &[u8; 32])
        ensures
            r@ == self@,
    {
        &self.0
    }

    /// The verifying key of this signing key. The X25519 public key that it
    /// maps to is that of `identity_secret`.
    pub fn verifying_key(&self) -> (r: VerifyingKey)
        ensures
            r@ == ed25519_public(self@),
            ed25519_montgomery(r@) == x25519_public(identity_secret(self@)),
    {
        VerifyingKey { bytes: ed25519_verifying_key(&self.0) }
    }

    /// The signature of `message`. It verifies under the verifying key of this
    /// signing key, unless its first half is the neutral element.
    pub fn sign(&self, message: &[u8]) -> (r: Signature)
        ensures
            r@ == ed25519_signature(self@, message@),
            r@.subrange(0, 32) != neutral_point() ==> ed25519_accepts(
                ed25519_public(self@),
                message@,
                r@,
            ),
    {
        Signature(ed25519_sign(&self.0, message))
    }
}

/// An Ed25519 verifying key: 32 bytes that encode a point.
#[derive(Clone, Copy, PartialEq, Eq, Debug)]
pub struct VerifyingKey {
    bytes: [u8; 32],
}

/// The error of bytes that are no verifying key, or of a signature that does
/// not verify.
#[derive(Clone, Copy, PartialEq, Eq, Debug)]
pub struct Ed25519Error();

impl View for VerifyingKey {
    type V = Seq<u8>;

    closed spec fn view(&self) -> Seq<u8> {
        self.bytes@
    }
}

impl VerifyingKey {
    #[verifier::type_invariant]
    spec fn well_formed(self) -> bool {
        ed25519_is_key(self.bytes@)
    }

    pub fn from_bytes(bytes: &[u8; 32]) -> (r: Result<VerifyingKey, Ed25519Error>)
        ensures
            r is Ok <==> ed25519_is_key(bytes@),
            r matches Ok(key) ==> key@ == bytes@,
    {
        match ed25519_check_key(bytes) {
            Ok(()) => Ok(VerifyingKey { bytes: *bytes }),
            Err(_) => Err(Ed25519Error()),
        }
    }

    pub fn as_bytes(&self) -> (r: &[u8; 32])
        ensures
            r@ == self@,
            ed25519_is_key(self@),
    {
        proof {
            use_type_invariant(self);
        }
        &self.bytes
    }

    pub fn to_bytes(&self) -> (r: [u8; 32])
        ensures
            r@ == self@,
            ed25519_is_key(self@),
    {
        *self.as_bytes()
    }

    /// The X25519 public key that this key maps to.
    pub fn to_montgomery(&self) -> (r: PublicKey)
        ensures
            r@ == ed25519_montgomery(self@),
    {
        proof {
            use_type_invariant(self);
        }
        PublicKey(ed25519_to_montgomery(&self.bytes))
    }

    /// Checks a signature strictly: weak keys are turned down too.
    pub fn verify_strict(&self, message: &[u8], signature: &Signature) -> (r: Result<
        (),
        Ed25519Error,
    >)
        ensures
            r is Ok <==> ed25519_accepts(self@, message@, signature@),
    {
        proof {
            use_type_invariant(self);
        }
        match ed25519_verify_strict(&self.bytes, message, &signature.0) {
            Ok(()) => Ok(()),
            Err(_) => Err(Ed25519Error()),
        }
    }
}

/// A verifying key is 32 bytes long.
pub proof fn lemma_verifying_key_length(key: VerifyingKey)
    ensures
        key@.len() == 32,
{
}

/// Whoever agrees with all comes to the same shared secret with anyone: each
/// combines their own secret with the public key of the other.
pub proof fn law_agreeing_secrets(secret: Seq<u8>, other: Seq<u8>)
    requires
        agrees_with_all(secret),
        other.len() == 32,
    ensures
        x25519_shared(other, x25519_public(secret)) == x25519_shared(secret, x25519_public(other)),
{
    assert(agree(other, secret));
}

/// A secret that was drawn is one that the random numbers of the operating
/// system have given, and is 32 bytes long.
pub(crate) proof fn law_drawn_secret(secret: Seq<u8>)
    requires
        drawn(secret),
    ensures
        secret.len() == 32,
        exists|given: [u8; 32]| #[trigger] call_ensures(random_secret, (), given) && given@
            == secret,
{
    let given = choose|given: StaticSecret|
        #[trigger] call_ensures(StaticSecret::random, (), given) && given@ == secret;
    assert(secret_given(given@));
}

/// A secret that was given is one that the random numbers of the operating
/// system have given.
pub(crate) proof fn law_given_secret(secret: Seq<u8>)
    requires
        secret_given(secret),
    ensures
        exists|given: [u8; 32]| #[trigger] call_ensures(random_secret, (), given) && given@
            == secret,
{
}

} // verus!
