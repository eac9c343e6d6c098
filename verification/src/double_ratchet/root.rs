//! The root of the ratchet: each turn combines it with the other end's key
//! into a new root, a new chain and a new header key.
use super::chain::{ChainKey, ChainState};
use super::error::DoubleRatchetError;
use crate::bytes::{overwrite, take_array, zero_array, zeros};
use crate::header::HeaderKey;
use crate::keys::{agrees_with_all, drawn, PublicKey, SharedSecret, StaticSecret};
use crate::primitives::{hkdf_sha256, hkdf_sha256_derive, wipe, x25519_public, x25519_shared};
use vstd::prelude::*;

verus! {

pub struct RootKey {
    /// The secret of this end's ratchet key.
    pub secret_key: StaticSecret,
    pub key: [u8; 32],
}

/// A root whose keys are byte strings.
#[verifier::ext_equal]
pub struct RootState {
    pub secret_key: Seq<u8>,
    pub key: Seq<u8>,
}

impl View for RootKey {
    type V = RootState;

    open spec fn view(&self) -> RootState {
        RootState { secret_key: self.secret_key@, key: self.key@ }
    }
}

impl Clone for RootKey {
    fn clone(&self) -> (r: Self)
        ensures
            r == *self,
    {
        RootKey { secret_key: self.secret_key.clone(), key: self.key }
    }
}

impl Drop for RootKey {
    fn drop(&mut self)
        ensures
            final(self)@.key == zeros(32),
            final(self)@.secret_key == old(self)@.secret_key,
        opens_invariants none
        no_unwind
    {
        wipe(&mut self.key);
    }
}

/// The 96 bytes that a turn of the ratchet derives.
pub open spec fn turn_material(key: Seq<u8>, shared: Seq<u8>, info: Seq<u8>) -> Seq<u8> {
    hkdf_sha256(Some(key), shared, info, 96)
}

impl RootState {
    /// This end's ratchet key.
    pub open spec fn public_key(self) -> Seq<u8> {
        x25519_public(self.secret_key)
    }

    /// The bytes that a turn with the given remote key derives.
    pub open spec fn material(self, remote_key: Seq<u8>, info: Seq<u8>) -> Seq<u8> {
        turn_material(self.key, x25519_shared(self.secret_key, remote_key), info)
    }

    /// The root after the turn.
    pub open spec fn turned(self, remote_key: Seq<u8>, info: Seq<u8>) -> Self {
        RootState { key: self.material(remote_key, info).subrange(0, 32), ..self }
    }

    /// The chain that the turn gives.
    pub open spec fn chain(self, remote_key: Seq<u8>, info: Seq<u8>) -> ChainState {
        ChainState {
            remote_key,
            key: self.material(remote_key, info).subrange(32, 64),
            count: 0,
            prev: 0,
        }
    }

    /// The header key that the turn gives.
    pub open spec fn header_key(self, remote_key: Seq<u8>, info: Seq<u8>) -> Seq<u8> {
        self.material(remote_key, info).subrange(64, 96)
    }

    pub open spec fn encoded(self) -> Seq<u8> {
        self.secret_key + self.key
    }

    /// The root that 64 bytes encode.
    pub open spec fn decoded(bytes: Seq<u8>) -> Self {
        RootState { secret_key: bytes.subrange(0, 32), key: bytes.subrange(32, 64) }
    }

    /// Keys are 32 bytes long.
    pub open spec fn well_formed(self) -> bool {
        self.secret_key.len() == 32 && self.key.len() == 32
    }
}

impl RootKey {
    /// A root with the given key and a fresh secret.
    pub fn new(bytes: [u8; 32]) -> (r: Self)
        ensures
            r@.key == bytes@,
            drawn(r@.secret_key),
            r@.well_formed(),
    {
        RootKey { secret_key: StaticSecret::random(), key: bytes }
    }

    /// Replaces the secret by a fresh one.
    pub fn update(&mut self)
        ensures
            final(self)@.key == old(self)@.key,
            drawn(final(self)@.secret_key),
            final(self)@.well_formed(),
    {
        self.replace_secret(StaticSecret::random());
    }

    /// Replaces the secret by the given one.
    pub fn replace_secret(&mut self, secret_key: StaticSecret)
        ensures
            final(self)@ == (RootState { secret_key: secret_key@, ..old(self)@ }),
    {
        self.secret_key = secret_key;
    }

    pub fn public_key(&self) -> (r: PublicKey)
        ensures
            r@ == self@.public_key(),
            agrees_with_all(self@.secret_key),
    {
        PublicKey::from_secret(&self.secret_key)
    }

    /// Turns the ratchet with the remote key. Without associated data, 32 zero
    /// bytes stand in its place.
    pub fn expand(&mut self, remote_key: PublicKey, aad: Option<&[u8]>) -> (r: Result<
        (ChainKey, HeaderKey),
        DoubleRatchetError,
    >)
        ensures
            ({
                let info = match aad {
                    Some(bytes) => bytes@,
                    None => zeros(32),
                };
                &&& final(self)@ == old(self)@.turned(remote_key@, info)
                &&& r matches Ok((chain, header_key)) && {
                    &&& chain@ == old(self)@.chain(remote_key@, info)
                    &&& header_key@ == old(self)@.header_key(remote_key@, info)
                }
            }),
    {
        let shared_key: SharedSecret = self.secret_key.diffie_hellman(&remote_key);
        let no_aad: [u8; 32] = zero_array();
        let info: &[u8] = match aad {
            Some(bytes) => bytes,
            None => no_aad.as_slice(),
        };
        let mut hash_key: [u8; 96] = match hkdf_sha256_derive(
            Some(self.key.as_slice()),
            shared_key.0.as_slice(),
            info,
        ) {
            Ok(hash_key) => hash_key,
            Err(_) => {
                return Err(DoubleRatchetError::ChainInitFailed);
            },
        };
        wipe(&mut self.key);
        self.key = take_array(hash_key.as_slice(), 0);
        let chain_key: [u8; 32] = take_array(hash_key.as_slice(), 32);
        let header_key: [u8; 32] = take_array(hash_key.as_slice(), 64);
        wipe(&mut hash_key);
        Ok((ChainKey::new(chain_key, 0, remote_key), HeaderKey(header_key)))
    }

    pub fn to_bytes(&self) -> (r: [u8; 64])
        ensures
            r@ == self@.encoded(),
    {
        let mut raw: [u8; 64] = zero_array();
        overwrite(&mut raw, 0, self.secret_key.0.as_slice());
        overwrite(&mut raw, 32, self.key.as_slice());
        assert(raw@ =~= self@.encoded());
        raw
    }

    pub fn from(bytes: &[u8; 64]) -> (r: Self)
        ensures
            r@ == RootState::decoded(bytes@),
    {
        RootKey {
            secret_key: StaticSecret(take_array(bytes.as_slice(), 0)),
            key: take_array(bytes.as_slice(), 32),
        }
    }
}

/// A root is 64 bytes long when encoded, and decodes to itself.
pub proof fn lemma_root_round_trip(root: RootState)
    requires
        root.well_formed(),
    ensures
        root.encoded().len() == 64,
        RootState::decoded(root.encoded()) == root,
{
    assert(root.encoded().subrange(0, 32) =~= root.secret_key);
    assert(root.encoded().subrange(32, 64) =~= root.key);
}

/// Any 64 bytes decode to a root that encodes to the same bytes.
pub proof fn lemma_root_from_bytes(bytes: Seq<u8>)
    requires
        bytes.len() == 64,
    ensures
        RootState::decoded(bytes).well_formed(),
        RootState::decoded(bytes).encoded() == bytes,
{
    assert(RootState::decoded(bytes).encoded() =~= bytes);
}

/// A turn derives 96 bytes from the root key, the shared secret of this end's
/// secret with the remote key, and what the turn is bound to. They are the next
/// root key, the chain key and the header key. The ratchet secret stays.
pub proof fn law_root_turn(root: RootState, remote_key: Seq<u8>, info: Seq<u8>)
    ensures
        ({
            let okm = hkdf_sha256(
                Some(root.key),
                x25519_shared(root.secret_key, remote_key),
                info,
                96,
            );
            &&& root.turned(remote_key, info).key == okm.subrange(0, 32)
            &&& root.turned(remote_key, info).secret_key == root.secret_key
            &&& root.chain(remote_key, info).key == okm.subrange(32, 64)
            &&& root.chain(remote_key, info).remote_key == remote_key
            &&& root.chain(remote_key, info).count == 0
            &&& root.chain(remote_key, info).prev == 0
            &&& root.header_key(remote_key, info) == okm.subrange(64, 96)
            &&& root.public_key() == x25519_public(root.secret_key)
        }),
{
}

/// Where each part of an encoded root stands.
pub proof fn law_root_layout(root: RootState)
    requires
        root.well_formed(),
    ensures
        root.encoded().len() == 64,
        root.encoded().subrange(0, 32) == root.secret_key,
        root.encoded().subrange(32, 64) == root.key,
{
    assert(root.encoded().subrange(0, 32) =~= root.secret_key);
    assert(root.encoded().subrange(32, 64) =~= root.key);
}

/// The view of a root key holds each of its fields.
pub proof fn law_root_view(root: RootKey)
    ensures
        root@.secret_key == root.secret_key.0@,
        root@.key == root.key@,
{
}

} // verus!
