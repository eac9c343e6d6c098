//! The two ends of the key agreement.
use super::error::KeyExchangeError;
use super::model::{
    asked_init, asking_init, asking_message, bundle_calls, derived_first_header_key,
    derived_root_key, derived_second_header_key, onetime_pre_key_call, onetime_pre_key_calls,
    raw_material, signed_pre_key_call, Bundle, Loaded, Message, X3DH_INFO,
};
use crate::bytes::{overwrite, take_array, zero_array, zeros};
use crate::header::HeaderKey;
use crate::identity::{user_id, PublicIdentity, UserId};
use crate::init::{InitState, SessionInit};
use crate::keys::{
    agrees_with_all, drawn, KeyHash, PublicKey, RootKey, SharedSecret, Signature, SigningKey,
    StaticSecret, VerifyingKey,
};
use crate::primitives::{
    ed25519_accepts, ed25519_public, ed25519_signature, hkdf_sha256_derive, identity_secret,
    neutral_point, random_u32, sha256, sha256_digest, sha512_digest, wipe, x25519_public,
};
use crate::store::{seen, KeyExchangeStore, PreKeyCall};
use vstd::prelude::*;

verus! {

/// The X25519 secret that belongs to a signing key.
pub fn get_identity_x25519_secret(signing_key: &SigningKey) -> (r: StaticSecret)
    ensures
        r@ == identity_secret(signing_key@),
{
    let mut hash: [u8; 64] = sha512_digest(signing_key.as_bytes().as_slice());
    let secret: StaticSecret = StaticSecret(take_array(hash.as_slice(), 0));
    wipe(&mut hash);
    secret
}

/// The keys with which others can start a session with an identity.
pub struct PreKeyBundle<const N: usize> {
    pub identity_key: VerifyingKey,
    pub signed_pre_key: PublicKey,
    /// The identity's signature of the signed pre-key.
    pub signature: Signature,
    pub onetime_pre_keys: Option<[PublicKey; N]>,
}

/// What the end that was asked needs to come to the same keys.
pub struct PreKeyMessage {
    pub identity_key: VerifyingKey,
    pub ephemeral_key: PublicKey,
    pub signed_pre_key_hash: KeyHash,
    pub onetime_pre_key_hash: Option<KeyHash>,
}

impl<const N: usize> View for PreKeyBundle<N> {
    type V = Bundle;

    open spec fn view(&self) -> Bundle {
        Bundle {
            identity_key: self.identity_key@,
            signed_pre_key: self.signed_pre_key@,
            signature: self.signature@,
        }
    }
}

impl View for PreKeyMessage {
    type V = Message;

    open spec fn view(&self) -> Message {
        Message {
            identity_key: self.identity_key@,
            ephemeral_key: self.ephemeral_key@,
            signed_pre_key_hash: self.signed_pre_key_hash@,
            onetime_pre_key_hash: match self.onetime_pre_key_hash {
                Some(hash) => Some(hash@),
                None => None,
            },
        }
    }
}

impl<const N: usize> Clone for PreKeyBundle<N> {
    fn clone(&self) -> (r: Self)
        ensures
            r == *self,
    {
        PreKeyBundle {
            identity_key: self.identity_key,
            signed_pre_key: self.signed_pre_key,
            signature: self.signature,
            onetime_pre_keys: self.onetime_pre_keys,
        }
    }
}

impl Clone for PreKeyMessage {
    fn clone(&self) -> (r: Self)
        ensures
            r == *self,
    {
        PreKeyMessage {
            identity_key: self.identity_key,
            ephemeral_key: self.ephemeral_key,
            signed_pre_key_hash: self.signed_pre_key_hash,
            onetime_pre_key_hash: self.onetime_pre_key_hash,
        }
    }
}

/// The root key and the two header keys that the shared secrets come to.
fn derive_session_keys(raw: &[u8]) -> (r: (RootKey, HeaderKey, HeaderKey))
    ensures
        r.0@ == derived_root_key(raw@),
        r.1@ == derived_first_header_key(raw@),
        r.2@ == derived_second_header_key(raw@),
{
    let salt: [u8; 32] = zero_array();
    let mut derived: [u8; 96] = hkdf_sha256_derive(
        Some(salt.as_slice()),
        raw,
        X3DH_INFO.as_bytes(),
    ).expect("the length is in range");
    let root_key: [u8; 32] = take_array(derived.as_slice(), 0);
    let first: [u8; 32] = take_array(derived.as_slice(), 32);
    let second: [u8; 32] = take_array(derived.as_slice(), 64);
    wipe(&mut derived);
    (RootKey(root_key), HeaderKey(first), HeaderKey(second))
}

/// The keys that the shared secrets come to. The secrets are wiped.
fn derive_from_secrets(
    dh1: SharedSecret,
    dh2: SharedSecret,
    dh3: SharedSecret,
    dh4: Option<SharedSecret>,
) -> (r: (RootKey, HeaderKey, HeaderKey))
    ensures
        ({
            let raw = raw_material(dh1@, dh2@, dh3@, seen(dh4));
            &&& r.0@ == derived_root_key(raw)
            &&& r.1@ == derived_first_header_key(raw)
            &&& r.2@ == derived_second_header_key(raw)
        }),
{
    let ghost secrets = raw_material(dh1@, dh2@, dh3@, seen(dh4));
    let mut raw: [u8; 160] = zero_array();
    let mut i: usize = 0;
    while i < 32
        invariant
            0 <= i <= 32,
            raw@.len() == 160,
            forall|j: int| 0 <= j < i ==> raw@[j] == 0xff,
        decreases 32 - i,
    {
        raw[i] = 0xff;
        i = i + 1;
    }
    overwrite(&mut raw, 32, dh1.0.as_slice());
    overwrite(&mut raw, 64, dh2.0.as_slice());
    overwrite(&mut raw, 96, dh3.0.as_slice());
    let keys = match dh4 {
        Some(secret) => {
            overwrite(&mut raw, 128, secret.0.as_slice());
            assert(raw@ =~= secrets);
            derive_session_keys(raw.as_slice())
        },
        None => {
            assert(raw@.subrange(0, 128) =~= secrets);
            derive_session_keys(vstd::slice::slice_subrange(raw.as_slice(), 0, 128))
        },
    };
    wipe(&mut raw);
    keys
}

impl<const N: usize> PreKeyBundle<N> {
    /// The one-time pre-keys, as byte strings.
    pub open spec fn onetime(self) -> Seq<Seq<u8>> {
        match self.onetime_pre_keys {
            Some(keys) => keys@.map_values(|key: PublicKey| key@),
            None => Seq::empty(),
        }
    }

    /// The one-time pre-key that a random number picks, where there are any.
    pub open spec fn picked(self, number: u32) -> Option<Seq<u8>> {
        if self.onetime().len() > 0 {
            Some(self.onetime()[number as int % self.onetime().len() as int])
        } else {
            None
        }
    }

    /// Checks that the identity has signed the pre-key.
    pub fn verify(&self) -> (r: Result<(), KeyExchangeError>)
        ensures
            match r {
                Ok(()) => ed25519_accepts(
                    self@.identity_key,
                    self@.signed_pre_key,
                    self@.signature,
                ),
                Err(error) => error == KeyExchangeError::VerificationError && !ed25519_accepts(
                    self@.identity_key,
                    self@.signed_pre_key,
                    self@.signature,
                ),
            },
    {
        match self.identity_key.verify_strict(self.signed_pre_key.0.as_slice(), &self.signature) {
            Ok(()) => Ok(()),
            Err(_) => Err(KeyExchangeError::VerificationError),
        }
    }

    /// Picks a one-time pre-key by a random number, where there are any.
    fn pick(&self, number: u32) -> (r: Option<PublicKey>)
        ensures
            seen(r) == self.picked(number),
    {
        match &self.onetime_pre_keys {
            Some(keys) => {
                if N == 0 {
                    None
                } else {
                    let index: usize = number as usize % N;
                    Some(keys[index])
                }
            },
            None => None,
        }
    }

    /// Starts a session from the bundle, with the given ephemeral secret and
    /// one-time pre-key. The signature is not checked.
    pub fn accept(
        &self,
        identity: &PublicIdentity,
        signing_key: &SigningKey,
        ephemeral: &StaticSecret,
        onetime_pre_key: Option<PublicKey>,
    ) -> (r: (SessionInit, PreKeyMessage))
        ensures
            r.0@ == asking_init(signing_key@, ephemeral@, self@, seen(onetime_pre_key)),
            r.1@ == asking_message(identity@, ephemeral@, self@, seen(onetime_pre_key)),
            r.0.user_id@ == user_id(self.identity_key@),
            r.0.remote_identity == self.identity_key,
            r.0.remote_key == Some(self.signed_pre_key),
            r.0.secret_key is None,
            r.1.identity_key == identity.0,
            r.1.ephemeral_key@ == x25519_public(ephemeral@),
            r.1.signed_pre_key_hash@ == sha256(self.signed_pre_key@),
            agrees_with_all(ephemeral@),
    {
        let remote_user_id: UserId = PublicIdentity(self.identity_key).get_user_id();
        let identity_secret_key: StaticSecret = get_identity_x25519_secret(signing_key);
        let (root_key, header_key, next_header_key) = derive_from_secrets(
            identity_secret_key.diffie_hellman(&self.signed_pre_key),
            ephemeral.diffie_hellman(&self.identity_key.to_montgomery()),
            ephemeral.diffie_hellman(&self.signed_pre_key),
            match &onetime_pre_key {
                Some(key) => Some(ephemeral.diffie_hellman(key)),
                None => None,
            },
        );
        let init: SessionInit = SessionInit {
            user_id: remote_user_id,
            remote_identity: self.identity_key,
            remote_key: Some(self.signed_pre_key),
            secret_key: None,
            root_key,
            header_key: Some(header_key),
            next_header_key: Some(next_header_key),
        };
        let message: PreKeyMessage = PreKeyMessage {
            identity_key: identity.get_key(),
            ephemeral_key: PublicKey::from_secret(ephemeral),
            signed_pre_key_hash: sha256_digest(self.signed_pre_key.0.as_slice()),
            onetime_pre_key_hash: match &onetime_pre_key {
                Some(key) => Some(sha256_digest(key.0.as_slice())),
                None => None,
            },
        };
        (init, message)
    }
}

impl PreKeyMessage {
    /// Starts a session from the message, with the pre-keys that it names.
    pub fn accept(
        &self,
        signing_key: &SigningKey,
        signed_pre_key: StaticSecret,
        onetime_pre_key: Option<StaticSecret>,
    ) -> (r: SessionInit)
        ensures
            r@ == asked_init(signing_key@, signed_pre_key@, seen(onetime_pre_key), self@),
            r.user_id@ == user_id(self.identity_key@),
            r.remote_identity == self.identity_key,
            r.remote_key is None,
            r.secret_key == Some(signed_pre_key),
    {
        let remote_user_id: UserId = PublicIdentity(self.identity_key).get_user_id();
        let identity_secret_key: StaticSecret = get_identity_x25519_secret(signing_key);
        let (root_key, next_header_key, header_key) = derive_from_secrets(
            signed_pre_key.diffie_hellman(&self.identity_key.to_montgomery()),
            identity_secret_key.diffie_hellman(&self.ephemeral_key),
            signed_pre_key.diffie_hellman(&self.ephemeral_key),
            match &onetime_pre_key {
                Some(key) => Some(key.diffie_hellman(&self.ephemeral_key)),
                None => None,
            },
        );
        SessionInit {
            user_id: remote_user_id,
            remote_identity: self.identity_key,
            remote_key: None,
            secret_key: Some(signed_pre_key),
            root_key,
            header_key: Some(header_key),
            next_header_key: Some(next_header_key),
        }
    }
}

/// An identity with the store of its keys.
pub struct KeyExchange<K: KeyExchangeStore> {
    pub keystore: K,
    pub identity: PublicIdentity,
}

/// The view of what taking a message gives.
pub open spec fn seen_init(r: Result<SessionInit, KeyExchangeError>) -> Result<
    InitState,
    KeyExchangeError,
> {
    match r {
        Ok(init) => Ok(init@),
        Err(error) => Err(error),
    }
}

/// Whether the bundle has been made from the given secrets, and the store has
/// been handed them after the calls `before`.
pub open spec fn has_been_bundled<K: KeyExchangeStore, const N: usize>(
    exchange: KeyExchange<K>,
    bundle: PreKeyBundle<N>,
    before: Seq<PreKeyCall>,
    signed_pre_key: Seq<u8>,
    onetime_pre_keys: Seq<Seq<u8>>,
    signing_key: Seq<u8>,
) -> bool {
    &&& signed_pre_key.len() == 32
    &&& drawn(signed_pre_key)
    &&& agrees_with_all(signed_pre_key)
    &&& onetime_pre_keys.len() == N
    &&& forall|i: int|
        0 <= i < N ==> (#[trigger] onetime_pre_keys[i]).len() == 32 && drawn(onetime_pre_keys[i])
    &&& signing_key.len() == 32
    &&& bundle.identity_key == exchange.identity.0
    &&& bundle@.signed_pre_key == x25519_public(signed_pre_key)
    &&& bundle@.signature == ed25519_signature(signing_key, bundle@.signed_pre_key)
    &&& bundle@.signature.subrange(0, 32) != neutral_point() ==> ed25519_accepts(
        ed25519_public(signing_key),
        bundle@.signed_pre_key,
        bundle@.signature,
    )
    &&& bundle.onetime_pre_keys is Some
    &&& bundle.onetime() == onetime_pre_keys.map_values(|secret: Seq<u8>| x25519_public(secret))
    &&& exchange.keystore.calls() == before + bundle_calls(
        signed_pre_key,
        onetime_pre_keys,
        signing_key,
    )
}

/// Whether the number is one that the random numbers of the operating system
/// have given.
pub closed spec fn number_given(number: u32) -> bool {
    call_ensures(random_u32, (), number)
}

/// Whether a session has been started from a bundle with the given ephemeral
/// secret, random number and signing key.
pub open spec fn has_accepted<K: KeyExchangeStore, const N: usize>(
    exchange: KeyExchange<K>,
    init: InitState,
    message: Message,
    bundle: PreKeyBundle<N>,
    before: Seq<PreKeyCall>,
    ephemeral: Seq<u8>,
    number: u32,
    signing_key: Seq<u8>,
) -> bool {
    &&& ephemeral.len() == 32
    &&& drawn(ephemeral)
    &&& number_given(number)
    &&& agrees_with_all(ephemeral)
    &&& signing_key.len() == 32
    &&& init == asking_init(signing_key, ephemeral, bundle@, bundle.picked(number))
    &&& message == asking_message(
        exchange.identity@,
        ephemeral,
        bundle@,
        bundle.picked(number),
    )
    &&& exchange.keystore.calls() == before.push(
        PreKeyCall::GetSigningKey { answer: signing_key },
    )
}

impl<K: KeyExchangeStore> KeyExchange<K> {
    pub fn new(identity: PublicIdentity, keystore: K) -> (r: KeyExchange<K>)
        ensures
            r.identity == identity,
            r.keystore == keystore,
    {
        KeyExchange { keystore, identity }
    }

    /// Makes and stores a fresh signed pre-key. Gives its secret and its hash.
    pub fn generate_spk(&mut self) -> (r: (StaticSecret, KeyHash))
        ensures
            drawn(r.0@),
            r.1@ == sha256(x25519_public(r.0@)),
            agrees_with_all(r.0@),
            final(self).keystore.calls() == old(self).keystore.calls().push(
                signed_pre_key_call(r.0@),
            ),
            final(self).identity == old(self).identity,
    {
        let secret: StaticSecret = StaticSecret::random();
        let hash: [u8; 32] = sha256_digest(PublicKey::from_secret(&secret).0.as_slice());
        self.keystore.store_pre_key(hash.as_slice(), &secret);
        (secret, hash)
    }

    /// Makes and stores a fresh one-time pre-key for the signed pre-key with
    /// the given hash. Gives its secret and its own hash.
    pub fn generate_opk(&mut self, spk_hash: &[u8]) -> (r: (StaticSecret, KeyHash))
        requires
            spk_hash@.len() == 32,
        ensures
            drawn(r.0@),
            r.1@ == sha256(x25519_public(r.0@)),
            agrees_with_all(r.0@),
            final(self).keystore.calls() == old(self).keystore.calls().push(
                onetime_pre_key_call(spk_hash@, r.0@),
            ),
            final(self).identity == old(self).identity,
    {
        let secret: StaticSecret = StaticSecret::random();
        let onetime_hash: [u8; 32] = sha256_digest(PublicKey::from_secret(&secret).0.as_slice());
        let mut hash: [u8; 64] = zero_array();
        overwrite(&mut hash, 0, spk_hash);
        overwrite(&mut hash, 32, onetime_hash.as_slice());
        assert(hash@ =~= spk_hash@ + onetime_hash@);
        self.keystore.store_pre_key(hash.as_slice(), &secret);
        (secret, onetime_hash)
    }

    /// Makes and stores a signed pre-key and `N` one-time pre-keys, and gives
    /// their public halves, signed.
    pub fn create_pre_key_bundle<const N: usize>(&mut self) -> (r: PreKeyBundle<N>)
        ensures
            exists|signed_pre_key: Seq<u8>, onetime_pre_keys: Seq<Seq<u8>>, signing_key: Seq<u8>|
                #[trigger]
                has_been_bundled(
                    *final(self),
                    r,
                    old(self).keystore.calls(),
                    signed_pre_key,
                    onetime_pre_keys,
                    signing_key,
                ),
            final(self).identity == old(self).identity,
    {
        let ghost before = self.keystore.calls();
        let (signed_pre_key, signed_pre_key_hash) = self.generate_spk();
        let mut keys: [PublicKey; N] = [PublicKey(zero_array());N];
        let ghost mut secrets: Seq<Seq<u8>> = Seq::empty();
        let ghost stored = self.keystore.calls();
        let ghost identity = self.identity;
        assert(stored + onetime_pre_key_calls(signed_pre_key_hash@, secrets) =~= stored);
        let mut i: usize = 0;
        while i < N
            invariant
                0 <= i <= N,
                secrets.len() == i,
                keys@.len() == N,
                self.identity == identity,
                forall|j: int|
                    0 <= j < i ==> (#[trigger] secrets[j]).len() == 32 && drawn(secrets[j]),
                forall|j: int| 0 <= j < i ==> keys@[j]@ == x25519_public(#[trigger] secrets[j]),
                self.keystore.calls() == stored + onetime_pre_key_calls(
                    signed_pre_key_hash@,
                    secrets,
                ),
            decreases N - i,
        {
            let (onetime_pre_key, _hash) = self.generate_opk(signed_pre_key_hash.as_slice());
            keys[i] = PublicKey::from_secret(&onetime_pre_key);
            proof {
                let more = secrets.push(onetime_pre_key@);
                assert(onetime_pre_key_calls(signed_pre_key_hash@, more)
                    =~= onetime_pre_key_calls(signed_pre_key_hash@, secrets).push(
                    onetime_pre_key_call(signed_pre_key_hash@, onetime_pre_key@),
                ));
                secrets = more;
            }
            i = i + 1;
        }
        let public_key: PublicKey = PublicKey::from_secret(&signed_pre_key);
        let signing_key: SigningKey = self.keystore.get_signing_key();
        let bundle: PreKeyBundle<N> = PreKeyBundle {
            identity_key: self.identity.get_key(),
            signed_pre_key: public_key,
            signature: signing_key.sign(public_key.0.as_slice()),
            onetime_pre_keys: Some(keys),
        };
        assert(bundle.onetime() =~= secrets.map_values(|secret: Seq<u8>| x25519_public(secret)));
        assert(self.keystore.calls() =~= before + bundle_calls(
            signed_pre_key@,
            secrets,
            signing_key@,
        ));
        assert(has_been_bundled(
            *self,
            bundle,
            before,
            signed_pre_key@,
            secrets,
            signing_key@,
        ));
        bundle
    }

    /// Starts a session with the identity of a bundle. One of its one-time
    /// pre-keys is picked at random. It fails where the identity has not
    /// signed the pre-key, and the store is then not asked for anything.
    pub fn process_pre_key_bundle<const N: usize>(&mut self, bundle: &PreKeyBundle<N>) -> (r:
        Result<(SessionInit, PreKeyMessage), KeyExchangeError>)
        ensures
            r is Ok <==> ed25519_accepts(
                bundle@.identity_key,
                bundle@.signed_pre_key,
                bundle@.signature,
            ),
            match r {
                Ok((init, message)) => exists|
                    ephemeral: Seq<u8>,
                    number: u32,
                    signing_key: Seq<u8>,
                | #[trigger]
                    has_accepted(
                        *final(self),
                        init@,
                        message@,
                        *bundle,
                        old(self).keystore.calls(),
                        ephemeral,
                        number,
                        signing_key,
                    ),
                Err(error) => error == KeyExchangeError::VerificationError && *final(self) == *old(
                    self,
                ),
            },
            final(self).identity == old(self).identity,
    {
        let ghost before = self.keystore.calls();
        let ephemeral: StaticSecret = StaticSecret::random();
        match bundle.verify() {
            Ok(()) => {},
            Err(error) => {
                return Err(error);
            },
        }
        let number: u32 = random_u32();
        let onetime_pre_key: Option<PublicKey> = bundle.pick(number);
        let signing_key: SigningKey = self.keystore.get_signing_key();
        let (init, message) = bundle.accept(
            &self.identity,
            &signing_key,
            &ephemeral,
            onetime_pre_key,
        );
        let r: Result<(SessionInit, PreKeyMessage), KeyExchangeError> = Ok((init, message));
        assert(has_accepted(
            *self,
            r.unwrap().0@,
            r.unwrap().1@,
            *bundle,
            before,
            ephemeral@,
            number,
            signing_key@,
        ));
        r
    }

    /// Starts the session that a message asks for. The one-time pre-key that
    /// it names is removed from the store.
    pub fn process_pre_key_message(&mut self, message: PreKeyMessage) -> (r: Result<
        SessionInit,
        KeyExchangeError,
    >)
        ensures
            exists|loaded: Loaded|
                {
                    &&& loaded.well_formed()
                    &&& seen_init(r) == #[trigger] message@.outcome(loaded)
                    &&& final(self).keystore.calls() == old(self).keystore.calls()
                        + message@.calls(loaded)
                },
            final(self).identity == old(self).identity,
    {
        let ghost before = self.keystore.calls();
        let ghost mut loaded = Loaded {
            signed_pre_key: None,
            onetime_pre_key: None,
            removed: false,
            signing_key: zeros(32),
        };
        let signed_pre_key: StaticSecret = match self.keystore.load_pre_key(
            message.signed_pre_key_hash.as_slice(),
        ) {
            Some(key) => key,
            None => {
                let r: Result<SessionInit, KeyExchangeError> = Err(
                    KeyExchangeError::PreKeyNotFound,
                );
                assert(seen_init(r) == message@.outcome(loaded));
                assert(self.keystore.calls() =~= before + message@.calls(loaded));
                return r;
            },
        };
        proof {
            loaded.signed_pre_key = Some(signed_pre_key@);
        }
        let onetime_pre_key: Option<StaticSecret> = match &message.onetime_pre_key_hash {
            Some(onetime_hash) => {
                let mut hash: [u8; 64] = zero_array();
                overwrite(&mut hash, 0, message.signed_pre_key_hash.as_slice());
                overwrite(&mut hash, 32, onetime_hash.as_slice());
                assert(hash@ =~= message@.onetime_slot().unwrap());
                match self.keystore.load_pre_key(hash.as_slice()) {
                    Some(key) => {
                        let removed: bool = self.keystore.remove_pre_key(hash.as_slice());
                        proof {
                            loaded.onetime_pre_key = Some(key@);
                            loaded.removed = removed;
                        }
                        Some(key)
                    },
                    None => {
                        let r: Result<SessionInit, KeyExchangeError> = Err(
                            KeyExchangeError::PreKeyNotFound,
                        );
                        assert(seen_init(r) == message@.outcome(loaded));
                        assert(self.keystore.calls() =~= before + message@.calls(loaded));
                        return r;
                    },
                }
            },
            None => None,
        };
        let signing_key: SigningKey = self.keystore.get_signing_key();
        proof {
            loaded.signing_key = signing_key@;
        }
        let init: SessionInit = message.accept(&signing_key, signed_pre_key, onetime_pre_key);
        let r: Result<SessionInit, KeyExchangeError> = Ok(init);
        assert(seen_init(r) == message@.outcome(loaded));
        assert(self.keystore.calls() =~= before + message@.calls(loaded));
        r
    }
}

/// A number that was given is one that the random numbers of the operating
/// system have given.
pub(crate) proof fn law_given_number(number: u32)
    requires
        number_given(number),
    ensures
        call_ensures(random_u32, (), number),
{
}

} // verus!
