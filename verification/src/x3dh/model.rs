//! What the key agreement does, as functions of the keys that go into it.
use crate::bytes::{repeated, zeros};
use crate::identity::user_id;
use crate::init::InitState;
use crate::primitives::{
    ed25519_montgomery, hkdf_sha256, identity_secret, sha256, x25519_public, x25519_shared,
};
use crate::store::PreKeyCall;
use super::error::KeyExchangeError;
use vstd::prelude::*;

verus! {

/// What the keys of a session are derived for.
pub const X3DH_INFO: &'static str = "/freesignal/x3dh/v0.1";

/// The 96 bytes that the shared secrets come to.
pub open spec fn session_material(raw: Seq<u8>) -> Seq<u8> {
    hkdf_sha256(Some(zeros(32)), raw, vstd::utf8::encode_utf8(X3DH_INFO@), 96)
}

/// The root key of a session.
pub open spec fn derived_root_key(raw: Seq<u8>) -> Seq<u8> {
    session_material(raw).subrange(0, 32)
}

/// The header key of messages to the end that was asked.
pub open spec fn derived_first_header_key(raw: Seq<u8>) -> Seq<u8> {
    session_material(raw).subrange(32, 64)
}

/// The header key of messages to the end that asked.
pub open spec fn derived_second_header_key(raw: Seq<u8>) -> Seq<u8> {
    session_material(raw).subrange(64, 96)
}

/// The shared secrets in a row, behind 32 bytes of ones.
pub open spec fn raw_material(
    dh1: Seq<u8>,
    dh2: Seq<u8>,
    dh3: Seq<u8>,
    dh4: Option<Seq<u8>>,
) -> Seq<u8> {
    repeated(0xff, 32) + dh1 + dh2 + dh3 + match dh4 {
        Some(dh4) => dh4,
        None => Seq::empty(),
    }
}

/// A bundle of pre-keys, its one-time pre-keys aside.
pub struct Bundle {
    pub identity_key: Seq<u8>,
    pub signed_pre_key: Seq<u8>,
    pub signature: Seq<u8>,
}

/// The message that answers a bundle.
pub struct Message {
    pub identity_key: Seq<u8>,
    pub ephemeral_key: Seq<u8>,
    pub signed_pre_key_hash: Seq<u8>,
    pub onetime_pre_key_hash: Option<Seq<u8>>,
}

/// The shared secrets of the end that asks.
pub open spec fn asking_material(
    signing_key: Seq<u8>,
    ephemeral: Seq<u8>,
    bundle: Bundle,
    onetime_pre_key: Option<Seq<u8>>,
) -> Seq<u8> {
    raw_material(
        x25519_shared(identity_secret(signing_key), bundle.signed_pre_key),
        x25519_shared(ephemeral, ed25519_montgomery(bundle.identity_key)),
        x25519_shared(ephemeral, bundle.signed_pre_key),
        match onetime_pre_key {
            Some(key) => Some(x25519_shared(ephemeral, key)),
            None => None,
        },
    )
}

/// The session of the end that asks.
pub open spec fn asking_init(
    signing_key: Seq<u8>,
    ephemeral: Seq<u8>,
    bundle: Bundle,
    onetime_pre_key: Option<Seq<u8>>,
) -> InitState {
    let raw = asking_material(signing_key, ephemeral, bundle, onetime_pre_key);
    InitState {
        user_id: user_id(bundle.identity_key),
        remote_identity: bundle.identity_key,
        remote_key: Some(bundle.signed_pre_key),
        secret_key: None,
        root_key: derived_root_key(raw),
        header_key: Some(derived_first_header_key(raw)),
        next_header_key: Some(derived_second_header_key(raw)),
    }
}

/// The message that the end that asks sends.
pub open spec fn asking_message(
    identity_key: Seq<u8>,
    ephemeral: Seq<u8>,
    bundle: Bundle,
    onetime_pre_key: Option<Seq<u8>>,
) -> Message {
    Message {
        identity_key,
        ephemeral_key: x25519_public(ephemeral),
        signed_pre_key_hash: sha256(bundle.signed_pre_key),
        onetime_pre_key_hash: match onetime_pre_key {
            Some(key) => Some(sha256(key)),
            None => None,
        },
    }
}

/// The shared secrets of the end that was asked.
pub open spec fn asked_material(
    signing_key: Seq<u8>,
    signed_pre_key: Seq<u8>,
    onetime_pre_key: Option<Seq<u8>>,
    message: Message,
) -> Seq<u8> {
    raw_material(
        x25519_shared(signed_pre_key, ed25519_montgomery(message.identity_key)),
        x25519_shared(identity_secret(signing_key), message.ephemeral_key),
        x25519_shared(signed_pre_key, message.ephemeral_key),
        match onetime_pre_key {
            Some(key) => Some(x25519_shared(key, message.ephemeral_key)),
            None => None,
        },
    )
}

/// The session of the end that was asked.
pub open spec fn asked_init(
    signing_key: Seq<u8>,
    signed_pre_key: Seq<u8>,
    onetime_pre_key: Option<Seq<u8>>,
    message: Message,
) -> InitState {
    let raw = asked_material(signing_key, signed_pre_key, onetime_pre_key, message);
    InitState {
        user_id: user_id(message.identity_key),
        remote_identity: message.identity_key,
        remote_key: None,
        secret_key: Some(signed_pre_key),
        root_key: derived_root_key(raw),
        header_key: Some(derived_second_header_key(raw)),
        next_header_key: Some(derived_first_header_key(raw)),
    }
}

/// The call that stores a signed pre-key.
pub open spec fn signed_pre_key_call(secret: Seq<u8>) -> PreKeyCall {
    PreKeyCall::StorePreKey { prekey_hash: sha256(x25519_public(secret)), prekey: secret }
}

/// Where a one-time pre-key is stored: under the hash of the signed pre-key
/// and its own.
pub open spec fn onetime_hash(signed_pre_key_hash: Seq<u8>, public_key: Seq<u8>) -> Seq<u8> {
    signed_pre_key_hash + sha256(public_key)
}

/// The call that stores a one-time pre-key.
pub open spec fn onetime_pre_key_call(
    signed_pre_key_hash: Seq<u8>,
    secret: Seq<u8>,
) -> PreKeyCall {
    PreKeyCall::StorePreKey {
        prekey_hash: onetime_hash(signed_pre_key_hash, x25519_public(secret)),
        prekey: secret,
    }
}

/// The calls that store one-time pre-keys.
pub open spec fn onetime_pre_key_calls(
    signed_pre_key_hash: Seq<u8>,
    secrets: Seq<Seq<u8>>,
) -> Seq<PreKeyCall> {
    Seq::new(secrets.len(), |i: int| onetime_pre_key_call(signed_pre_key_hash, secrets[i]))
}

/// The calls that make a bundle.
pub open spec fn bundle_calls(
    signed_pre_key: Seq<u8>,
    onetime_pre_keys: Seq<Seq<u8>>,
    signing_key: Seq<u8>,
) -> Seq<PreKeyCall> {
    seq![signed_pre_key_call(signed_pre_key)] + onetime_pre_key_calls(
        sha256(x25519_public(signed_pre_key)),
        onetime_pre_keys,
    ) + seq![PreKeyCall::GetSigningKey { answer: signing_key }]
}

/// What a store answers while a message is taken.
pub struct Loaded {
    pub signed_pre_key: Option<Seq<u8>>,
    pub onetime_pre_key: Option<Seq<u8>>,
    pub removed: bool,
    pub signing_key: Seq<u8>,
}

impl Loaded {
    /// Keys are 32 bytes long.
    pub open spec fn well_formed(self) -> bool {
        &&& (self.signed_pre_key matches Some(key) ==> key.len() == 32)
        &&& (self.onetime_pre_key matches Some(key) ==> key.len() == 32)
        &&& self.signing_key.len() == 32
    }
}

impl Message {
    /// Where the one-time pre-key of the message is stored.
    pub open spec fn onetime_slot(self) -> Option<Seq<u8>> {
        match self.onetime_pre_key_hash {
            Some(hash) => Some(self.signed_pre_key_hash + hash),
            None => None,
        }
    }

    /// What taking the message comes to: every pre-key that it names must be
    /// in the store.
    pub open spec fn outcome(self, loaded: Loaded) -> Result<InitState, KeyExchangeError> {
        match (loaded.signed_pre_key, self.onetime_pre_key_hash) {
            (None, _) => Err(KeyExchangeError::PreKeyNotFound),
            (Some(key), None) => Ok(asked_init(loaded.signing_key, key, None, self)),
            (Some(key), Some(_)) => match loaded.onetime_pre_key {
                None => Err(KeyExchangeError::PreKeyNotFound),
                Some(onetime_pre_key) => Ok(
                    asked_init(loaded.signing_key, key, Some(onetime_pre_key), self),
                ),
            },
        }
    }

    /// The calls that taking the message makes. The one-time pre-key is
    /// removed once it is loaded.
    pub open spec fn calls(self, loaded: Loaded) -> Seq<PreKeyCall> {
        let signed: Seq<PreKeyCall> = seq![
            PreKeyCall::LoadPreKey {
                prekey_hash: self.signed_pre_key_hash,
                answer: loaded.signed_pre_key,
            },
        ];
        let onetime: Seq<PreKeyCall> = match (loaded.signed_pre_key, self.onetime_slot()) {
            (Some(_), Some(slot)) => {
                let load = PreKeyCall::LoadPreKey {
                    prekey_hash: slot,
                    answer: loaded.onetime_pre_key,
                };
                match loaded.onetime_pre_key {
                    Some(_) => seq![
                        load,
                        PreKeyCall::RemovePreKey { prekey_hash: slot, answer: loaded.removed },
                    ],
                    None => seq![load],
                }
            },
            _ => Seq::empty(),
        };
        let signing: Seq<PreKeyCall> = if self.outcome(loaded) is Ok {
            seq![PreKeyCall::GetSigningKey { answer: loaded.signing_key }]
        } else {
            Seq::empty()
        };
        signed + onetime + signing
    }
}

} // verus!
