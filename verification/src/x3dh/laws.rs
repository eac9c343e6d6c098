//! What holds of both ends of a key agreement, and of the pre-keys in a store.
use super::error::KeyExchangeError;
use super::model::{
    asked_init, asked_material, asking_init, asking_material, asking_message, bundle_calls,
    onetime_hash, onetime_pre_key_calls, Bundle, Loaded, Message,
};
use crate::double_ratchet::data::SessionState;
use crate::double_ratchet::laws::{law_sessions_start_in_step, Ends};
use crate::init::InitState;
use crate::keys::agrees_with_all;
use crate::primitives::{ed25519_montgomery, ed25519_public, identity_secret, sha256, x25519_public};
use crate::store::PreKeyCall;
use vstd::prelude::*;

verus! {

/// The keys of both ends: what each of them keeps to itself.
pub struct Keys {
    /// The signing key of the end that asks.
    pub asking_signing_key: Seq<u8>,
    pub ephemeral: Seq<u8>,
    /// The signing key of the end that is asked.
    pub asked_signing_key: Seq<u8>,
    pub signed_pre_key: Seq<u8>,
    pub onetime_pre_key: Option<Seq<u8>>,
}

impl Keys {
    /// Keys are 32 bytes long, and behave as X25519 and Ed25519 keys do:
    /// secrets agree with each other, and an identity maps to the X25519 key
    /// of its signing key.
    pub open spec fn well_formed(self) -> bool {
        &&& self.signed_pre_key.len() == 32
        &&& (self.onetime_pre_key matches Some(key) ==> key.len() == 32)
        &&& identity_secret(self.asking_signing_key).len() == 32
        &&& identity_secret(self.asked_signing_key).len() == 32
        &&& agrees_with_all(self.ephemeral)
        &&& agrees_with_all(self.signed_pre_key)
        &&& maps_to_secret(self.asking_signing_key)
        &&& maps_to_secret(self.asked_signing_key)
    }

    /// What the end that is asked has published.
    pub open spec fn bundle(self, signature: Seq<u8>) -> Bundle {
        Bundle {
            identity_key: ed25519_public(self.asked_signing_key),
            signed_pre_key: x25519_public(self.signed_pre_key),
            signature,
        }
    }

    /// The one-time pre-key that it has published.
    pub open spec fn onetime_public_key(self) -> Option<Seq<u8>> {
        match self.onetime_pre_key {
            Some(key) => Some(x25519_public(key)),
            None => None,
        }
    }

    /// The message of the end that asks.
    pub open spec fn message(self, signature: Seq<u8>) -> Message {
        asking_message(
            ed25519_public(self.asking_signing_key),
            self.ephemeral,
            self.bundle(signature),
            self.onetime_public_key(),
        )
    }

    /// What the end that asks starts its session from.
    pub open spec fn asking(self, signature: Seq<u8>) -> InitState {
        asking_init(
            self.asking_signing_key,
            self.ephemeral,
            self.bundle(signature),
            self.onetime_public_key(),
        )
    }

    /// What the end that is asked starts its session from.
    pub open spec fn asked(self, signature: Seq<u8>) -> InitState {
        asked_init(
            self.asked_signing_key,
            self.signed_pre_key,
            self.onetime_pre_key,
            self.message(signature),
        )
    }
}

/// The identity of a signing key maps to the X25519 key of that signing key.
pub open spec fn maps_to_secret(signing_key: Seq<u8>) -> bool {
    ed25519_montgomery(ed25519_public(signing_key)) == x25519_public(identity_secret(signing_key))
}

/// Both ends come to the same root key, and to the same header keys crosswise,
/// with or without a one-time pre-key. Each knows the other's identity.
pub proof fn law_both_ends_agree(keys: Keys, signature: Seq<u8>)
    requires
        keys.well_formed(),
    ensures
        ({
            let (a, b) = (keys.asking(signature), keys.asked(signature));
            &&& a.root_key == b.root_key
            &&& a.header_key == b.next_header_key
            &&& a.next_header_key == b.header_key
            &&& a.remote_identity == ed25519_public(keys.asked_signing_key)
            &&& b.remote_identity == ed25519_public(keys.asking_signing_key)
            &&& a.remote_key == Some(x25519_public(keys.signed_pre_key))
            &&& b.secret_key == Some(keys.signed_pre_key)
        }),
{
    let message = keys.message(signature);
    let a = asking_material(
        keys.asking_signing_key,
        keys.ephemeral,
        keys.bundle(signature),
        keys.onetime_public_key(),
    );
    let b = asked_material(
        keys.asked_signing_key,
        keys.signed_pre_key,
        keys.onetime_pre_key,
        message,
    );
    assert(crate::keys::agree(identity_secret(keys.asking_signing_key), keys.signed_pre_key));
    assert(crate::keys::agree(identity_secret(keys.asked_signing_key), keys.ephemeral));
    assert(crate::keys::agree(keys.signed_pre_key, keys.ephemeral));
    if let Some(key) = keys.onetime_pre_key {
        assert(crate::keys::agree(key, keys.ephemeral));
    }
    assert(a == b);
}

/// The sessions that both ends start are in step, and so are their header keys:
/// what one sends, the other can read.
pub proof fn law_handshake_starts_sessions_in_step(
    keys: Keys,
    signature: Seq<u8>,
    secret_key: Seq<u8>,
    behind_origin: Seq<u8>,
    earlier_origin: Seq<u8>,
)
    requires
        keys.well_formed(),
        secret_key.len() == 32,
        ed25519_public(keys.asking_signing_key).len() == 32,
        ed25519_public(keys.asked_signing_key).len() == 32,
    ensures
        ({
            let a_identity = ed25519_public(keys.asking_signing_key);
            let b_identity = ed25519_public(keys.asked_signing_key);
            let ends = Ends {
                ahead: SessionState::started(keys.asking(signature), secret_key, a_identity),
                ahead_identity: a_identity,
                behind: SessionState::started(
                    keys.asked(signature),
                    keys.signed_pre_key,
                    b_identity,
                ),
                behind_identity: b_identity,
                behind_origin,
                earlier_origin,
            };
            &&& ends.in_step()
            &&& ends.header_keys_in_step()
        }),
{
    law_both_ends_agree(keys, signature);
    assert(crate::keys::agree(secret_key, keys.signed_pre_key));
    law_sessions_start_in_step(
        keys.asking(signature),
        secret_key,
        ed25519_public(keys.asking_signing_key),
        keys.asked(signature),
        keys.signed_pre_key,
        ed25519_public(keys.asked_signing_key),
        behind_origin,
        earlier_origin,
    );
}

/// The pre-keys that a store holds after the given calls, by hash.
pub open spec fn pre_keys(calls: Seq<PreKeyCall>) -> Map<Seq<u8>, Seq<u8>>
    decreases calls.len(),
{
    if calls.len() == 0 {
        Map::empty()
    } else {
        let earlier = pre_keys(calls.drop_last());
        match calls.last() {
            PreKeyCall::StorePreKey { prekey_hash, prekey } => earlier.insert(prekey_hash, prekey),
            PreKeyCall::RemovePreKey { prekey_hash, .. } => earlier.remove(prekey_hash),
            _ => earlier,
        }
    }
}

/// What such a store answers when it is asked for a pre-key after the given
/// calls.
pub open spec fn kept_pre_key(calls: Seq<PreKeyCall>, hash: Seq<u8>) -> Option<Seq<u8>> {
    if pre_keys(calls).dom().contains(hash) {
        Some(pre_keys(calls)[hash])
    } else {
        None
    }
}

/// A message that names a one-time pre-key and is taken cannot be taken again:
/// a store that keeps what it is handed and removes what it is told to has
/// given the pre-key away, and answers the second time that there is none.
pub proof fn law_onetime_pre_key_is_single_use(
    message: Message,
    before: Seq<PreKeyCall>,
    loaded: Loaded,
    again: Loaded,
)
    requires
        message.signed_pre_key_hash.len() == 32,
        message.onetime_pre_key_hash matches Some(hash) && hash.len() == 32,
        message.outcome(loaded) is Ok,
        again.onetime_pre_key == kept_pre_key(
            before + message.calls(loaded),
            message.onetime_slot().unwrap(),
        ),
    ensures
        message.outcome(again) == Err::<InitState, KeyExchangeError>(
            KeyExchangeError::PreKeyNotFound,
        ),
{
    let slot = message.onetime_slot().unwrap();
    let calls = before + message.calls(loaded);
    let removed = calls.drop_last();
    assert(calls.last() is GetSigningKey);
    assert(removed.last() == PreKeyCall::RemovePreKey {
        prekey_hash: slot,
        answer: loaded.removed,
    });
    assert(pre_keys(calls) == pre_keys(removed));
}

/// One-time pre-keys that are stored behind other calls are found under their
/// own hashes, and leave what is under shorter hashes as it was.
proof fn lemma_onetime_pre_keys_are_kept(
    before: Seq<PreKeyCall>,
    signed_pre_key_hash: Seq<u8>,
    secrets: Seq<Seq<u8>>,
)
    requires
        signed_pre_key_hash.len() == 32,
        forall|i: int|
            0 <= i < secrets.len() ==> sha256(x25519_public(#[trigger] secrets[i])).len() == 32,
        forall|i: int, j: int|
            0 <= i < j < secrets.len() ==> sha256(x25519_public(#[trigger] secrets[i])) != sha256(
                x25519_public(#[trigger] secrets[j]),
            ),
    ensures
        forall|hash: Seq<u8>|
            hash.len() == 32 ==> #[trigger] kept_pre_key(
                before + onetime_pre_key_calls(signed_pre_key_hash, secrets),
                hash,
            ) == kept_pre_key(before, hash),
        forall|i: int|
            0 <= i < secrets.len() ==> kept_pre_key(
                before + onetime_pre_key_calls(signed_pre_key_hash, secrets),
                onetime_hash(signed_pre_key_hash, x25519_public(#[trigger] secrets[i])),
            ) == Some(secrets[i]),
    decreases secrets.len(),
{
    let calls = before + onetime_pre_key_calls(signed_pre_key_hash, secrets);
    if secrets.len() == 0 {
        assert(calls =~= before);
    } else {
        let n = secrets.len() - 1;
        let fewer = secrets.drop_last();
        lemma_onetime_pre_keys_are_kept(before, signed_pre_key_hash, fewer);
        assert(calls.drop_last() =~= before + onetime_pre_key_calls(signed_pre_key_hash, fewer));
        let last = onetime_hash(signed_pre_key_hash, x25519_public(secrets[n]));
        assert(pre_keys(calls) == pre_keys(calls.drop_last()).insert(last, secrets[n]));
        assert forall|hash: Seq<u8>| hash.len() == 32 implies #[trigger] kept_pre_key(calls, hash)
            == kept_pre_key(before, hash) by {
            assert(kept_pre_key(calls.drop_last(), hash) == kept_pre_key(before, hash));
            assert(last.len() == 64);
        }
        assert forall|i: int| 0 <= i < secrets.len() implies kept_pre_key(
            calls,
            onetime_hash(signed_pre_key_hash, x25519_public(#[trigger] secrets[i])),
        ) == Some(secrets[i]) by {
            if i < n {
                let hash = onetime_hash(signed_pre_key_hash, x25519_public(secrets[i]));
                assert(fewer[i] == secrets[i]);
                assert(hash.subrange(32, 64) =~= sha256(x25519_public(secrets[i])));
                assert(last.subrange(32, 64) =~= sha256(x25519_public(secrets[n])));
            }
        }
    }
}

/// A store that keeps what it is handed has every pre-key of a bundle under
/// the hash that a message names it by, where no two one-time pre-keys have
/// the same hash.
pub proof fn law_bundle_is_stored(
    before: Seq<PreKeyCall>,
    signed_pre_key: Seq<u8>,
    onetime_pre_keys: Seq<Seq<u8>>,
    signing_key: Seq<u8>,
)
    requires
        sha256(x25519_public(signed_pre_key)).len() == 32,
        forall|i: int|
            0 <= i < onetime_pre_keys.len() ==> sha256(
                x25519_public(#[trigger] onetime_pre_keys[i]),
            ).len() == 32,
        forall|i: int, j: int|
            0 <= i < j < onetime_pre_keys.len() ==> sha256(
                x25519_public(#[trigger] onetime_pre_keys[i]),
            ) != sha256(x25519_public(#[trigger] onetime_pre_keys[j])),
    ensures
        ({
            let calls = before + bundle_calls(signed_pre_key, onetime_pre_keys, signing_key);
            let hash = sha256(x25519_public(signed_pre_key));
            &&& kept_pre_key(calls, hash) == Some(signed_pre_key)
            &&& forall|i: int|
                0 <= i < onetime_pre_keys.len() ==> kept_pre_key(
                    calls,
                    onetime_hash(hash, x25519_public(#[trigger] onetime_pre_keys[i])),
                ) == Some(onetime_pre_keys[i])
        }),
{
    let calls = before + bundle_calls(signed_pre_key, onetime_pre_keys, signing_key);
    let hash = sha256(x25519_public(signed_pre_key));
    let first = before.push(super::model::signed_pre_key_call(signed_pre_key));
    assert(first.drop_last() =~= before);
    lemma_onetime_pre_keys_are_kept(first, hash, onetime_pre_keys);
    assert(calls.drop_last() =~= first + onetime_pre_key_calls(hash, onetime_pre_keys));
    assert(pre_keys(calls) == pre_keys(calls.drop_last()));
    assert(kept_pre_key(first, hash) == Some(signed_pre_key));
    assert(kept_pre_key(first + onetime_pre_key_calls(hash, onetime_pre_keys), hash) == Some(
        signed_pre_key,
    ));
}

} // verus!
