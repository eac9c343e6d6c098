//! What goes into the keys of a session, what each end learns of the other, and
//! how a bundle, the message that answers it and a store fit together.
use super::error::KeyExchangeError;
use super::exchange::{
    has_accepted, has_been_bundled, number_given, seen_init, KeyExchange, PreKeyBundle,
    PreKeyMessage,
};
use super::laws::{kept_pre_key, law_both_ends_agree, law_bundle_is_stored, maps_to_secret, Keys};
use super::model::{
    asked_init, asked_material, asking_init, asking_material, asking_message, bundle_calls,
    derived_first_header_key, derived_root_key, derived_second_header_key, onetime_hash,
    onetime_pre_key_call, raw_material, signed_pre_key_call, Bundle, Loaded, Message,
};
use crate::identity::user_id;
use crate::init::{InitState, SessionInit};
use crate::keys::drawn;
use crate::primitives::{
    ed25519_accepts, ed25519_montgomery, ed25519_public, ed25519_signature, hkdf_sha256,
    identity_secret, neutral_point, sha256, sha512, x25519_public, x25519_shared,
};
use crate::store::{KeyExchangeStore, PreKeyCall};
use vstd::arithmetic::div_mod::lemma_fundamental_div_mod_converse_mod;
use vstd::prelude::*;

verus! {

/// What the keys of a session are derived from holds 32 bytes of ones and then
/// every shared secret, each in its place: 128 bytes with three secrets, 160
/// with four.
pub proof fn law_key_material(
    dh1: Seq<u8>,
    dh2: Seq<u8>,
    dh3: Seq<u8>,
    dh4: Option<Seq<u8>>,
)
    requires
        dh1.len() == 32,
        dh2.len() == 32,
        dh3.len() == 32,
        dh4 matches Some(dh4) ==> dh4.len() == 32,
    ensures
        ({
            let raw = raw_material(dh1, dh2, dh3, dh4);
            &&& dh4 is None ==> raw.len() == 128
            &&& dh4 is Some ==> raw.len() == 160
            &&& forall|i: int| 0 <= i < 32 ==> raw[i] == 0xff
            &&& raw.subrange(32, 64) == dh1
            &&& raw.subrange(64, 96) == dh2
            &&& raw.subrange(96, 128) == dh3
            &&& dh4 matches Some(dh4) ==> raw.subrange(128, 160) == dh4
        }),
{
    let raw = raw_material(dh1, dh2, dh3, dh4);
    assert(raw.subrange(32, 64) =~= dh1);
    assert(raw.subrange(64, 96) =~= dh2);
    assert(raw.subrange(96, 128) =~= dh3);
    if let Some(dh4) = dh4 {
        assert(raw.subrange(128, 160) =~= dh4);
    }
}

/// Two agreements have the same key material only where all their shared
/// secrets are the same, and both or neither of them has a fourth.
pub proof fn law_key_material_is_told_apart(
    a: (Seq<u8>, Seq<u8>, Seq<u8>, Option<Seq<u8>>),
    b: (Seq<u8>, Seq<u8>, Seq<u8>, Option<Seq<u8>>),
)
    requires
        a.0.len() == 32,
        a.1.len() == 32,
        a.2.len() == 32,
        a.3 matches Some(dh4) ==> dh4.len() == 32,
        b.0.len() == 32,
        b.1.len() == 32,
        b.2.len() == 32,
        b.3 matches Some(dh4) ==> dh4.len() == 32,
        raw_material(a.0, a.1, a.2, a.3) == raw_material(b.0, b.1, b.2, b.3),
    ensures
        a.0 == b.0,
        a.1 == b.1,
        a.2 == b.2,
        a.3 == b.3,
{
    law_key_material(a.0, a.1, a.2, a.3);
    law_key_material(b.0, b.1, b.2, b.3);
}

/// The root key and the two header keys are the three parts of one derivation.
pub proof fn law_session_keys(raw: Seq<u8>)
    ensures
        ({
            let info = vstd::utf8::encode_utf8("/freesignal/x3dh/v0.1"@);
            let okm = hkdf_sha256(Some(Seq::new(32, |i: int| 0u8)), raw, info, 96);
            &&& derived_root_key(raw) == okm.subrange(0, 32)
            &&& derived_first_header_key(raw) == okm.subrange(32, 64)
            &&& derived_second_header_key(raw) == okm.subrange(64, 96)
        }),
{
}

/// The X25519 secret of a signing key is the first half of its SHA-512 digest.
pub proof fn law_identity_secret(signing_key: Seq<u8>)
    requires
        sha512(signing_key).len() == 64,
    ensures
        identity_secret(signing_key).len() == 32,
        identity_secret(signing_key) + sha512(signing_key).subrange(32, 64) == sha512(signing_key),
{
    assert(identity_secret(signing_key) + sha512(signing_key).subrange(32, 64) =~= sha512(
        signing_key,
    ));
}

/// The end that asks combines its identity with the signed pre-key, its
/// ephemeral secret with the identity and with the signed pre-key, and, where
/// there is one, with the one-time pre-key.
pub proof fn law_asking_secrets(
    signing_key: Seq<u8>,
    ephemeral: Seq<u8>,
    bundle: Bundle,
    onetime_pre_key: Option<Seq<u8>>,
)
    requires
        x25519_shared(identity_secret(signing_key), bundle.signed_pre_key).len() == 32,
        x25519_shared(ephemeral, ed25519_montgomery(bundle.identity_key)).len() == 32,
        x25519_shared(ephemeral, bundle.signed_pre_key).len() == 32,
        onetime_pre_key matches Some(key) ==> x25519_shared(ephemeral, key).len() == 32,
    ensures
        ({
            let raw = asking_material(signing_key, ephemeral, bundle, onetime_pre_key);
            let identity = identity_secret(signing_key);
            &&& onetime_pre_key is None ==> raw.len() == 128
            &&& onetime_pre_key is Some ==> raw.len() == 160
            &&& forall|i: int| 0 <= i < 32 ==> raw[i] == 0xff
            &&& raw.subrange(32, 64) == x25519_shared(identity, bundle.signed_pre_key)
            &&& raw.subrange(64, 96) == x25519_shared(
                ephemeral,
                ed25519_montgomery(bundle.identity_key),
            )
            &&& raw.subrange(96, 128) == x25519_shared(ephemeral, bundle.signed_pre_key)
            &&& onetime_pre_key matches Some(key) ==> raw.subrange(128, 160) == x25519_shared(
                ephemeral,
                key,
            )
        }),
{
    law_key_material(
        x25519_shared(identity_secret(signing_key), bundle.signed_pre_key),
        x25519_shared(ephemeral, ed25519_montgomery(bundle.identity_key)),
        x25519_shared(ephemeral, bundle.signed_pre_key),
        match onetime_pre_key {
            Some(key) => Some(x25519_shared(ephemeral, key)),
            None => None,
        },
    );
}

/// The end that was asked combines its signed pre-key with the identity, its
/// identity and its signed pre-key with the ephemeral key, and, where there is
/// one, its one-time pre-key with it.
pub proof fn law_asked_secrets(
    signing_key: Seq<u8>,
    signed_pre_key: Seq<u8>,
    onetime_pre_key: Option<Seq<u8>>,
    message: Message,
)
    requires
        x25519_shared(signed_pre_key, ed25519_montgomery(message.identity_key)).len() == 32,
        x25519_shared(identity_secret(signing_key), message.ephemeral_key).len() == 32,
        x25519_shared(signed_pre_key, message.ephemeral_key).len() == 32,
        onetime_pre_key matches Some(key) ==> x25519_shared(key, message.ephemeral_key).len()
            == 32,
    ensures
        ({
            let raw = asked_material(signing_key, signed_pre_key, onetime_pre_key, message);
            let identity = identity_secret(signing_key);
            &&& onetime_pre_key is None ==> raw.len() == 128
            &&& onetime_pre_key is Some ==> raw.len() == 160
            &&& forall|i: int| 0 <= i < 32 ==> raw[i] == 0xff
            &&& raw.subrange(32, 64) == x25519_shared(
                signed_pre_key,
                ed25519_montgomery(message.identity_key),
            )
            &&& raw.subrange(64, 96) == x25519_shared(identity, message.ephemeral_key)
            &&& raw.subrange(96, 128) == x25519_shared(signed_pre_key, message.ephemeral_key)
            &&& onetime_pre_key matches Some(key) ==> raw.subrange(128, 160) == x25519_shared(
                key,
                message.ephemeral_key,
            )
        }),
{
    law_key_material(
        x25519_shared(signed_pre_key, ed25519_montgomery(message.identity_key)),
        x25519_shared(identity_secret(signing_key), message.ephemeral_key),
        x25519_shared(signed_pre_key, message.ephemeral_key),
        match onetime_pre_key {
            Some(key) => Some(x25519_shared(key, message.ephemeral_key)),
            None => None,
        },
    );
}

/// The session of the end that asks is with the identity of the bundle, turns to
/// its signed pre-key, and has its keys from the shared secrets: the root key,
/// then the header key it sends under, then the one it receives under.
pub proof fn law_asking_session(
    signing_key: Seq<u8>,
    ephemeral: Seq<u8>,
    bundle: Bundle,
    onetime_pre_key: Option<Seq<u8>>,
)
    ensures
        ({
            let init = asking_init(signing_key, ephemeral, bundle, onetime_pre_key);
            let raw = asking_material(signing_key, ephemeral, bundle, onetime_pre_key);
            let info = vstd::utf8::encode_utf8("/freesignal/x3dh/v0.1"@);
            let okm = hkdf_sha256(Some(Seq::new(32, |i: int| 0u8)), raw, info, 96);
            &&& init.user_id == user_id(bundle.identity_key)
            &&& init.remote_identity == bundle.identity_key
            &&& init.remote_key == Some(bundle.signed_pre_key)
            &&& init.secret_key is None
            &&& init.root_key == okm.subrange(0, 32)
            &&& init.header_key == Some(okm.subrange(32, 64))
            &&& init.next_header_key == Some(okm.subrange(64, 96))
        }),
{
}

/// The session of the end that was asked is with the identity of the message,
/// waits for the other end with its signed pre-key, and has its keys from the
/// shared secrets: the root key, then the header key it receives under, then the
/// one it sends under.
pub proof fn law_asked_session(
    signing_key: Seq<u8>,
    signed_pre_key: Seq<u8>,
    onetime_pre_key: Option<Seq<u8>>,
    message: Message,
)
    ensures
        ({
            let init = asked_init(signing_key, signed_pre_key, onetime_pre_key, message);
            let raw = asked_material(signing_key, signed_pre_key, onetime_pre_key, message);
            let info = vstd::utf8::encode_utf8("/freesignal/x3dh/v0.1"@);
            let okm = hkdf_sha256(Some(Seq::new(32, |i: int| 0u8)), raw, info, 96);
            &&& init.user_id == user_id(message.identity_key)
            &&& init.remote_identity == message.identity_key
            &&& init.remote_key is None
            &&& init.secret_key == Some(signed_pre_key)
            &&& init.root_key == okm.subrange(0, 32)
            &&& init.next_header_key == Some(okm.subrange(32, 64))
            &&& init.header_key == Some(okm.subrange(64, 96))
        }),
{
}

/// The message of the end that asks carries its identity, its ephemeral public
/// key, and the hash of each pre-key that it has used.
pub proof fn law_message_names_its_keys(
    identity_key: Seq<u8>,
    ephemeral: Seq<u8>,
    bundle: Bundle,
    onetime_pre_key: Option<Seq<u8>>,
)
    ensures
        ({
            let message = asking_message(identity_key, ephemeral, bundle, onetime_pre_key);
            &&& message.identity_key == identity_key
            &&& message.ephemeral_key == x25519_public(ephemeral)
            &&& message.signed_pre_key_hash == sha256(bundle.signed_pre_key)
            &&& onetime_pre_key is None ==> message.onetime_pre_key_hash is None
            &&& onetime_pre_key matches Some(key) ==> message.onetime_pre_key_hash == Some(
                sha256(key),
            )
        }),
{
}

/// After an agreement each end names the other: its session is with the user
/// and the identity whose signing key the other end holds.
pub proof fn law_each_end_names_the_other(keys: Keys, signature: Seq<u8>)
    ensures
        ({
            let (asking, asked) = (keys.asking(signature), keys.asked(signature));
            let asking_identity = ed25519_public(keys.asking_signing_key);
            let asked_identity = ed25519_public(keys.asked_signing_key);
            &&& asking.user_id == user_id(asked_identity)
            &&& asking.remote_identity == asked_identity
            &&& asked.user_id == user_id(asking_identity)
            &&& asked.remote_identity == asking_identity
        }),
{
}

/// Where a pre-key is stored: a signed one under its hash, a one-time one under
/// the hash of the signed one followed by its own.
pub proof fn law_pre_key_is_stored(signed_pre_key_hash: Seq<u8>, secret: Seq<u8>)
    ensures
        signed_pre_key_call(secret) == (PreKeyCall::StorePreKey {
            prekey_hash: sha256(x25519_public(secret)),
            prekey: secret,
        }),
        onetime_pre_key_call(signed_pre_key_hash, secret) == (PreKeyCall::StorePreKey {
            prekey_hash: signed_pre_key_hash + sha256(x25519_public(secret)),
            prekey: secret,
        }),
{
}

/// What the store is handed for a bundle, call by call: the signed pre-key, then
/// each one-time pre-key in its order. It is then asked for the signing key.
pub proof fn law_bundle_calls(
    signed_pre_key: Seq<u8>,
    onetime_pre_keys: Seq<Seq<u8>>,
    signing_key: Seq<u8>,
)
    ensures
        ({
            let calls = bundle_calls(signed_pre_key, onetime_pre_keys, signing_key);
            let hash = sha256(x25519_public(signed_pre_key));
            &&& calls.len() == onetime_pre_keys.len() + 2
            &&& calls[0] == PreKeyCall::StorePreKey { prekey_hash: hash, prekey: signed_pre_key }
            &&& forall|i: int|
                0 <= i < onetime_pre_keys.len() ==> #[trigger] calls[i + 1]
                    == PreKeyCall::StorePreKey {
                    prekey_hash: hash + sha256(x25519_public(onetime_pre_keys[i])),
                    prekey: onetime_pre_keys[i],
                }
            &&& calls.last() == PreKeyCall::GetSigningKey { answer: signing_key }
        }),
{
}

/// A message is taken where the store has every pre-key that it names, and the
/// session is then made with those; else it fails, for want of a pre-key.
pub proof fn law_taking_a_message(message: Message, loaded: Loaded)
    ensures
        ({
            let outcome = message.outcome(loaded);
            let found = loaded.signed_pre_key is Some && (message.onetime_pre_key_hash is Some
                ==> loaded.onetime_pre_key is Some);
            let used = if message.onetime_pre_key_hash is Some {
                loaded.onetime_pre_key
            } else {
                None
            };
            &&& outcome is Ok <==> found
            &&& outcome matches Err(error) ==> error == KeyExchangeError::PreKeyNotFound
            &&& outcome matches Ok(init) ==> {
                &&& init == asked_init(
                    loaded.signing_key,
                    loaded.signed_pre_key.unwrap(),
                    used,
                    message,
                )
                &&& init.user_id == user_id(message.identity_key)
                &&& init.remote_identity == message.identity_key
                &&& init.secret_key == loaded.signed_pre_key
            }
        }),
{
}

/// What the store is asked while a message is taken, call by call. A one-time
/// pre-key that is found is removed.
pub proof fn law_calls_of_taking_a_message(message: Message, loaded: Loaded)
    ensures
        ({
            let calls = message.calls(loaded);
            let signing = PreKeyCall::GetSigningKey { answer: loaded.signing_key };
            &&& calls.len() >= 1
            &&& calls[0] == PreKeyCall::LoadPreKey {
                prekey_hash: message.signed_pre_key_hash,
                answer: loaded.signed_pre_key,
            }
            &&& loaded.signed_pre_key is None ==> calls.len() == 1
            &&& loaded.signed_pre_key is Some ==> match message.onetime_pre_key_hash {
                None => calls.len() == 2 && calls[1] == signing,
                Some(hash) => {
                    let slot = message.signed_pre_key_hash + hash;
                    &&& message.onetime_slot() == Some(slot)
                    &&& calls[1] == PreKeyCall::LoadPreKey {
                        prekey_hash: slot,
                        answer: loaded.onetime_pre_key,
                    }
                    &&& loaded.onetime_pre_key is None ==> calls.len() == 2
                    &&& loaded.onetime_pre_key is Some ==> {
                        &&& calls.len() == 4
                        &&& calls[2] == PreKeyCall::RemovePreKey {
                            prekey_hash: slot,
                            answer: loaded.removed,
                        }
                        &&& calls[3] == signing
                    }
                },
            }
            &&& message.onetime_pre_key_hash is None ==> message.onetime_slot() is None
        }),
{
}

/// The one-time pre-keys of a bundle are those that it holds, in their order,
/// and a random number picks the one at its remainder: each of them can be
/// picked, and where there are none, none is.
pub proof fn law_picking<const N: usize>(
    bundle: PreKeyBundle<N>,
    number: u32,
    times: int,
    rest: int,
)
    requires
        bundle.onetime().len() > 0 ==> number == times * bundle.onetime().len() + rest,
        bundle.onetime().len() > 0 ==> 0 <= rest < bundle.onetime().len(),
    ensures
        bundle.onetime_pre_keys is None ==> bundle.onetime().len() == 0,
        bundle.onetime_pre_keys matches Some(keys) ==> {
            &&& bundle.onetime().len() == N
            &&& forall|i: int| 0 <= i < N ==> #[trigger] bundle.onetime()[i] == keys[i].0@
        },
        bundle.onetime().len() == 0 ==> bundle.picked(number) is None,
        bundle.onetime().len() > 0 ==> bundle.picked(number) == Some(bundle.onetime()[rest]),
{
    if bundle.onetime().len() > 0 {
        let n = bundle.onetime().len() as int;
        assert(number as int == times * n + rest);
        lemma_fundamental_div_mod_converse_mod(number as int, n, times, rest);
    }
}

/// The view of a bundle, and of a message, holds each of its fields.
pub proof fn law_views<const N: usize>(bundle: PreKeyBundle<N>, message: PreKeyMessage)
    ensures
        bundle@.identity_key == bundle.identity_key@,
        bundle@.signed_pre_key == bundle.signed_pre_key.0@,
        bundle@.signature == bundle.signature.0@,
        message@.identity_key == message.identity_key@,
        message@.ephemeral_key == message.ephemeral_key.0@,
        message@.signed_pre_key_hash == message.signed_pre_key_hash@,
        message.onetime_pre_key_hash is None ==> message@.onetime_pre_key_hash is None,
        message.onetime_pre_key_hash matches Some(hash) ==> message@.onetime_pre_key_hash == Some(
            hash@,
        ),
{
}

/// The view of what taking a message gives holds the session or the error.
pub proof fn law_seen_init(r: Result<SessionInit, KeyExchangeError>)
    ensures
        r matches Ok(init) ==> seen_init(r) == Ok::<InitState, KeyExchangeError>(init@),
        r matches Err(error) ==> seen_init(r) == Err::<InitState, KeyExchangeError>(error),
{
}

/// A bundle holds the public halves of the pre-keys that the store was handed,
/// the signed one signed, and whoever knows its identity by the signing key
/// accepts the signature, unless its first half is the neutral element.
pub proof fn law_bundle_holds_what_was_stored<K: KeyExchangeStore, const N: usize>(
    exchange: KeyExchange<K>,
    bundle: PreKeyBundle<N>,
    before: Seq<PreKeyCall>,
    signed_pre_key: Seq<u8>,
    onetime_pre_keys: Seq<Seq<u8>>,
    signing_key: Seq<u8>,
)
    requires
        has_been_bundled(
            exchange,
            bundle,
            before,
            signed_pre_key,
            onetime_pre_keys,
            signing_key,
        ),
    ensures
        exchange.keystore.calls() == before + bundle_calls(
            signed_pre_key,
            onetime_pre_keys,
            signing_key,
        ),
        bundle@.identity_key == exchange.identity.0@,
        bundle@.signed_pre_key == x25519_public(signed_pre_key),
        bundle@.signature == ed25519_signature(signing_key, x25519_public(signed_pre_key)),
        bundle.onetime().len() == N,
        onetime_pre_keys.len() == N,
        forall|i: int|
            0 <= i < N ==> #[trigger] bundle.onetime()[i] == x25519_public(onetime_pre_keys[i]),
        drawn(signed_pre_key),
        forall|i: int| 0 <= i < N ==> drawn(#[trigger] onetime_pre_keys[i]),
        exchange.identity@ == ed25519_public(signing_key) && bundle@.signature.subrange(0, 32)
            != Seq::new(32, |i: int| if i == 0 { 1u8 } else { 0u8 }) ==> ed25519_accepts(
            bundle@.identity_key,
            bundle@.signed_pre_key,
            bundle@.signature,
        ),
{
    assert(neutral_point() =~= Seq::new(32, |i: int| if i == 0 { 1u8 } else { 0u8 }));
}

/// What starting a session from a bundle has left behind: a session with the
/// identity of the bundle and a message from the identity of this end, both made
/// with one fresh ephemeral secret and with the one-time pre-key that a fresh
/// number picks. The store has been asked for the signing key and nothing else.
pub proof fn law_what_was_accepted<K: KeyExchangeStore, const N: usize>(
    exchange: KeyExchange<K>,
    init: InitState,
    message: Message,
    bundle: PreKeyBundle<N>,
    before: Seq<PreKeyCall>,
    ephemeral: Seq<u8>,
    number: u32,
    signing_key: Seq<u8>,
)
    requires
        has_accepted(
            exchange,
            init,
            message,
            bundle,
            before,
            ephemeral,
            number,
            signing_key,
        ),
    ensures
        drawn(ephemeral),
        number_given(number),
        init == asking_init(signing_key, ephemeral, bundle@, bundle.picked(number)),
        init.user_id == user_id(bundle.identity_key@),
        init.remote_identity == bundle.identity_key@,
        message.identity_key == exchange.identity.0@,
        message.ephemeral_key == x25519_public(ephemeral),
        message.signed_pre_key_hash == sha256(bundle.signed_pre_key.0@),
        message.onetime_pre_key_hash is Some <==> bundle.onetime().len() > 0,
        bundle.picked(number) matches Some(key) ==> message.onetime_pre_key_hash == Some(
            sha256(key),
        ),
        exchange.keystore.calls().len() == before.len() + 1,
        exchange.keystore.calls().drop_last() == before,
        exchange.keystore.calls().last() == (PreKeyCall::GetSigningKey { answer: signing_key }),
{
    assert(exchange.keystore.calls().drop_last() =~= before);
}

/// A whole agreement. One end publishes a bundle, the other starts a session from
/// it, and the first takes the message with a store that has kept what it was
/// handed. The message is taken. Both ends come to the same root key and, crosswise,
/// to the same header keys, and each has a session with the other.
pub proof fn law_agreement<K: KeyExchangeStore, L: KeyExchangeStore, const N: usize>(
    asked: KeyExchange<K>,
    bundle: PreKeyBundle<N>,
    asked_before: Seq<PreKeyCall>,
    signed_pre_key: Seq<u8>,
    onetime_pre_keys: Seq<Seq<u8>>,
    asked_signing_key: Seq<u8>,
    asking: KeyExchange<L>,
    init: InitState,
    message: Message,
    asking_before: Seq<PreKeyCall>,
    ephemeral: Seq<u8>,
    number: u32,
    asking_signing_key: Seq<u8>,
    loaded: Loaded,
)
    requires
        has_been_bundled(
            asked,
            bundle,
            asked_before,
            signed_pre_key,
            onetime_pre_keys,
            asked_signing_key,
        ),
        has_accepted(
            asking,
            init,
            message,
            bundle,
            asking_before,
            ephemeral,
            number,
            asking_signing_key,
        ),
        asked.identity@ == ed25519_public(asked_signing_key),
        asking.identity@ == ed25519_public(asking_signing_key),
        maps_to_secret(asked_signing_key),
        maps_to_secret(asking_signing_key),
        identity_secret(asked_signing_key).len() == 32,
        identity_secret(asking_signing_key).len() == 32,
        sha256(x25519_public(signed_pre_key)).len() == 32,
        forall|i: int|
            0 <= i < N ==> sha256(x25519_public(#[trigger] onetime_pre_keys[i])).len() == 32,
        forall|i: int, j: int|
            0 <= i < j < N ==> sha256(x25519_public(#[trigger] onetime_pre_keys[i])) != sha256(
                x25519_public(#[trigger] onetime_pre_keys[j]),
            ),
        loaded.signing_key == asked_signing_key,
        loaded.signed_pre_key == kept_pre_key(
            asked.keystore.calls(),
            message.signed_pre_key_hash,
        ),
        message.onetime_pre_key_hash matches Some(hash) ==> loaded.onetime_pre_key == kept_pre_key(
            asked.keystore.calls(),
            message.signed_pre_key_hash + hash,
        ),
    ensures
        message.onetime_pre_key_hash is Some <==> N > 0,
        message.outcome(loaded) matches Ok(other) && {
            &&& init.root_key == other.root_key
            &&& init.header_key == other.next_header_key
            &&& init.next_header_key == other.header_key
            &&& init.user_id == user_id(asked.identity@)
            &&& init.remote_identity == asked.identity@
            &&& other.user_id == user_id(asking.identity@)
            &&& other.remote_identity == asking.identity@
            &&& init.remote_key == Some(x25519_public(signed_pre_key))
            &&& other.secret_key == Some(signed_pre_key)
        },
{
    law_bundle_is_stored(asked_before, signed_pre_key, onetime_pre_keys, asked_signing_key);
    let hash = sha256(x25519_public(signed_pre_key));
    let picked = if N > 0 {
        Some(onetime_pre_keys[number as int % N as int])
    } else {
        None
    };
    let keys = Keys {
        asking_signing_key,
        ephemeral,
        asked_signing_key,
        signed_pre_key,
        onetime_pre_key: picked,
    };
    assert(bundle.onetime().len() == N);
    if N > 0 {
        let i = number as int % N as int;
        assert(0 <= i < N);
        assert(bundle.onetime()[i] == x25519_public(onetime_pre_keys[i]));
        assert(kept_pre_key(
            asked.keystore.calls(),
            onetime_hash(hash, x25519_public(onetime_pre_keys[i])),
        ) == Some(onetime_pre_keys[i]));
    }
    assert(bundle.picked(number) == keys.onetime_public_key());
    law_both_ends_agree(keys, bundle@.signature);
    assert(bundle@ == keys.bundle(bundle@.signature));
    assert(message == keys.message(bundle@.signature));
    assert(init == keys.asking(bundle@.signature));
    assert(message.outcome(loaded) == Ok::<InitState, KeyExchangeError>(
        keys.asked(bundle@.signature),
    ));
}

} // verus!
