//! What the two ends of a key agreement come to when they call it.
use super::agreement::{
    law_asking_session, law_bundle_calls, law_bundle_holds_what_was_stored,
    law_calls_of_taking_a_message, law_picking, law_seen_init, law_taking_a_message, law_views,
    law_what_was_accepted,
};
use super::error::KeyExchangeError;
use super::exchange::{
    has_accepted, has_been_bundled, seen_init, KeyExchange, PreKeyBundle, PreKeyMessage,
};
use super::laws::{kept_pre_key, law_both_ends_agree, pre_keys, Keys};
use super::model::{bundle_calls, Loaded};
use crate::identity::{user_id, PublicIdentity};
use crate::init::SessionInit;
use crate::keys::{drawn, KeyHash, PublicKey, SigningKey, StaticSecret, VerifyingKey};
use crate::primitives::{ed25519_accepts, ed25519_signature, sha256, x25519_public};
use crate::store::{seen, KeyExchangeStore, PreKeyCall};
use vstd::prelude::*;

verus! {

/// One end starts a session from a bundle of the other, who starts theirs from
/// the message that answers it. Both come to the same root key and, crosswise, to
/// the same header keys; each names the user and the identity of the other; and
/// the end that asks turns to the key that the other waits with.
pub proof fn law_starting_sessions<const N: usize>(
    asking_key: &SigningKey,
    asking_verifying_key: VerifyingKey,
    asked_key: &SigningKey,
    asked_verifying_key: VerifyingKey,
    ephemeral: &StaticSecret,
    signed_pre_key: StaticSecret,
    signed_public_key: PublicKey,
    onetime_pre_key: Option<StaticSecret>,
    onetime_public_key: Option<PublicKey>,
    bundle: &PreKeyBundle<N>,
    asking: (SessionInit, PreKeyMessage),
    asked: SessionInit,
)
    requires
        call_ensures(SigningKey::verifying_key, (asking_key,), asking_verifying_key),
        call_ensures(SigningKey::verifying_key, (asked_key,), asked_verifying_key),
        call_ensures(PublicKey::from_secret, (&signed_pre_key,), signed_public_key),
        onetime_pre_key is Some <==> onetime_public_key is Some,
        onetime_pre_key matches Some(secret) ==> call_ensures(
            PublicKey::from_secret,
            (&secret,),
            onetime_public_key.unwrap(),
        ),
        bundle.identity_key == asked_verifying_key,
        bundle.signed_pre_key == signed_public_key,
        crate::primitives::identity_secret(asking_key@).len() == 32,
        crate::primitives::identity_secret(asked_key@).len() == 32,
        call_ensures(
            PreKeyBundle::<N>::accept,
            (
                bundle,
                &PublicIdentity(asking_verifying_key),
                asking_key,
                ephemeral,
                onetime_public_key,
            ),
            asking,
        ),
        call_ensures(
            PreKeyMessage::accept,
            (&asking.1, asked_key, signed_pre_key, onetime_pre_key),
            asked,
        ),
    ensures
        asking.0.root_key@ == asked.root_key@,
        seen(asking.0.header_key) == seen(asked.next_header_key),
        seen(asking.0.next_header_key) == seen(asked.header_key),
        asking.0.header_key is Some,
        asking.0.next_header_key is Some,
        asking.0.user_id@ == user_id(asked_verifying_key@),
        asking.0.remote_identity@ == asked_verifying_key@,
        asked.user_id@ == user_id(asking_verifying_key@),
        asked.remote_identity@ == asking_verifying_key@,
        asking.0.remote_key == Some(signed_public_key),
        asking.0.secret_key is None,
        asked.remote_key is None,
        asked.secret_key == Some(signed_pre_key),
        asking.1.identity_key@ == asking_verifying_key@,
        asking.1.onetime_pre_key_hash is Some <==> onetime_pre_key is Some,
{
    let keys = Keys {
        asking_signing_key: asking_key@,
        ephemeral: ephemeral@,
        asked_signing_key: asked_key@,
        signed_pre_key: signed_pre_key@,
        onetime_pre_key: seen(onetime_pre_key),
    };
    let signature = bundle@.signature;
    assert(keys.well_formed());
    assert(seen(onetime_public_key) == keys.onetime_public_key());
    assert(bundle@ == keys.bundle(signature));
    law_both_ends_agree(keys, signature);
    assert(asking.0@ == keys.asking(signature));
    assert(asking.1@ == keys.message(signature));
    assert(asked@ == keys.asked(signature));
}

/// A bundle is taken for genuine where its identity has signed its pre-key, and
/// only there.
pub proof fn law_verifying_a_bundle<const N: usize>(
    bundle: &PreKeyBundle<N>,
    r: Result<(), KeyExchangeError>,
)
    requires
        call_ensures(PreKeyBundle::<N>::verify, (bundle,), r),
    ensures
        r is Ok <==> ed25519_accepts(
            bundle.identity_key@,
            bundle.signed_pre_key@,
            bundle.signature@,
        ),
        r matches Err(error) ==> error == KeyExchangeError::VerificationError,
{
}

/// A pre-key that is made is fresh, and a store that keeps what it is handed has
/// it under the hash that it is known by: a signed one under its own hash, a
/// one-time one under the hash of the signed one followed by its own.
pub proof fn law_made_pre_keys_are_stored<K: KeyExchangeStore>(
    signing: &mut KeyExchange<K>,
    signed: (StaticSecret, KeyHash),
    adding: &mut KeyExchange<K>,
    signed_hash: &[u8],
    onetime: (StaticSecret, KeyHash),
)
    requires
        call_ensures(KeyExchange::<K>::generate_spk, (signing,), signed),
        *old(adding) == *final(signing),
        signed_hash@ == signed.1@,
        call_ensures(KeyExchange::<K>::generate_opk, (adding, signed_hash), onetime),
    ensures
        drawn(signed.0@),
        drawn(onetime.0@),
        signed.1@ == sha256(x25519_public(signed.0@)),
        onetime.1@ == sha256(x25519_public(onetime.0@)),
        kept_pre_key(final(signing).keystore.calls(), signed.1@) == Some(signed.0@),
        kept_pre_key(final(adding).keystore.calls(), signed.1@) == Some(signed.0@),
        kept_pre_key(final(adding).keystore.calls(), signed.1@ + onetime.1@) == Some(onetime.0@),
        final(adding).identity == old(signing).identity,
{
    let first = final(signing).keystore.calls();
    let second = final(adding).keystore.calls();
    assert(first.drop_last() =~= old(signing).keystore.calls());
    assert(second.drop_last() =~= first);
    assert(pre_keys(second) == pre_keys(first).insert(signed.1@ + onetime.1@, onetime.0@));
    assert((signed.1@ + onetime.1@).len() == 64);
    assert(signed.1@.len() == 32);
}

/// A bundle holds the identity of its maker, a signed pre-key and `N` one-time
/// pre-keys, and the store has been handed the secret of each of them, in their
/// order, under the hash that a message names it by. Then the signing key was
/// asked for, which has signed the pre-key.
pub proof fn law_making_a_bundle<K: KeyExchangeStore, const N: usize>(
    exchange: &mut KeyExchange<K>,
    bundle: PreKeyBundle<N>,
)
    requires
        call_ensures(KeyExchange::<K>::create_pre_key_bundle::<N>, (exchange,), bundle),
    ensures
        ({
            let before = old(exchange).keystore.calls();
            let calls = final(exchange).keystore.calls();
            let n = before.len() as int;
            let hash = sha256(bundle.signed_pre_key@);
            &&& final(exchange).identity == old(exchange).identity
            &&& bundle.identity_key == old(exchange).identity.0
            &&& bundle.onetime().len() == N
            &&& calls.len() == n + N + 2
            &&& calls.subrange(0, n) == before
            &&& calls[n] matches PreKeyCall::StorePreKey { prekey_hash, prekey } && {
                &&& prekey_hash == hash
                &&& bundle.signed_pre_key@ == x25519_public(prekey)
                &&& drawn(prekey)
            }
            &&& forall|i: int|
                0 <= i < N ==> (#[trigger] calls[n + 1 + i] matches PreKeyCall::StorePreKey {
                    prekey_hash,
                    prekey,
                } && {
                    &&& prekey_hash == hash + sha256(bundle.onetime()[i])
                    &&& bundle.onetime()[i] == x25519_public(prekey)
                    &&& drawn(prekey)
                })
            &&& calls[n + N + 1] matches PreKeyCall::GetSigningKey { answer } && bundle.signature@
                == ed25519_signature(answer, bundle.signed_pre_key@)
        }),
{
    let before = old(exchange).keystore.calls();
    let (signed_pre_key, secrets, signing_key) = choose|
        signed_pre_key: Seq<u8>,
        secrets: Seq<Seq<u8>>,
        signing_key: Seq<u8>,
    | #[trigger]
        has_been_bundled(*final(exchange), bundle, before, signed_pre_key, secrets, signing_key);
    law_bundle_holds_what_was_stored(
        *final(exchange),
        bundle,
        before,
        signed_pre_key,
        secrets,
        signing_key,
    );
    law_bundle_calls(signed_pre_key, secrets, signing_key);
    let (calls, given) = (
        final(exchange).keystore.calls(),
        bundle_calls(signed_pre_key, secrets, signing_key),
    );
    let n = before.len() as int;
    assert(calls.subrange(0, n) =~= before);
    assert(calls[n] == given[0]);
    assert forall|i: int| 0 <= i < N implies (#[trigger] calls[n + 1 + i]
        == PreKeyCall::StorePreKey {
        prekey_hash: sha256(bundle.signed_pre_key@) + sha256(bundle.onetime()[i]),
        prekey: secrets[i],
    }) by {
        assert(calls[n + 1 + i] == given[i + 1]);
    }
    assert(calls[n + N + 1] == given.last());
}

/// A session is started from a bundle where its identity has signed its pre-key:
/// with that identity, and with a message from this one that names the pre-keys
/// of the bundle. Otherwise nothing happens.
pub proof fn law_answering_a_bundle<K: KeyExchangeStore, const N: usize>(
    exchange: &mut KeyExchange<K>,
    bundle: &PreKeyBundle<N>,
    r: Result<(SessionInit, PreKeyMessage), KeyExchangeError>,
)
    requires
        call_ensures(KeyExchange::<K>::process_pre_key_bundle::<N>, (exchange, bundle), r),
    ensures
        r is Ok <==> ed25519_accepts(
            bundle.identity_key@,
            bundle.signed_pre_key@,
            bundle.signature@,
        ),
        r matches Err(error) ==> error == KeyExchangeError::VerificationError && *final(exchange)
            == *old(exchange),
        r matches Ok((init, message)) ==> {
            let before = old(exchange).keystore.calls();
            let calls = final(exchange).keystore.calls();
            &&& init.user_id@ == user_id(bundle.identity_key@)
            &&& init.remote_identity@ == bundle.identity_key@
            &&& init@.remote_key == Some(bundle.signed_pre_key@)
            &&& init@.secret_key is None
            &&& message.identity_key@ == old(exchange).identity.0@
            &&& message.signed_pre_key_hash@ == sha256(bundle.signed_pre_key@)
            &&& bundle.onetime().len() == 0 ==> message.onetime_pre_key_hash is None
            &&& bundle.onetime().len() > 0 ==> exists|i: int|
                0 <= i < bundle.onetime().len() && message@.onetime_pre_key_hash == Some(
                    sha256(#[trigger] bundle.onetime()[i]),
                )
            &&& exists|ephemeral: Seq<u8>|
                drawn(ephemeral) && message.ephemeral_key@ == #[trigger] x25519_public(ephemeral)
            &&& calls.len() == before.len() + 1
            &&& calls.drop_last() == before
            &&& calls.last() is GetSigningKey
            &&& final(exchange).identity == old(exchange).identity
        },
{
    if let Ok((init, message)) = r {
        let before = old(exchange).keystore.calls();
        let (ephemeral, number, signing_key) = choose|
            ephemeral: Seq<u8>,
            number: u32,
            signing_key: Seq<u8>,
        | #[trigger]
            has_accepted(
                *final(exchange),
                init@,
                message@,
                *bundle,
                before,
                ephemeral,
                number,
                signing_key,
            );
        law_what_was_accepted(
            *final(exchange),
            init@,
            message@,
            *bundle,
            before,
            ephemeral,
            number,
            signing_key,
        );
        law_asking_session(signing_key, ephemeral, bundle@, bundle.picked(number));
        law_views(*bundle, message);
        assert(message.ephemeral_key@ == x25519_public(ephemeral));
        if bundle.onetime().len() > 0 {
            let n = bundle.onetime().len() as int;
            let (times, rest) = (number as int / n, number as int % n);
            assert(number == times * n + rest) by (nonlinear_arith)
                requires
                    n > 0,
                    times == number as int / n,
                    rest == number as int % n,
            ;
            law_picking(*bundle, number, times, rest);
            assert(message@.onetime_pre_key_hash == Some(sha256(bundle.onetime()[rest])));
        }
    }
}

/// A message is taken where the store has every pre-key that it names: the
/// session is then with the identity of the message and waits with the signed
/// pre-key, and the one-time pre-key has been removed from the store. Otherwise a
/// pre-key is missing, and nothing is removed.
pub proof fn law_answering_a_message<K: KeyExchangeStore>(
    exchange: &mut KeyExchange<K>,
    message: PreKeyMessage,
    r: Result<SessionInit, KeyExchangeError>,
)
    requires
        call_ensures(KeyExchange::<K>::process_pre_key_message, (exchange, message), r),
    ensures
        ({
            let before = old(exchange).keystore.calls();
            let calls = final(exchange).keystore.calls();
            let n = before.len() as int;
            let hash = message.signed_pre_key_hash@;
            &&& final(exchange).identity == old(exchange).identity
            &&& calls.len() > n
            &&& calls.subrange(0, n) == before
            &&& r matches Err(error) ==> error == KeyExchangeError::PreKeyNotFound
            &&& r matches Ok(init) ==> {
                &&& init.user_id@ == user_id(message.identity_key@)
                &&& init.remote_identity@ == message.identity_key@
                &&& init.remote_key is None
                &&& calls.last() is GetSigningKey
            }
            &&& calls[n] matches PreKeyCall::LoadPreKey { prekey_hash, answer } && {
                &&& prekey_hash == hash
                &&& answer is None ==> r is Err && calls.len() == n + 1
                &&& r matches Ok(init) ==> init@.secret_key == answer && answer is Some
                &&& answer is Some && message.onetime_pre_key_hash is None ==> r is Ok
                    && calls.len() == n + 2
                &&& answer is Some ==> (message.onetime_pre_key_hash matches Some(own) ==> (
                calls[n + 1] matches PreKeyCall::LoadPreKey {
                    prekey_hash: slot,
                    answer: onetime,
                } && {
                    &&& slot == hash + own@
                    &&& onetime is None ==> r is Err && calls.len() == n + 2
                    &&& onetime is Some ==> {
                        &&& r is Ok
                        &&& calls.len() == n + 4
                        &&& calls[n + 2] matches PreKeyCall::RemovePreKey {
                            prekey_hash: gone,
                            ..
                        } && gone == slot
                    }
                }))
            }
        }),
{
    let before = old(exchange).keystore.calls();
    let loaded = choose|loaded: Loaded|
        {
            &&& loaded.well_formed()
            &&& seen_init(r) == #[trigger] message@.outcome(loaded)
            &&& final(exchange).keystore.calls() == before + message@.calls(loaded)
        };
    law_seen_init(r);
    law_taking_a_message(message@, loaded);
    law_calls_of_taking_a_message(message@, loaded);
    let (calls, given) = (final(exchange).keystore.calls(), message@.calls(loaded));
    let n = before.len() as int;
    assert(calls.subrange(0, n) =~= before);
    assert(forall|i: int| 0 <= i < given.len() ==> #[trigger] given[i] == calls[n + i]);
    assert(calls[n] == given[0]);
    if r is Ok {
        assert(calls.last() == given.last());
    }
}

} // verus!
