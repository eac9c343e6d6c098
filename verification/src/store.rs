//! What the protocol keeps in a store that its user provides.
//!
//! A store is free to answer as it likes. What the protocol promises is what
//! it asks of the store: every call, with its arguments and the answer to it,
//! in the order of the calls. A store whose answers follow from the earlier
//! calls is described in [`crate::double_ratchet::laws`] and
//! [`crate::x3dh::laws`].
use crate::header::HeaderKey;
use crate::keys::{HashKey, SessionTag, SigningKey, StaticSecret, VerifyingKey};
use crate::message::MessageKey;
use vstd::prelude::*;

verus! {

/// The state of a session, as a store keeps it.
pub trait Data: View + Sized {
    /// The tag of the session.
    spec fn tag_of(state: Self::V) -> Seq<u8>;

    /// The encoding of a state.
    spec fn encoded(state: Self::V) -> Seq<u8>;

    /// Whether the bytes encode a state.
    spec fn readable(bytes: Seq<u8>) -> bool;

    /// The state that the bytes encode.
    spec fn decoded(bytes: Seq<u8>) -> Self::V;

    fn get_session_tag(&self) -> (r: SessionTag)
        ensures
            r@ == Self::tag_of(self@),
    ;

    fn to_bytes(&self) -> (r: Vec<u8>)
        ensures
            r@ == Self::encoded(self@),
    ;

    fn from_bytes(bytes: &[u8]) -> (r: Self)
        requires
            Self::readable(bytes@),
        ensures
            r@ == Self::decoded(bytes@),
    ;
}

/// One call of a session store: what was handed in, and the answer. `V` is
/// the state of a session.
#[allow(inconsistent_fields)]
pub enum StoreCall<V> {
    GetVerifyingKey { answer: Seq<u8> },
    SetHeaderKey { hash_key: Seq<u8>, value: Seq<u8> },
    GetHeaderKey { hash_key: Seq<u8>, answer: Option<Seq<u8>> },
    SetData { session: V },
    SetHashKey { hash_key: Seq<u8>, session_tag: Seq<u8> },
    GetDataByHash { hash_key: Seq<u8>, answer: Option<V> },
    GetDataByTag { session_tag: Seq<u8>, answer: Option<V> },
    SetPreviousKeys { session_tag: Seq<u8>, value: Seq<u8> },
    GetPreviousKeys { session_tag: Seq<u8>, answer: Option<Seq<u8>> },
    DelPreviousKeys { session_tag: Option<Seq<u8>>, answer: bool },
    HasPreviousKeys { answer: bool },
    Commit,
    Rollback { answer: bool },
}

/// The view of an optional value.
pub open spec fn seen<T: View>(value: Option<T>) -> Option<T::V> {
    match value {
        Some(v) => Some(v@),
        None => None,
    }
}

/// Keeps the keys that headers are encrypted under.
pub trait HeaderKeyStore<D: Data> {
    /// The calls that the store has answered so far. A store that is proved to
    /// keep its contract defines them; one in ordinary Rust need not.
    closed spec fn calls(&self) -> Seq<StoreCall<D::V>> {
        Seq::empty()
    }

    fn set_header_key(&mut self, hash_key: &HashKey, value: &HeaderKey)
        ensures
            final(self).calls() == old(self).calls().push(
                StoreCall::SetHeaderKey { hash_key: hash_key@, value: value@ },
            ),
    ;

    fn get_header_key(&mut self, hash_key: &HashKey) -> (r: Option<HeaderKey>)
        ensures
            final(self).calls() == old(self).calls().push(
                StoreCall::GetHeaderKey { hash_key: hash_key@, answer: seen(r) },
            ),
    ;
}

/// Keeps sessions and the keys of skipped messages.
pub trait SessionKeyStore<D: Data>: HeaderKeyStore<D> {
    /// The identity that the sessions belong to.
    fn get_verifying_key(&mut self) -> (r: VerifyingKey)
        ensures
            final(self).calls() == old(self).calls().push(
                StoreCall::GetVerifyingKey { answer: r@ },
            ),
    ;

    fn set_data(&mut self, session: &D)
        ensures
            final(self).calls() == old(self).calls().push(
                StoreCall::SetData { session: session@ },
            ),
    ;

    fn set_hash_key(&mut self, hash_key: &HashKey, session_tag: &SessionTag)
        ensures
            final(self).calls() == old(self).calls().push(
                StoreCall::SetHashKey { hash_key: hash_key@, session_tag: session_tag@ },
            ),
    ;

    fn get_data_by_hash(&mut self, hash_key: &HashKey) -> (r: Option<D>)
        ensures
            final(self).calls() == old(self).calls().push(
                StoreCall::GetDataByHash { hash_key: hash_key@, answer: seen(r) },
            ),
    ;

    fn get_data_by_tag(&mut self, session_tag: &SessionTag) -> (r: Option<D>)
        ensures
            final(self).calls() == old(self).calls().push(
                StoreCall::GetDataByTag { session_tag: session_tag@, answer: seen(r) },
            ),
    ;

    fn set_previous_keys(&mut self, session_tag: &SessionTag, value: &MessageKey)
        ensures
            final(self).calls() == old(self).calls().push(
                StoreCall::SetPreviousKeys { session_tag: session_tag@, value: value@ },
            ),
    ;

    fn get_previous_keys(&mut self, session_tag: &SessionTag) -> (r: Option<MessageKey>)
        ensures
            final(self).calls() == old(self).calls().push(
                StoreCall::GetPreviousKeys { session_tag: session_tag@, answer: seen(r) },
            ),
    ;

    fn del_previous_keys(&mut self, session_tag: Option<&SessionTag>) -> (r: bool)
        ensures
            final(self).calls() == old(self).calls().push(
                StoreCall::DelPreviousKeys {
                    session_tag: match session_tag {
                        Some(tag) => Some(tag@),
                        None => None,
                    },
                    answer: r,
                },
            ),
    ;

    fn has_previous_keys(&mut self) -> (r: bool)
        ensures
            final(self).calls() == old(self).calls().push(
                StoreCall::HasPreviousKeys { answer: r },
            ),
    ;

    fn commit(&mut self)
        ensures
            final(self).calls() == old(self).calls().push(StoreCall::Commit),
    ;

    fn rollback(&mut self) -> (r: bool)
        ensures
            final(self).calls() == old(self).calls().push(StoreCall::Rollback { answer: r }),
    ;
}

/// One call of a pre-key store: what was handed in, and the answer.
#[allow(inconsistent_fields)]
pub enum PreKeyCall {
    GetSigningKey { answer: Seq<u8> },
    StorePreKey { prekey_hash: Seq<u8>, prekey: Seq<u8> },
    LoadPreKey { prekey_hash: Seq<u8>, answer: Option<Seq<u8>> },
    RemovePreKey { prekey_hash: Seq<u8>, answer: bool },
}

/// Keeps the signing key of an identity and the pre-keys that it has handed
/// out.
pub trait KeyExchangeStore {
    /// The calls that the store has answered so far. A store that is proved to
    /// keep its contract defines them; one in ordinary Rust need not.
    closed spec fn calls(&self) -> Seq<PreKeyCall> {
        Seq::empty()
    }

    fn get_signing_key(&mut self) -> (r: SigningKey)
        ensures
            final(self).calls() == old(self).calls().push(
                PreKeyCall::GetSigningKey { answer: r@ },
            ),
    ;

    fn store_pre_key(&mut self, prekey_hash: &[u8], prekey: &StaticSecret)
        ensures
            final(self).calls() == old(self).calls().push(
                PreKeyCall::StorePreKey { prekey_hash: prekey_hash@, prekey: prekey@ },
            ),
    ;

    fn load_pre_key(&mut self, prekey_hash: &[u8]) -> (r: Option<StaticSecret>)
        ensures
            final(self).calls() == old(self).calls().push(
                PreKeyCall::LoadPreKey { prekey_hash: prekey_hash@, answer: seen(r) },
            ),
    ;

    fn remove_pre_key(&mut self, prekey_hash: &[u8]) -> (r: bool)
        ensures
            final(self).calls() == old(self).calls().push(
                PreKeyCall::RemovePreKey { prekey_hash: prekey_hash@, answer: r },
            ),
    ;
}

/// The view of an optional value is there where the value is.
pub proof fn law_seen<T: View>(value: Option<T>)
    ensures
        value is None <==> seen(value) is None,
        value matches Some(v) ==> seen(value) == Some(v@),
{
}

} // verus!
