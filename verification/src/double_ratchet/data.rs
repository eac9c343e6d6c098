//! The state of a session, and its encoding.
use super::chain::{
    decoded_chain, encoded_chain, lemma_chain_from_bytes, lemma_chain_round_trip, ChainKey,
    ChainState,
};
use super::header_keys::{
    lemma_header_keys_from_bytes, lemma_header_keys_round_trip, HeaderKeys, HeaderKeysState,
};
use super::root::{lemma_root_from_bytes, lemma_root_round_trip, RootKey, RootState};
use crate::bytes::{append_bytes, take_array, zero_array, zeros};
use crate::keys::{SessionTag, VerifyingKey};
use crate::primitives::ed25519_is_key;
use crate::store::{seen, Data};
use vstd::prelude::*;

verus! {

/// The length of an encoded session.
pub const SESSION_DATA_SIZE: usize = 400;

pub struct SessionData {
    pub session_tag: SessionTag,
    /// The identity of the other end.
    pub remote_identity: VerifyingKey,
    pub root_key: RootKey,
    pub sending_header_keys: HeaderKeys,
    pub receiving_header_keys: HeaderKeys,
    pub sending_chain_key: Option<ChainKey>,
    pub receiving_chain_key: Option<ChainKey>,
}

/// A session whose keys are byte strings.
#[verifier::ext_equal]
pub struct SessionState {
    pub session_tag: Seq<u8>,
    pub remote_identity: Seq<u8>,
    pub root_key: RootState,
    pub sending_header_keys: HeaderKeysState,
    pub receiving_header_keys: HeaderKeysState,
    pub sending_chain_key: Option<ChainState>,
    pub receiving_chain_key: Option<ChainState>,
}

impl View for SessionData {
    type V = SessionState;

    open spec fn view(&self) -> SessionState {
        SessionState {
            session_tag: self.session_tag@,
            remote_identity: self.remote_identity@,
            root_key: self.root_key@,
            sending_header_keys: self.sending_header_keys@,
            receiving_header_keys: self.receiving_header_keys@,
            sending_chain_key: seen(self.sending_chain_key),
            receiving_chain_key: seen(self.receiving_chain_key),
        }
    }
}

pub(crate) fn clone_chain(chain: &Option<ChainKey>) -> (r: Option<ChainKey>)
    ensures
        r == *chain,
{
    match chain {
        Some(c) => Some(c.clone()),
        None => None,
    }
}

impl Clone for SessionData {
    fn clone(&self) -> (r: Self)
        ensures
            r == *self,
    {
        SessionData {
            session_tag: self.session_tag.clone(),
            remote_identity: self.remote_identity,
            root_key: self.root_key.clone(),
            sending_header_keys: self.sending_header_keys.clone(),
            receiving_header_keys: self.receiving_header_keys.clone(),
            sending_chain_key: clone_chain(&self.sending_chain_key),
            receiving_chain_key: clone_chain(&self.receiving_chain_key),
        }
    }
}

impl SessionState {
    pub open spec fn encoded(self) -> Seq<u8> {
        self.session_tag + self.remote_identity + self.root_key.encoded()
            + self.sending_header_keys.encoded() + self.receiving_header_keys.encoded()
            + encoded_chain(self.sending_chain_key) + encoded_chain(self.receiving_chain_key)
    }

    /// The session that 400 bytes encode.
    pub open spec fn decoded(bytes: Seq<u8>) -> Self {
        SessionState {
            session_tag: bytes.subrange(0, 32),
            remote_identity: bytes.subrange(32, 64),
            root_key: RootState::decoded(bytes.subrange(64, 128)),
            sending_header_keys: HeaderKeysState::decoded(bytes.subrange(128, 192)),
            receiving_header_keys: HeaderKeysState::decoded(bytes.subrange(192, 256)),
            sending_chain_key: decoded_chain(bytes.subrange(256, 328)),
            receiving_chain_key: decoded_chain(bytes.subrange(328, 400)),
        }
    }

    /// Keys are 32 bytes long.
    pub open spec fn well_formed(self) -> bool {
        &&& self.session_tag.len() == 32
        &&& self.remote_identity.len() == 32
        &&& self.root_key.well_formed()
        &&& self.sending_header_keys.well_formed()
        &&& self.receiving_header_keys.well_formed()
        &&& (self.sending_chain_key matches Some(c) ==> c.well_formed())
        &&& (self.receiving_chain_key matches Some(c) ==> c.well_formed())
    }

    /// No header key and no chain is all zeros, which an encoding takes for
    /// none.
    pub open spec fn encodable(self) -> bool {
        &&& self.sending_header_keys.encodable()
        &&& self.receiving_header_keys.encodable()
        &&& (self.sending_chain_key matches Some(c) ==> c.encoded() != zeros(72))
        &&& (self.receiving_chain_key matches Some(c) ==> c.encoded() != zeros(72))
    }
}

/// Every session is well formed.
pub proof fn lemma_session_well_formed(data: SessionData)
    ensures
        data@.well_formed(),
{
    crate::keys::lemma_verifying_key_length(data.remote_identity);
}

impl Data for SessionData {
    open spec fn tag_of(state: SessionState) -> Seq<u8> {
        state.session_tag
    }

    open spec fn encoded(state: SessionState) -> Seq<u8> {
        state.encoded()
    }

    open spec fn readable(bytes: Seq<u8>) -> bool {
        bytes.len() == SESSION_DATA_SIZE && ed25519_is_key(bytes.subrange(32, 64))
    }

    open spec fn decoded(bytes: Seq<u8>) -> SessionState {
        SessionState::decoded(bytes)
    }

    fn get_session_tag(&self) -> SessionTag {
        self.session_tag.clone()
    }

    fn to_bytes(&self) -> Vec<u8> {
        let none: [u8; 72] = zero_array();
        let mut raw: Vec<u8> = Vec::with_capacity(SESSION_DATA_SIZE);
        append_bytes(&mut raw, self.session_tag.0.as_slice());
        append_bytes(&mut raw, self.remote_identity.as_bytes().as_slice());
        append_bytes(&mut raw, self.root_key.to_bytes().as_slice());
        append_bytes(&mut raw, self.sending_header_keys.to_bytes().as_slice());
        append_bytes(&mut raw, self.receiving_header_keys.to_bytes().as_slice());
        match &self.sending_chain_key {
            Some(chain) => append_bytes(&mut raw, chain.to_bytes().as_slice()),
            None => append_bytes(&mut raw, none.as_slice()),
        }
        match &self.receiving_chain_key {
            Some(chain) => append_bytes(&mut raw, chain.to_bytes().as_slice()),
            None => append_bytes(&mut raw, none.as_slice()),
        }
        assert(raw@ =~= self@.encoded());
        raw
    }

    fn from_bytes(bytes: &[u8]) -> Self {
        let identity: [u8; 32] = take_array(bytes, 32);
        let sending: [u8; 72] = take_array(bytes, 256);
        let receiving: [u8; 72] = take_array(bytes, 328);
        SessionData {
            session_tag: SessionTag(take_array(bytes, 0)),
            remote_identity: VerifyingKey::from_bytes(&identity).expect("the key is well-formed"),
            root_key: RootKey::from(&take_array(bytes, 64)),
            sending_header_keys: HeaderKeys::from_bytes(&take_array(bytes, 128)),
            receiving_header_keys: HeaderKeys::from_bytes(&take_array(bytes, 192)),
            sending_chain_key: ChainKey::from_bytes(sending.as_slice()),
            receiving_chain_key: ChainKey::from_bytes(receiving.as_slice()),
        }
    }
}

impl SessionData {
    /// The session that the bytes encode, if they encode one.
    pub fn try_from_bytes(bytes: &[u8]) -> (r: Option<Self>)
        ensures
            r is Some <==> Self::readable(bytes@),
            r matches Some(data) ==> data@ == SessionState::decoded(bytes@),
    {
        if bytes.len() != SESSION_DATA_SIZE {
            return None;
        }
        match VerifyingKey::from_bytes(&take_array(bytes, 32)) {
            Ok(_) => Some(Self::from_bytes(bytes)),
            Err(_) => None,
        }
    }
}

/// A session is 400 bytes long when encoded, and decodes to itself unless one
/// of its header keys or chains is all zeros.
pub proof fn lemma_session_round_trip(state: SessionState)
    requires
        state.well_formed(),
    ensures
        state.encoded().len() == SESSION_DATA_SIZE,
        state.encodable() ==> SessionState::decoded(state.encoded()) == state,
{
    let bytes = state.encoded();
    lemma_root_round_trip(state.root_key);
    lemma_header_keys_round_trip(state.sending_header_keys);
    lemma_header_keys_round_trip(state.receiving_header_keys);
    if let Some(chain) = state.sending_chain_key {
        lemma_chain_round_trip(chain);
    }
    if let Some(chain) = state.receiving_chain_key {
        lemma_chain_round_trip(chain);
    }
    assert(bytes.subrange(0, 32) =~= state.session_tag);
    assert(bytes.subrange(32, 64) =~= state.remote_identity);
    assert(bytes.subrange(64, 128) =~= state.root_key.encoded());
    assert(bytes.subrange(128, 192) =~= state.sending_header_keys.encoded());
    assert(bytes.subrange(192, 256) =~= state.receiving_header_keys.encoded());
    assert(bytes.subrange(256, 328) =~= encoded_chain(state.sending_chain_key));
    assert(bytes.subrange(328, 400) =~= encoded_chain(state.receiving_chain_key));
}

/// Any 400 bytes decode to a session that encodes to the same bytes.
pub proof fn lemma_session_from_bytes(bytes: Seq<u8>)
    requires
        bytes.len() == SESSION_DATA_SIZE,
    ensures
        SessionState::decoded(bytes).well_formed(),
        SessionState::decoded(bytes).encodable(),
        SessionState::decoded(bytes).encoded() == bytes,
{
    lemma_root_from_bytes(bytes.subrange(64, 128));
    lemma_header_keys_from_bytes(bytes.subrange(128, 192));
    lemma_header_keys_from_bytes(bytes.subrange(192, 256));
    lemma_chain_from_bytes(bytes.subrange(256, 328));
    lemma_chain_from_bytes(bytes.subrange(328, 400));
    assert(SessionState::decoded(bytes).encoded() =~= bytes);
}

/// Where each part of an encoded session stands.
pub proof fn law_session_layout(state: SessionState)
    requires
        state.well_formed(),
    ensures
        state.encoded().len() == 400,
        state.encoded().subrange(0, 32) == state.session_tag,
        state.encoded().subrange(32, 64) == state.remote_identity,
        state.encoded().subrange(64, 128) == state.root_key.encoded(),
        state.encoded().subrange(128, 192) == state.sending_header_keys.encoded(),
        state.encoded().subrange(192, 256) == state.receiving_header_keys.encoded(),
        state.sending_chain_key matches Some(chain) ==> state.encoded().subrange(256, 328)
            == chain.encoded(),
        state.receiving_chain_key matches Some(chain) ==> state.encoded().subrange(328, 400)
            == chain.encoded(),
        state.sending_chain_key is None ==> forall|i: int|
            256 <= i < 328 ==> state.encoded()[i] == 0,
        state.receiving_chain_key is None ==> forall|i: int|
            328 <= i < 400 ==> state.encoded()[i] == 0,
{
    lemma_session_round_trip(state);
    let bytes = state.encoded();
    lemma_root_round_trip(state.root_key);
    lemma_header_keys_round_trip(state.sending_header_keys);
    lemma_header_keys_round_trip(state.receiving_header_keys);
    if let Some(chain) = state.sending_chain_key {
        lemma_chain_round_trip(chain);
    }
    if let Some(chain) = state.receiving_chain_key {
        lemma_chain_round_trip(chain);
    }
    assert(bytes.subrange(0, 32) =~= state.session_tag);
    assert(bytes.subrange(32, 64) =~= state.remote_identity);
    assert(bytes.subrange(64, 128) =~= state.root_key.encoded());
    assert(bytes.subrange(128, 192) =~= state.sending_header_keys.encoded());
    assert(bytes.subrange(192, 256) =~= state.receiving_header_keys.encoded());
    assert(bytes.subrange(256, 328) =~= encoded_chain(state.sending_chain_key));
    assert(bytes.subrange(328, 400) =~= encoded_chain(state.receiving_chain_key));
    if state.sending_chain_key is None {
        assert forall|i: int| 256 <= i < 328 implies bytes[i] == 0 by {
            assert(bytes.subrange(256, 328)[i - 256] == 0);
        }
    }
    if state.receiving_chain_key is None {
        assert forall|i: int| 328 <= i < 400 implies bytes[i] == 0 by {
            assert(bytes.subrange(328, 400)[i - 328] == 0);
        }
    }
}

/// Bytes encode a session where there are 400 of them and the identity among
/// them is a verifying key; the session then encodes to the same bytes, and is
/// filed under the tag that they start with.
pub proof fn law_session_reading(bytes: Seq<u8>)
    ensures
        <SessionData as Data>::readable(bytes) <==> bytes.len() == 400 && ed25519_is_key(
            bytes.subrange(32, 64),
        ),
        bytes.len() == 400 ==> {
            let state = <SessionData as Data>::decoded(bytes);
            &&& <SessionData as Data>::encoded(state) == bytes
            &&& state.encoded() == bytes
            &&& <SessionData as Data>::tag_of(state) == bytes.subrange(0, 32)
            &&& state.session_tag == bytes.subrange(0, 32)
            &&& state.remote_identity == bytes.subrange(32, 64)
            &&& state.root_key.secret_key == bytes.subrange(64, 96)
            &&& state.root_key.key == bytes.subrange(96, 128)
            &&& state.sending_header_keys == HeaderKeysState::decoded(bytes.subrange(128, 192))
            &&& state.receiving_header_keys == HeaderKeysState::decoded(bytes.subrange(192, 256))
            &&& state.sending_chain_key == decoded_chain(bytes.subrange(256, 328))
            &&& state.receiving_chain_key == decoded_chain(bytes.subrange(328, 400))
        },
{
    if bytes.len() == 400 {
        lemma_session_from_bytes(bytes);
        let state = SessionState::decoded(bytes);
        law_session_layout(state);
        let root = bytes.subrange(64, 128);
        assert(state.root_key.secret_key =~= bytes.subrange(64, 96)) by {
            assert(root.subrange(0, 32) =~= bytes.subrange(64, 96));
        }
        assert(state.root_key.key =~= bytes.subrange(96, 128)) by {
            assert(root.subrange(32, 64) =~= bytes.subrange(96, 128));
        }
    }
}

/// A session is filed under its tag.
pub proof fn law_session_tag(state: SessionState)
    ensures
        <SessionData as Data>::tag_of(state) == state.session_tag,
        <SessionData as Data>::encoded(state) == state.encoded(),
{
}

/// The view of a session holds each of its fields.
pub proof fn law_session_view(data: SessionData)
    ensures
        data@.session_tag == data.session_tag.0@,
        data@.remote_identity == data.remote_identity@,
        data@.root_key == data.root_key@,
        data@.sending_header_keys == data.sending_header_keys@,
        data@.receiving_header_keys == data.receiving_header_keys@,
        data.sending_chain_key matches Some(chain) ==> data@.sending_chain_key == Some(chain@),
        data.sending_chain_key is None ==> data@.sending_chain_key is None,
        data.receiving_chain_key matches Some(chain) ==> data@.receiving_chain_key == Some(chain@),
        data.receiving_chain_key is None ==> data@.receiving_chain_key is None,
{
}

} // verus!
