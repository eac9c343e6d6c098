//! The steps of a session that need no store.
use super::chain::ChainKey;
use super::data::{SessionData, SessionState};
use super::error::DoubleRatchetError;
use super::header_keys::HeaderKeys;
use super::model::{turn_info, MAX_SKIP, SESSION_INFO, SESSION_TAG_INFO};
use super::root::RootKey;
use super::session_header::{HeaderState, SessionHeader};
use crate::bytes::{is_before, overwrite, zero_array};
use crate::header::{decrypted_header, Header, HeaderKey};
use crate::init::SessionInit;
use crate::keys::{PublicKey, SessionTag, StaticSecret, VerifyingKey};
use crate::primitives::{hkdf_sha256_derive, wipe};
use crate::store::{seen, StoreCall};
use vstd::prelude::*;

verus! {

/// The name of the ratchet of a session takes up 31 bytes.
proof fn lemma_session_info_length()
    ensures
        vstd::utf8::encode_utf8(SESSION_INFO@).len() == 31,
{
    reveal_strlit("/freesignal/double_ratchet/v0.1");
    assert(SESSION_INFO.is_ascii());
    vstd::string::is_ascii_spec_bytes(SESSION_INFO);
}

impl SessionData {
    /// The state of a session before any turn of its ratchet.
    pub fn start(init: &SessionInit, secret_key: StaticSecret) -> (r: SessionData)
        ensures
            r@ == SessionState::unturned(init@, secret_key@),
    {
        let salt: [u8; 32] = zero_array();
        let tag: [u8; 32] = hkdf_sha256_derive(
            Some(salt.as_slice()),
            init.root_key.0.as_slice(),
            SESSION_TAG_INFO.as_bytes(),
        ).expect("the length is in range");
        SessionData {
            session_tag: SessionTag(tag),
            remote_identity: init.remote_identity,
            root_key: RootKey { secret_key, key: init.root_key.0 },
            sending_header_keys: match &init.header_key {
                Some(key) => HeaderKeys::new(key.clone()),
                None => HeaderKeys::default(),
            },
            receiving_header_keys: match &init.next_header_key {
                Some(key) => HeaderKeys::new(key.clone()),
                None => HeaderKeys::default(),
            },
            sending_chain_key: None,
            receiving_chain_key: None,
        }
    }

    /// Turns the root with the remote key, bound to the session and to both
    /// identities. The header keys turn with it.
    pub fn expand(
        &mut self,
        local_identity: &VerifyingKey,
        remote_key: &PublicKey,
        header_keys: &mut HeaderKeys,
        previous_count: u32,
    ) -> (r: Result<ChainKey, DoubleRatchetError>)
        ensures
            final(self)@ == old(self)@.expanded(local_identity@, remote_key@),
            final(header_keys)@ == old(header_keys)@.turned(
                old(self)@.expanded_header_key(local_identity@, remote_key@),
            ),
            r matches Ok(chain) && chain@ == old(self)@.expanded_chain(
                local_identity@,
                remote_key@,
                previous_count,
            ),
            final(self).session_tag == old(self).session_tag,
            final(self).remote_identity == old(self).remote_identity,
            final(self).sending_chain_key == old(self).sending_chain_key,
            final(self).receiving_chain_key == old(self).receiving_chain_key,
            final(self).sending_header_keys == old(self).sending_header_keys,
            final(self).receiving_header_keys == old(self).receiving_header_keys,
    {
        proof {
            lemma_session_info_length();
        }
        let local: &[u8; 32] = local_identity.as_bytes();
        let remote: &[u8; 32] = self.remote_identity.as_bytes();
        let first = is_before(local, remote);
        let mut info: [u8; 128] = zero_array();
        overwrite(&mut info, 0, SESSION_INFO.as_bytes());
        overwrite(&mut info, 31, self.session_tag.0.as_slice());
        if first {
            overwrite(&mut info, 63, local.as_slice());
            overwrite(&mut info, 95, remote.as_slice());
        } else {
            overwrite(&mut info, 63, remote.as_slice());
            overwrite(&mut info, 95, local.as_slice());
        }
        assert(info@ =~= turn_info(self.session_tag@, local@, remote@));
        let (mut chain_key, header_key) = match self.root_key.expand(
            *remote_key,
            Some(info.as_slice()),
        ) {
            Ok(keys) => keys,
            Err(_) => {
                return Err(DoubleRatchetError::ChainInitFailed);
            },
        };
        wipe(&mut info);
        chain_key.prev = previous_count;
        header_keys.update(header_key);
        Ok(chain_key)
    }

    /// Decides on a header: whether it names a new ratchet key, or why it is
    /// turned down.
    pub fn check_header(&self, header: &SessionHeader) -> (r: Result<bool, DoubleRatchetError>)
        ensures
            match r {
                Ok(is_new) => self@.refusal(header@) is None && is_new == self@.is_new_key(header@),
                Err(error) => self@.refusal(header@) == Some(error),
            },
    {
        let (is_new, count) = match &self.receiving_chain_key {
            Some(chain) => (chain.compare(&header.public_key), chain.count),
            None => (true, 0),
        };
        if is_new {
            if header.previous < count {
                return Err(DoubleRatchetError::InvalidHeader);
            }
            if header.previous - count > MAX_SKIP {
                return Err(DoubleRatchetError::MaxSkipExceeded);
            }
            if header.count > MAX_SKIP {
                return Err(DoubleRatchetError::MaxSkipExceeded);
            }
        } else {
            if header.count < count {
                return Err(DoubleRatchetError::ChainNotFound);
            }
            if header.count - count > MAX_SKIP {
                return Err(DoubleRatchetError::MaxSkipExceeded);
            }
        }
        Ok(is_new)
    }
}

/// The header in the bytes of a message behind the hash of a ratchet key: 68
/// bytes of it are encrypted under the header key, 40 are in the clear.
pub open spec fn header_in(bytes: Seq<u8>, header_key: Seq<u8>) -> Option<HeaderState> {
    let header = bytes.subrange(32, bytes.len() as int);
    if bytes.len() == 100 {
        decrypted_header::<SessionHeader>(header_key, header)
    } else if bytes.len() == 72 {
        HeaderState::decoded(header)
    } else {
        None
    }
}

impl SessionHeader {
    /// Reads the header of a message, given the header key of its session.
    pub fn read(bytes: &[u8], header_key: &HeaderKey) -> (r: Result<
        SessionHeader,
        DoubleRatchetError,
    >)
        requires
            bytes@.len() >= 32,
        ensures
            match r {
                Ok(header) => header_in(bytes@, header_key@) == Some(header@),
                Err(error) => header_in(bytes@, header_key@) is None && error
                    == DoubleRatchetError::InvalidHeader,
            },
    {
        let header = vstd::slice::slice_subrange(bytes, 32, bytes.len());
        if bytes.len() == 100 {
            match header_key.decrypt_header(header) {
                Ok(header) => Ok(header),
                Err(_) => Err(DoubleRatchetError::InvalidHeader),
            }
        } else if bytes.len() == 72 {
            match Self::from_bytes(header) {
                Ok(header) => Ok(header),
                Err(_) => Err(DoubleRatchetError::InvalidHeader),
            }
        } else {
            Err(DoubleRatchetError::InvalidHeader)
        }
    }

    /// Reads the header of a message, given the header key that the store has
    /// for its session, if it has one.
    pub fn find(bytes: &[u8], header_key: &Option<HeaderKey>) -> (r: Result<
        SessionHeader,
        DoubleRatchetError,
    >)
        requires
            bytes@.len() >= 32,
        ensures
            match r {
                Ok(header) => header_found(bytes@, seen(*header_key)) == Ok::<
                    HeaderState,
                    DoubleRatchetError,
                >(header@),
                Err(error) => header_found(bytes@, seen(*header_key)) == Err::<
                    HeaderState,
                    DoubleRatchetError,
                >(error),
            },
    {
        match header_key {
            Some(header_key) => Self::read(bytes, header_key),
            None => Err(DoubleRatchetError::SessionNotFound),
        }
    }
}

/// What reading the header of a message comes to, given the header key that
/// the store has for its session, if it has one.
pub open spec fn header_found(bytes: Seq<u8>, header_key: Option<Seq<u8>>) -> Result<
    HeaderState,
    DoubleRatchetError,
> {
    match header_key {
        None => Err(DoubleRatchetError::SessionNotFound),
        Some(key) => match header_in(bytes, key) {
            None => Err(DoubleRatchetError::InvalidHeader),
            Some(header) => Ok(header),
        },
    }
}

/// What finding the session of a message comes to, given the header key and
/// the session that the store has for it, if it has them.
pub open spec fn session_found(
    bytes: Seq<u8>,
    header_key: Option<Seq<u8>>,
    session: Option<SessionState>,
) -> Result<(SessionState, HeaderState), DoubleRatchetError> {
    match (header_found(bytes, header_key), session) {
        (Err(error), _) => Err(error),
        (Ok(_), None) => Err(DoubleRatchetError::SessionNotFound),
        (Ok(header), Some(state)) => Ok((state, header)),
    }
}

/// The calls that find the session of a message: the store is asked for the
/// header key and, once the header is read, for the session.
pub open spec fn find_calls(
    bytes: Seq<u8>,
    header_key: Option<Seq<u8>>,
    session: Option<SessionState>,
) -> Seq<StoreCall<SessionState>> {
    let hash_key = bytes.subrange(0, 32);
    let asked: Seq<StoreCall<SessionState>> = seq![
        StoreCall::GetHeaderKey { hash_key, answer: header_key },
    ];
    if header_found(bytes, header_key) is Ok {
        asked.push(StoreCall::GetDataByHash { hash_key, answer: session })
    } else {
        asked
    }
}

} // verus!
