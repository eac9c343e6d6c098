//! A session: its state, the store that keeps it, and the keys that it gives.
use super::chain::{lemma_after_after, ChainKey, ChainState};
use super::data::{clone_chain, lemma_session_well_formed, SessionData, SessionState};
use super::error::DoubleRatchetError;
use super::header_keys::HeaderKeys;
use super::model::{commit_calls, skip_calls, Answers};
use super::steps::{find_calls, session_found};
use super::session_header::{HeaderState, SessionHeader};
use crate::bytes::{take_array, zeros};
use crate::header::HeaderKey;
use crate::init::{InitState, SessionInit};
use crate::keys::{
    agrees_with_all, drawn, lemma_verifying_key_length, HashKey, PublicKey, SessionTag,
    StaticSecret, VerifyingKey,
};
use crate::message::MessageKey;
use crate::primitives::{sha256, sha256_digest};
use crate::store::{seen, HeaderKeyStore, SessionKeyStore, StoreCall};
use vstd::prelude::*;

verus! {

/// The first `n` keys of a chain are skipped before the others.
proof fn lemma_skip_calls_step(tag: Seq<u8>, chain: ChainState, n: nat)
    ensures
        skip_calls(tag, chain, n + 1) == skip_calls(tag, chain, n).push(
            StoreCall::SetPreviousKeys { session_tag: tag, value: chain.key_at(n) },
        ),
{
    assert(skip_calls(tag, chain, n + 1) =~= skip_calls(tag, chain, n).push(
        StoreCall::SetPreviousKeys { session_tag: tag, value: chain.key_at(n) },
    ));
}

/// A session with the store that keeps it.
pub struct Session<K: SessionKeyStore<SessionData>> {
    pub keystore: K,
    pub current: SessionData,
    /// The state to go back to.
    pub previous: Option<SessionData>,
}

/// The view of what taking a message gives.
pub open spec fn seen_result(r: Result<MessageKey, DoubleRatchetError>) -> Result<
    Seq<u8>,
    DoubleRatchetError,
> {
    match r {
        Ok(key) => Ok(key@),
        Err(error) => Err(error),
    }
}

/// Follows a chain up to `until` message keys and stores the keys.
fn store_skipped<K: SessionKeyStore<SessionData>>(
    keystore: &mut K,
    tag: &SessionTag,
    chain: &mut ChainKey,
    until: u32,
)
    requires
        old(chain).count <= until,
    ensures
        final(chain)@ == old(chain)@.after((until - old(chain).count) as nat),
        final(keystore).calls() == old(keystore).calls() + skip_calls(
            tag@,
            old(chain)@,
            (until - old(chain).count) as nat,
        ),
{
    let ghost start = chain@;
    let ghost before = keystore.calls();
    assert(before + skip_calls(tag@, start, 0) =~= before);
    while chain.count < until
        invariant
            start.count <= chain.count <= until,
            chain@ == start.after((chain.count - start.count) as nat),
            keystore.calls() == before + skip_calls(
                tag@,
                start,
                (chain.count - start.count) as nat,
            ),
        decreases until - chain.count,
    {
        let ghost n = (chain.count - start.count) as nat;
        proof {
            lemma_after_after(start, n, 1);
            lemma_after_after(start, n, 0);
            lemma_skip_calls_step(tag@, start, n);
        }
        let key: MessageKey = chain.expand();
        keystore.set_previous_keys(tag, &key);
        assert(keystore.calls() =~= before + skip_calls(tag@, start, n + 1));
    }
}

/// Whether the session has started from `init` with the given local identity,
/// and its store has been told so after the calls `before`.
pub open spec fn has_started<K: SessionKeyStore<SessionData>>(
    session: Session<K>,
    init: InitState,
    before: Seq<StoreCall<SessionState>>,
    local: Seq<u8>,
) -> bool {
    let secret_key = session.current@.root_key.secret_key;
    &&& local.len() == 32
    &&& session.current@ == SessionState::started(init, secret_key, local)
    &&& session.keystore.calls() == before + SessionState::start_calls(init, secret_key, local)
}

/// Whether the session has taken a message with the given header: from `pre`,
/// after the store calls `before`, with the given answers.
pub open spec fn has_received<K: SessionKeyStore<SessionData>>(
    session: Session<K>,
    result: Result<MessageKey, DoubleRatchetError>,
    pre: SessionState,
    before: Seq<StoreCall<SessionState>>,
    header: HeaderState,
    answers: Answers,
) -> bool {
    let outcome = pre.receive(header, answers);
    &&& answers.well_formed()
    &&& session.current@ == outcome.state
    &&& seen_result(result) == outcome.result
    &&& session.keystore.calls() == before + outcome.calls
    &&& pre.turns(header, answers) ==> drawn(answers.secret_key)
}

/// The view of what finding the session of a message gives.
pub open spec fn seen_session<K: SessionKeyStore<SessionData>>(
    r: Result<(Session<K>, SessionHeader), DoubleRatchetError>,
) -> Result<(SessionState, HeaderState), DoubleRatchetError> {
    match r {
        Ok((session, header)) => Ok((session.current@, header@)),
        Err(error) => Err(error),
    }
}

/// Whether the session of a message has been looked for, after the calls
/// `before`, in a store that gave the header key and the session, or nothing
/// in place of them. `store` is the store as the search has left it.
pub open spec fn has_been_sought<K: SessionKeyStore<SessionData>>(
    result: Result<(Session<K>, SessionHeader), DoubleRatchetError>,
    bytes: Seq<u8>,
    before: Seq<StoreCall<SessionState>>,
    store: K,
    header_key: Option<Seq<u8>>,
    session: Option<SessionState>,
) -> bool {
    &&& (header_key matches Some(key) ==> key.len() == 32)
    &&& store.calls() == before + find_calls(bytes, header_key, session)
    &&& seen_session(result) == session_found(bytes, header_key, session)
    &&& (result matches Ok((found, _)) ==> found.keystore == store && found.previous is None)
}

impl<K: SessionKeyStore<SessionData> + Clone> Clone for Session<K> {
    fn clone(&self) -> (r: Self)
        ensures
            r.current == self.current,
            r.previous == self.previous,
            cloned(self.keystore, r.keystore),
    {
        Session {
            keystore: self.keystore.clone(),
            current: self.current.clone(),
            previous: match &self.previous {
                Some(previous) => Some(previous.clone()),
                None => None,
            },
        }
    }
}

impl<K: SessionKeyStore<SessionData>> Session<K> {
    /// Starts a session. Where the remote key is known, it can send at once.
    pub fn new(init: &SessionInit, keystore: K) -> (r: Session<K>)
        ensures
            init@.secret_key matches Some(secret_key) ==> r.current@.root_key.secret_key
                == secret_key,
            init@.secret_key is None ==> drawn(r.current@.root_key.secret_key),
            exists|local: Seq<u8>| #[trigger] has_started(r, init@, keystore.calls(), local),
            r.previous == Some(r.current),
            agrees_with_all(r.current@.root_key.secret_key),
    {
        let secret_key: StaticSecret = match &init.secret_key {
            Some(secret_key) => secret_key.clone(),
            None => StaticSecret::random(),
        };
        let ghost before = keystore.calls();
        let ghost secret = secret_key@;
        let mut session: Session<K> = Session {
            keystore,
            current: SessionData::start(init, secret_key),
            previous: None,
        };
        let hash_key: HashKey = session.current_hash_key();
        session.keystore.set_hash_key(&hash_key, &session.current.session_tag);
        let ghost mut local = zeros(32);
        if let Some(remote_key) = &init.remote_key {
            let mut header_keys: HeaderKeys = session.current.sending_header_keys.clone();
            let (chain, Ghost(identity)) = session.expand_seen(remote_key, &mut header_keys, 0);
            proof {
                local = identity;
            }
            session.current.sending_chain_key = Some(chain);
            session.current.sending_header_keys = header_keys;
        }
        assert(session.current@ == SessionState::started(init@, secret, local));
        session.commit();
        assert(session.keystore.calls() =~= before + SessionState::start_calls(
            init@,
            secret,
            local,
        ));
        assert(has_started(session, init@, before, local));
        session
    }

    pub fn get_session_tag(&self) -> (r: SessionTag)
        ensures
            r@ == self.current@.session_tag,
    {
        self.current.session_tag.clone()
    }

    /// This end's ratchet key.
    pub fn public_key(&self) -> (r: PublicKey)
        ensures
            r@ == self.current@.root_key.public_key(),
            agrees_with_all(self.current@.root_key.secret_key),
    {
        self.current.root_key.public_key()
    }

    fn current_hash_key(&self) -> (r: HashKey)
        ensures
            r@ == sha256(self.current@.root_key.public_key()),
            agrees_with_all(self.current@.root_key.secret_key),
    {
        HashKey(sha256_digest(self.public_key().0.as_slice()))
    }

    /// The hash of this end's ratchet key, once the session can send.
    pub fn hash_key(&self) -> (r: Result<HashKey, DoubleRatchetError>)
        ensures
            match r {
                Ok(hash_key) => self.current@.sending_chain_key is Some && hash_key@ == sha256(
                    self.current@.root_key.public_key(),
                ),
                Err(error) => self.current@.sending_chain_key is None && error
                    == DoubleRatchetError::NoSendingChain,
            },
    {
        if self.current.sending_chain_key.is_some() {
            Ok(self.current_hash_key())
        } else {
            Err(DoubleRatchetError::NoSendingChain)
        }
    }

    /// Turns the root with the remote key, under the local identity that the
    /// store gives.
    fn expand_seen(
        &mut self,
        remote_key: &PublicKey,
        header_keys: &mut HeaderKeys,
        previous_count: u32,
    ) -> (r: (ChainKey, Ghost<Seq<u8>>))
        ensures
            r.1@.len() == 32,
            final(self).current@ == old(self).current@.expanded(r.1@, remote_key@),
            final(header_keys)@ == old(header_keys)@.turned(
                old(self).current@.expanded_header_key(r.1@, remote_key@),
            ),
            r.0@ == old(self).current@.expanded_chain(r.1@, remote_key@, previous_count),
            final(self).keystore.calls() == old(self).keystore.calls().push(
                StoreCall::GetVerifyingKey { answer: r.1@ },
            ),
            final(self).previous == old(self).previous,
            final(self).current.session_tag == old(self).current.session_tag,
            final(self).current.remote_identity == old(self).current.remote_identity,
            final(self).current.sending_chain_key == old(self).current.sending_chain_key,
            final(self).current.receiving_chain_key == old(self).current.receiving_chain_key,
            final(self).current.sending_header_keys == old(self).current.sending_header_keys,
            final(self).current.receiving_header_keys == old(self).current.receiving_header_keys,
    {
        let local_identity: VerifyingKey = self.keystore.get_verifying_key();
        proof {
            lemma_verifying_key_length(local_identity);
        }
        let chain: ChainKey = self.current.expand(
            &local_identity,
            remote_key,
            header_keys,
            previous_count,
        ).expect("the ratchet turns");
        (chain, Ghost(local_identity@))
    }

    /// Turns the root with the remote key, under the local identity that the
    /// store gives, and turns the header keys with it.
    pub fn expand(
        &mut self,
        remote_key: &PublicKey,
        header_keys: &mut HeaderKeys,
        previous_count: u32,
    ) -> (r: Result<ChainKey, DoubleRatchetError>)
        ensures
            exists|local: Seq<u8>|
                {
                    &&& local.len() == 32
                    &&& final(self).current@ == #[trigger] old(self).current@.expanded(
                        local,
                        remote_key@,
                    )
                    &&& final(header_keys)@ == old(header_keys)@.turned(
                        old(self).current@.expanded_header_key(local, remote_key@),
                    )
                    &&& r matches Ok(chain) && chain@ == old(self).current@.expanded_chain(
                        local,
                        remote_key@,
                        previous_count,
                    )
                    &&& final(self).keystore.calls() == old(self).keystore.calls().push(
                        StoreCall::GetVerifyingKey { answer: local },
                    )
                },
            final(self).previous == old(self).previous,
    {
        let (chain, Ghost(_local)) = self.expand_seen(remote_key, header_keys, previous_count);
        Ok(chain)
    }

    /// Stores the session, and makes its state the one to go back to.
    pub fn commit(&mut self)
        ensures
            final(self).current == old(self).current,
            final(self).previous == Some(old(self).current),
            final(self).keystore.calls() == old(self).keystore.calls() + commit_calls(
                old(self).current@,
            ),
            final(self).keystore.calls() == old(self).keystore.calls().push(
                StoreCall::SetData { session: old(self).current@ },
            ).push(StoreCall::Commit),
    {
        let ghost before = self.keystore.calls();
        self.previous = Some(self.current.clone());
        self.keystore.set_data(&self.current);
        self.keystore.commit();
        assert(self.keystore.calls() =~= before + commit_calls(self.current@));
    }

    /// Goes back to the last committed state. It fails where there is none, or
    /// where the store cannot go back.
    pub fn rollback(&mut self) -> (r: bool)
        ensures
            match old(self).previous {
                None => !r && *final(self) == *old(self),
                Some(previous) => {
                    &&& final(self).keystore.calls() == old(self).keystore.calls().push(
                        StoreCall::Rollback { answer: r },
                    )
                    &&& if r {
                        final(self).current == previous && final(self).previous is None
                    } else {
                        final(self).current == old(self).current && final(self).previous == old(
                            self,
                        ).previous
                    }
                },
            },
    {
        if self.previous.is_none() {
            return false;
        }
        if self.keystore.rollback() {
            if let Some(backup) = self.previous.take() {
                self.current = backup;
                return true;
            }
        }
        false
    }

    /// The key that the headers of this session are encrypted under.
    pub fn header_key(&self) -> (r: Option<HeaderKey>)
        ensures
            seen(r) == self.current@.sending_header_keys.curr,
    {
        self.current.sending_header_keys.header_key()
    }

    /// The key of the next message to send, its header, and the key to encrypt
    /// the header under.
    pub fn get_sending_key(&mut self) -> (r: Result<
        (MessageKey, SessionHeader, Option<HeaderKey>),
        DoubleRatchetError,
    >)
        requires
            old(self).current.sending_chain_key matches Some(chain) ==> chain.count < u32::MAX,
        ensures
            final(self).current@ == old(self).current@.sent(),
            final(self).previous == old(self).previous,
            final(self).keystore == old(self).keystore,
            match (old(self).current@.sending_chain_key, r) {
                (Some(chain), Ok((key, header, header_key))) => {
                    &&& key@ == chain.key_at(0)
                    &&& header@ == chain.after(1).header(
                        old(self).current@.root_key.public_key(),
                    )
                    &&& seen(header_key) == old(self).current@.sending_header_keys.curr
                },
                (None, Err(error)) => error == DoubleRatchetError::NoSendingChain,
                _ => false,
            },
    {
        let public_key: PublicKey = self.public_key();
        match self.current.sending_chain_key.take() {
            Some(mut chain) => {
                let key: MessageKey = chain.expand();
                let header_key: Option<HeaderKey> = self.current.sending_header_keys.header_key();
                let header: SessionHeader = chain.header(public_key);
                self.current.sending_chain_key = Some(chain);
                Ok((key, header, header_key))
            },
            None => Err(DoubleRatchetError::NoSendingChain),
        }
    }

    /// Turns the ratchet to the key that the header names.
    fn turn(&mut self, header: &SessionHeader) -> (r: Ghost<Answers>)
        requires
            old(self).current@.refusal(header@) is None,
            old(self).current@.is_new_key(header@),
        ensures
            r@.well_formed(),
            r@.skipped is None,
            drawn(r@.secret_key),
            final(self).current@ == old(self).current@.turned(header@, r@),
            final(self).keystore.calls() == old(self).keystore.calls()
                + old(self).current@.turn_calls(header@, r@),
            final(self).previous == old(self).previous,
            agrees_with_all(final(self).current@.root_key.secret_key),
    {
        let ghost pre = self.current@;
        let ghost before = self.keystore.calls();
        let tag: SessionTag = self.get_session_tag();
        let mut previous_count: u32 = 0;
        if let Some(mut chain) = clone_chain(&self.current.receiving_chain_key) {
            store_skipped(&mut self.keystore, &tag, &mut chain, header.previous);
            previous_count = chain.count;
        }
        let ghost skipped = match pre.receiving_chain_key {
            Some(chain) => skip_calls(tag@, chain, (header.previous - chain.count) as nat),
            None => Seq::empty(),
        };
        assert(self.keystore.calls() =~= before + skipped);
        let mut receiving_header_keys: HeaderKeys = self.current.receiving_header_keys.clone();
        let (receiving_chain, Ghost(receiving_identity)) = self.expand_seen(
            &header.public_key,
            &mut receiving_header_keys,
            previous_count,
        );
        self.current.receiving_chain_key = Some(receiving_chain);
        self.current.root_key.update();
        let hash_key: HashKey = self.current_hash_key();
        let header_key: Option<HeaderKey> = receiving_header_keys.header_key();
        if let Some(value) = &header_key {
            self.keystore.set_header_key(&hash_key, value);
        }
        self.current.receiving_header_keys = receiving_header_keys;
        self.keystore.set_hash_key(&hash_key, &tag);
        let ghost secret_key = self.current@.root_key.secret_key;
        assert(self.current@ == pre.with_receiving_chain(header@, receiving_identity).with_secret(
            secret_key,
        ));
        let sending_count: u32 = match &self.current.sending_chain_key {
            Some(chain) => chain.count,
            None => 0,
        };
        let mut sending_header_keys: HeaderKeys = self.current.sending_header_keys.clone();
        let (sending_chain, Ghost(sending_identity)) = self.expand_seen(
            &header.public_key,
            &mut sending_header_keys,
            sending_count,
        );
        self.current.sending_chain_key = Some(sending_chain);
        self.current.sending_header_keys = sending_header_keys;
        let ghost answers = Answers {
            skipped: None,
            receiving_identity,
            secret_key,
            sending_identity,
        };
        assert(self.current@ == pre.turned(header@, answers));
        assert(self.keystore.calls() =~= before + pre.turn_calls(header@, answers));
        Ghost(answers)
    }

    /// Follows the receiving chain to message number `count`.
    fn follow(&mut self, count: u32) -> (r: Result<MessageKey, DoubleRatchetError>)
        requires
            old(self).current@.receiving_chain_key matches Some(chain) && chain.count <= count,
        ensures
            final(self).current@ == old(self).current@.follow(count).state,
            seen_result(r) == old(self).current@.follow(count).result,
            final(self).keystore.calls() == old(self).keystore.calls()
                + old(self).current@.follow(count).calls,
            final(self).previous == old(self).previous,
    {
        let ghost pre = self.current@;
        let ghost before = self.keystore.calls();
        let tag: SessionTag = self.get_session_tag();
        let mut chain: ChainKey = self.current.receiving_chain_key.take().unwrap();
        let mut result: Result<MessageKey, DoubleRatchetError> = Err(
            DoubleRatchetError::ChainNotFound,
        );
        let ghost start = chain@;
        if chain.count < count {
            store_skipped(&mut self.keystore, &tag, &mut chain, count - 1);
            proof {
                let n = (count - 1 - start.count) as nat;
                lemma_after_after(start, n, 0);
                lemma_after_after(start, n, 1);
            }
            result = Ok(chain.expand());
        }
        self.current.receiving_chain_key = Some(chain);
        assert(self.current@ =~= pre.follow(count).state);
        assert(self.keystore.calls() =~= before + pre.follow(count).calls);
        result
    }

    /// The key of the message with the given header. A skipped key that the
    /// store has for the session goes first.
    pub fn get_receiving_key(&mut self, header: &SessionHeader) -> (r: Result<
        MessageKey,
        DoubleRatchetError,
    >)
        ensures
            exists|answers: Answers| #[trigger]
                has_received(
                    *final(self),
                    r,
                    old(self).current@,
                    old(self).keystore.calls(),
                    header@,
                    answers,
                ),
            final(self).previous == old(self).previous,
            final(self).current@.root_key.secret_key == old(self).current@.root_key.secret_key
                || agrees_with_all(final(self).current@.root_key.secret_key),
    {
        let ghost pre = self.current@;
        let ghost before = self.keystore.calls();
        let ghost identity = pre.remote_identity;
        proof {
            lemma_session_well_formed(self.current);
        }
        let tag: SessionTag = self.get_session_tag();
        let skipped: Option<MessageKey> = self.keystore.get_previous_keys(&tag);
        let ghost mut answers = Answers {
            skipped: seen(skipped),
            receiving_identity: identity,
            secret_key: pre.root_key.secret_key,
            sending_identity: identity,
        };
        let ghost asked: Seq<StoreCall<SessionState>> = seq![
            StoreCall::GetPreviousKeys { session_tag: pre.session_tag, answer: seen(skipped) },
        ];
        assert(self.keystore.calls() =~= before + asked);
        if let Some(key) = skipped {
            let r: Result<MessageKey, DoubleRatchetError> = Ok(key);
            assert(has_received(*self, r, pre, before, header@, answers));
            return r;
        }
        let is_new = match self.current.check_header(header) {
            Ok(is_new) => is_new,
            Err(error) => {
                let r: Result<MessageKey, DoubleRatchetError> = Err(error);
                assert(has_received(*self, r, pre, before, header@, answers));
                return r;
            },
        };
        if is_new {
            let Ghost(given) = self.turn(header);
            proof {
                answers = given;
            }
        }
        let r: Result<MessageKey, DoubleRatchetError> = self.follow(header.count);
        assert(self.keystore.calls() =~= before + pre.receive(header@, answers).calls);
        assert(has_received(*self, r, pre, before, header@, answers));
        r
    }

    /// The session with the given state. There is nothing to go back to.
    pub fn from(session_data: &SessionData, keystore: K) -> (r: Self)
        ensures
            r.current == *session_data,
            r.previous is None,
            r.keystore == keystore,
    {
        Session { keystore, current: session_data.clone(), previous: None }
    }

    /// The session that a message belongs to, and the header of the message.
    /// The first 32 bytes are the hash of this end's ratchet key, under which
    /// the store is asked for the header key and, once the header is read, for
    /// the session. It is found where the store has both and the header can be
    /// read.
    pub fn from_header(bytes: &[u8], keystore: K) -> (r: Result<
        (Self, SessionHeader),
        DoubleRatchetError,
    >)
        requires
            bytes@.len() >= 32,
        ensures
            exists|store: K, header_key: Option<Seq<u8>>, session: Option<SessionState>|
                #[trigger]
                has_been_sought(r, bytes@, keystore.calls(), store, header_key, session),
    {
        let ghost before = keystore.calls();
        let mut keystore: K = keystore;
        let hash_key: HashKey = HashKey(take_array(bytes, 0));
        let header_key: Option<HeaderKey> = keystore.get_header_key(&hash_key);
        let ghost key = seen(header_key);
        let header: SessionHeader = match SessionHeader::find(bytes, &header_key) {
            Ok(header) => header,
            Err(error) => {
                let r: Result<(Self, SessionHeader), DoubleRatchetError> = Err(error);
                assert(keystore.calls() =~= before + find_calls(bytes@, key, None));
                assert(has_been_sought(r, bytes@, before, keystore, key, None));
                return r;
            },
        };
        let session_data: Option<SessionData> = keystore.get_data_by_hash(&hash_key);
        let ghost session = seen(session_data);
        let ghost store = keystore;
        assert(store.calls() =~= before + find_calls(bytes@, key, session));
        let r: Result<(Self, SessionHeader), DoubleRatchetError> = match &session_data {
            Some(session_data) => Ok((Session::from(session_data, keystore), header)),
            None => Err(DoubleRatchetError::SessionNotFound),
        };
        assert(has_been_sought(r, bytes@, before, store, key, session));
        r
    }

    /// Whether the store has keys of skipped messages.
    pub fn has_skipped_keys(&mut self) -> (r: bool)
        ensures
            final(self).keystore.calls() == old(self).keystore.calls().push(
                StoreCall::HasPreviousKeys { answer: r },
            ),
            final(self).current == old(self).current,
            final(self).previous == old(self).previous,
    {
        self.keystore.has_previous_keys()
    }
}

} // verus!
