//! What a session does, as functions of its state and of the answers that its
//! store and the random number generator give.
use super::chain::ChainState;
use super::data::SessionState;
use super::error::DoubleRatchetError;
use super::header_keys::HeaderKeysState;
use super::root::RootState;
use super::session_header::HeaderState;
use crate::bytes::{lemma_precedes_total, precedes, zeros};
use crate::init::InitState;
use crate::primitives::{hkdf_sha256, sha256, x25519_public};
use crate::store::StoreCall;
use vstd::prelude::*;

verus! {

/// How many message keys a single message may skip.
pub const MAX_SKIP: u32 = 2000;

/// What the turns of a ratchet are derived for.
pub const SESSION_INFO: &'static str = "/freesignal/double_ratchet/v0.1";

/// What the tag of a session is derived for.
pub const SESSION_TAG_INFO: &'static str = "/freesignal/double_ratchet/v0.1/tag";

/// The tag of the session that starts from the given root key.
pub open spec fn session_tag(root_key: Seq<u8>) -> Seq<u8> {
    hkdf_sha256(Some(zeros(32)), root_key, vstd::utf8::encode_utf8(SESSION_TAG_INFO@), 32)
}

/// Two identities in an order that does not depend on whose they are.
pub open spec fn ordered(a: Seq<u8>, b: Seq<u8>) -> Seq<u8> {
    if precedes(a, b) {
        a + b
    } else {
        b + a
    }
}

/// What a turn of the ratchet is bound to: the session and both identities.
pub open spec fn turn_info(tag: Seq<u8>, local: Seq<u8>, remote: Seq<u8>) -> Seq<u8> {
    vstd::utf8::encode_utf8(SESSION_INFO@) + tag + ordered(local, remote) + seq![0u8]
}

/// Both ends bind a turn to the same bytes.
pub proof fn lemma_turn_info_symmetric(tag: Seq<u8>, a: Seq<u8>, b: Seq<u8>)
    requires
        a.len() == b.len(),
    ensures
        turn_info(tag, a, b) == turn_info(tag, b, a),
{
    lemma_precedes_total(a, b);
    lemma_precedes_total(b, a);
}

/// The number of message keys that a chain has given.
pub open spec fn count_of(chain: Option<ChainState>) -> u32 {
    match chain {
        Some(c) => c.count,
        None => 0,
    }
}

/// The calls that store the message keys of the next `n` steps of a chain.
pub open spec fn skip_calls(tag: Seq<u8>, chain: ChainState, n: nat) -> Seq<
    StoreCall<SessionState>,
> {
    Seq::new(
        n,
        |i: int| StoreCall::SetPreviousKeys { session_tag: tag, value: chain.key_at(i as nat) },
    )
}

/// What a session does not decide itself while it takes a message.
pub struct Answers {
    /// The skipped key that the store has for the session.
    pub skipped: Option<Seq<u8>>,
    /// The local identity, when the receiving chain is derived.
    pub receiving_identity: Seq<u8>,
    /// The fresh ratchet secret.
    pub secret_key: Seq<u8>,
    /// The local identity, when the sending chain is derived.
    pub sending_identity: Seq<u8>,
}

impl Answers {
    /// Keys are 32 bytes long.
    pub open spec fn well_formed(self) -> bool {
        &&& (self.skipped matches Some(key) ==> key.len() == 32)
        &&& self.receiving_identity.len() == 32
        &&& self.secret_key.len() == 32
        &&& self.sending_identity.len() == 32
    }
}

/// What taking a message comes to.
pub struct Outcome {
    pub state: SessionState,
    pub result: Result<Seq<u8>, DoubleRatchetError>,
    pub calls: Seq<StoreCall<SessionState>>,
}

impl SessionState {
    /// What the turns of this session's ratchet are bound to.
    pub open spec fn info(self, local: Seq<u8>) -> Seq<u8> {
        turn_info(self.session_tag, local, self.remote_identity)
    }

    /// The session after its root has turned with the remote key.
    pub open spec fn expanded(self, local: Seq<u8>, remote_key: Seq<u8>) -> Self {
        SessionState { root_key: self.root_key.turned(remote_key, self.info(local)), ..self }
    }

    /// The chain that the turn gives, after a chain of `prev` message keys.
    pub open spec fn expanded_chain(
        self,
        local: Seq<u8>,
        remote_key: Seq<u8>,
        prev: u32,
    ) -> ChainState {
        ChainState { prev, ..self.root_key.chain(remote_key, self.info(local)) }
    }

    /// The header key that the turn gives.
    pub open spec fn expanded_header_key(self, local: Seq<u8>, remote_key: Seq<u8>) -> Seq<u8> {
        self.root_key.header_key(remote_key, self.info(local))
    }

    /// A session before any turn of its ratchet.
    pub open spec fn unturned(init: InitState, secret_key: Seq<u8>) -> Self {
        SessionState {
            session_tag: session_tag(init.root_key),
            remote_identity: init.remote_identity,
            root_key: RootState { secret_key, key: init.root_key },
            sending_header_keys: match init.header_key {
                Some(key) => HeaderKeysState::starting(key),
                None => HeaderKeysState::empty(),
            },
            receiving_header_keys: match init.next_header_key {
                Some(key) => HeaderKeysState::starting(key),
                None => HeaderKeysState::empty(),
            },
            sending_chain_key: None,
            receiving_chain_key: None,
        }
    }

    /// The session with a new sending chain, derived from the remote key.
    pub open spec fn with_sending_chain(self, local: Seq<u8>, remote_key: Seq<u8>) -> Self {
        SessionState {
            sending_header_keys: self.sending_header_keys.turned(
                self.expanded_header_key(local, remote_key),
            ),
            sending_chain_key: Some(
                self.expanded_chain(local, remote_key, count_of(self.sending_chain_key)),
            ),
            ..self.expanded(local, remote_key)
        }
    }

    /// A session at its start. Where the remote key is known it can send.
    pub open spec fn started(init: InitState, secret_key: Seq<u8>, local: Seq<u8>) -> Self {
        match init.remote_key {
            Some(remote_key) => Self::unturned(init, secret_key).with_sending_chain(
                local,
                remote_key,
            ),
            None => Self::unturned(init, secret_key),
        }
    }

    /// The calls that store a session at its start.
    pub open spec fn start_calls(init: InitState, secret_key: Seq<u8>, local: Seq<u8>) -> Seq<
        StoreCall<SessionState>,
    > {
        let known = seq![
            StoreCall::SetHashKey {
                hash_key: sha256(x25519_public(secret_key)),
                session_tag: session_tag(init.root_key),
            },
        ];
        let asked = match init.remote_key {
            Some(_) => seq![StoreCall::GetVerifyingKey { answer: local }],
            None => Seq::empty(),
        };
        known + asked + commit_calls(Self::started(init, secret_key, local))
    }

    /// The session after it has given a key to send with.
    pub open spec fn sent(self) -> Self {
        SessionState {
            sending_chain_key: match self.sending_chain_key {
                Some(chain) => Some(chain.after(1)),
                None => None,
            },
            ..self
        }
    }

    /// Whether the header names another ratchet key than the receiving chain
    /// belongs to.
    pub open spec fn is_new_key(self, header: HeaderState) -> bool {
        match self.receiving_chain_key {
            Some(chain) => chain.remote_key != header.public_key,
            None => true,
        }
    }

    /// Why a header is turned down, if it is.
    pub open spec fn refusal(self, header: HeaderState) -> Option<DoubleRatchetError> {
        let count = count_of(self.receiving_chain_key);
        if self.is_new_key(header) {
            if header.previous < count {
                Some(DoubleRatchetError::InvalidHeader)
            } else if header.previous - count > MAX_SKIP {
                Some(DoubleRatchetError::MaxSkipExceeded)
            } else if header.count > MAX_SKIP {
                Some(DoubleRatchetError::MaxSkipExceeded)
            } else {
                None
            }
        } else {
            if header.count < count {
                Some(DoubleRatchetError::ChainNotFound)
            } else if header.count - count > MAX_SKIP {
                Some(DoubleRatchetError::MaxSkipExceeded)
            } else {
                None
            }
        }
    }

    /// Whether taking a message with the given header turns the ratchet.
    pub open spec fn turns(self, header: HeaderState, answers: Answers) -> bool {
        answers.skipped is None && self.refusal(header) is None && self.is_new_key(header)
    }

    /// The session with a new receiving chain, derived from the header's key.
    /// The old chain has been followed up to its last message.
    pub open spec fn with_receiving_chain(self, header: HeaderState, local: Seq<u8>) -> Self {
        let prev = match self.receiving_chain_key {
            Some(_) => header.previous,
            None => 0,
        };
        SessionState {
            receiving_header_keys: self.receiving_header_keys.turned(
                self.expanded_header_key(local, header.public_key),
            ),
            receiving_chain_key: Some(self.expanded_chain(local, header.public_key, prev)),
            ..self.expanded(local, header.public_key)
        }
    }

    /// The session with another ratchet secret.
    pub open spec fn with_secret(self, secret_key: Seq<u8>) -> Self {
        SessionState { root_key: RootState { secret_key, ..self.root_key }, ..self }
    }

    /// The session after a turn to the header's key: new chains in both
    /// directions, and a fresh ratchet secret.
    pub open spec fn turned(self, header: HeaderState, answers: Answers) -> Self {
        self.with_receiving_chain(header, answers.receiving_identity).with_secret(
            answers.secret_key,
        ).with_sending_chain(answers.sending_identity, header.public_key)
    }

    /// The calls of a turn.
    pub open spec fn turn_calls(self, header: HeaderState, answers: Answers) -> Seq<
        StoreCall<SessionState>,
    > {
        let tag = self.session_tag;
        let hash_key = sha256(x25519_public(answers.secret_key));
        let skipped = match self.receiving_chain_key {
            Some(chain) => skip_calls(tag, chain, (header.previous - chain.count) as nat),
            None => Seq::empty(),
        };
        let header_key = match self.receiving_header_keys.next {
            Some(value) => seq![StoreCall::SetHeaderKey { hash_key, value }],
            None => Seq::empty(),
        };
        skipped + seq![StoreCall::GetVerifyingKey { answer: answers.receiving_identity }]
            + header_key + seq![StoreCall::SetHashKey { hash_key, session_tag: tag }]
            + seq![StoreCall::GetVerifyingKey { answer: answers.sending_identity }]
    }

    /// The session after its receiving chain has been followed to message
    /// number `count`.
    pub open spec fn followed(self, count: u32) -> Self {
        let chain = self.receiving_chain_key.unwrap();
        SessionState {
            receiving_chain_key: Some(chain.after((count - chain.count) as nat)),
            ..self
        }
    }

    /// What following the receiving chain to message number `count` comes to.
    /// The keys on the way there are stored.
    pub open spec fn follow(self, count: u32) -> Outcome {
        let chain = self.receiving_chain_key.unwrap();
        let steps = count - chain.count;
        if steps == 0 {
            Outcome {
                state: self,
                result: Err(DoubleRatchetError::ChainNotFound),
                calls: Seq::empty(),
            }
        } else {
            Outcome {
                state: self.followed(count),
                result: Ok(chain.key_at((steps - 1) as nat)),
                calls: skip_calls(self.session_tag, chain, (steps - 1) as nat),
            }
        }
    }

    /// What taking a message with the given header comes to.
    pub open spec fn receive(self, header: HeaderState, answers: Answers) -> Outcome {
        let asked: Seq<StoreCall<SessionState>> = seq![
            StoreCall::GetPreviousKeys { session_tag: self.session_tag, answer: answers.skipped },
        ];
        match answers.skipped {
            Some(key) => Outcome { state: self, result: Ok(key), calls: asked },
            None => match self.refusal(header) {
                Some(error) => Outcome { state: self, result: Err(error), calls: asked },
                None => if self.is_new_key(header) {
                    let followed = self.turned(header, answers).follow(header.count);
                    Outcome {
                        calls: asked + self.turn_calls(header, answers) + followed.calls,
                        ..followed
                    }
                } else {
                    let followed = self.follow(header.count);
                    Outcome { calls: asked + followed.calls, ..followed }
                },
            },
        }
    }
}

/// The calls that store a session.
pub open spec fn commit_calls(state: SessionState) -> Seq<StoreCall<SessionState>> {
    seq![StoreCall::SetData { session: state }, StoreCall::Commit]
}

} // verus!
