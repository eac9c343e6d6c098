//! What starting a session, sending and taking a message come to: which fields
//! of the session change and to what, which keys come out, and what the store
//! is told.
use super::chain::{chain_key_after, ChainState};
use super::data::{SessionData, SessionState};
use super::error::DoubleRatchetError;
use super::laws::{header_of, kept_key, nth_key, Ends};
use super::model::{
    commit_calls, count_of, lemma_turn_info_symmetric, session_tag, turn_info, Answers, MAX_SKIP,
};
use super::session::{has_been_sought, has_received, has_started, Session};
use super::session_header::{
    lemma_header_from_bytes, lemma_header_round_trip, HeaderState, SessionHeader,
};
use super::steps::{find_calls, header_in, session_found};
use crate::bytes::precedes;
use crate::header::opened_header;
use crate::init::InitState;
use crate::keys::drawn;
use crate::message::MessageKey;
use crate::primitives::{hkdf_sha256, hmac_sha256, sha256, x25519_public, x25519_shared};
use crate::store::{SessionKeyStore, StoreCall};
use vstd::prelude::*;

verus! {

/// The call that stores a skipped key.
pub open spec fn stores(call: StoreCall<SessionState>, tag: Seq<u8>, key: Seq<u8>) -> bool {
    call == StoreCall::<SessionState>::SetPreviousKeys { session_tag: tag, value: key }
}

/// Whether the header names another key than the receiving chain belongs to.
pub open spec fn names_new_key(state: SessionState, header: HeaderState) -> bool {
    !(state.receiving_chain_key matches Some(chain) && chain.remote_key == header.public_key)
}

/// How many messages have been taken of the receiving chain.
pub open spec fn taken_of(state: SessionState) -> int {
    match state.receiving_chain_key {
        Some(chain) => chain.count as int,
        None => 0,
    }
}

/// What a turn derives for a root key, a ratchet secret and a remote key.
pub open spec fn turn_bytes(
    key: Seq<u8>,
    secret_key: Seq<u8>,
    remote_key: Seq<u8>,
    info: Seq<u8>,
) -> Seq<u8> {
    hkdf_sha256(Some(key), x25519_shared(secret_key, remote_key), info, 96)
}

/// A turn is bound to the name of the protocol, the session and both
/// identities, the one that comes first in order standing first.
pub proof fn law_turn_is_bound(tag: Seq<u8>, local: Seq<u8>, remote: Seq<u8>)
    ensures
        ({
            let name = vstd::utf8::encode_utf8("/freesignal/double_ratchet/v0.1"@);
            let info = turn_info(tag, local, remote);
            &&& precedes(local, remote) ==> info == name + tag + local + remote + seq![0u8]
            &&& !precedes(local, remote) ==> info == name + tag + remote + local + seq![0u8]
        }),
{
    let name = vstd::utf8::encode_utf8("/freesignal/double_ratchet/v0.1"@);
    let info = turn_info(tag, local, remote);
    if precedes(local, remote) {
        assert(info =~= name + tag + local + remote + seq![0u8]);
    } else {
        assert(info =~= name + tag + remote + local + seq![0u8]);
    }
}

/// Turns of two sessions are bound to the same bytes only where the tags and
/// the pairs of identities are the same.
pub proof fn law_turns_are_told_apart(
    tag: Seq<u8>,
    a: Seq<u8>,
    b: Seq<u8>,
    other_tag: Seq<u8>,
    c: Seq<u8>,
    d: Seq<u8>,
)
    requires
        tag.len() == 32,
        other_tag.len() == 32,
        a.len() == 32,
        b.len() == 32,
        c.len() == 32,
        d.len() == 32,
        turn_info(tag, a, b) == turn_info(other_tag, c, d),
    ensures
        tag == other_tag,
        (a == c && b == d) || (a == d && b == c),
{
    let name = vstd::utf8::encode_utf8("/freesignal/double_ratchet/v0.1"@);
    let n = name.len() as int;
    law_turn_is_bound(tag, a, b);
    law_turn_is_bound(other_tag, c, d);
    let (x, y) = (turn_info(tag, a, b), turn_info(other_tag, c, d));
    let (a1, a2) = if precedes(a, b) {
        (a, b)
    } else {
        (b, a)
    };
    let (c1, c2) = if precedes(c, d) {
        (c, d)
    } else {
        (d, c)
    };
    assert(x.subrange(n, n + 32) =~= tag);
    assert(y.subrange(n, n + 32) =~= other_tag);
    assert(x.subrange(n + 32, n + 64) =~= a1);
    assert(y.subrange(n + 32, n + 64) =~= c1);
    assert(x.subrange(n + 64, n + 96) =~= a2);
    assert(y.subrange(n + 64, n + 96) =~= c2);
}

/// The tag of a session is derived from the root key that it starts from.
pub proof fn law_tag_of_root_key(root_key: Seq<u8>)
    ensures
        session_tag(root_key) == hkdf_sha256(
            Some(Seq::new(32, |i: int| 0u8)),
            root_key,
            vstd::utf8::encode_utf8("/freesignal/double_ratchet/v0.1/tag"@),
            32,
        ),
{
}

/// Turning the root gives a chain, a root key and a header key, all out of one
/// derivation, and changes nothing else of the session.
pub proof fn law_expansion(state: SessionState, local: Seq<u8>, remote_key: Seq<u8>, prev: u32)
    ensures
        ({
            let okm = turn_bytes(
                state.root_key.key,
                state.root_key.secret_key,
                remote_key,
                turn_info(state.session_tag, local, state.remote_identity),
            );
            let after = state.expanded(local, remote_key);
            let chain = state.expanded_chain(local, remote_key, prev);
            &&& after.root_key.key == okm.subrange(0, 32)
            &&& after.root_key.secret_key == state.root_key.secret_key
            &&& after == (SessionState { root_key: after.root_key, ..state })
            &&& chain.key == okm.subrange(32, 64)
            &&& chain.remote_key == remote_key
            &&& chain.count == 0
            &&& chain.prev == prev
            &&& state.expanded_header_key(local, remote_key) == okm.subrange(64, 96)
        }),
{
}

/// A session starts with what it is given. Where the remote key is known it
/// starts with a turn to it: a sending chain, a new root key, and the header
/// key that was next taken up.
pub proof fn law_start(init: InitState, secret_key: Seq<u8>, local: Seq<u8>)
    ensures
        ({
            let state = SessionState::started(init, secret_key, local);
            let tag = session_tag(init.root_key);
            &&& state.session_tag == tag
            &&& state.remote_identity == init.remote_identity
            &&& state.root_key.secret_key == secret_key
            &&& state.receiving_chain_key is None
            &&& state.receiving_header_keys.curr is None
            &&& state.receiving_header_keys.next == init.next_header_key
            &&& init.remote_key is None ==> {
                &&& state.root_key.key == init.root_key
                &&& state.sending_chain_key is None
                &&& state.sending_header_keys.curr is None
                &&& state.sending_header_keys.next == init.header_key
            }
            &&& init.remote_key matches Some(remote_key) ==> {
                let okm = turn_bytes(
                    init.root_key,
                    secret_key,
                    remote_key,
                    turn_info(tag, local, init.remote_identity),
                );
                &&& state.root_key.key == okm.subrange(0, 32)
                &&& state.sending_chain_key == Some(
                    (ChainState { remote_key, key: okm.subrange(32, 64), count: 0, prev: 0 }),
                )
                &&& state.sending_header_keys.curr == init.header_key
                &&& state.sending_header_keys.next == Some(okm.subrange(64, 96))
            }
        }),
{
}

/// At its start a session tells the store the tag of its ratchet key, asks it
/// for the local identity where it turns, and is then stored and committed.
pub proof fn law_start_calls(init: InitState, secret_key: Seq<u8>, local: Seq<u8>)
    ensures
        ({
            let calls = SessionState::start_calls(init, secret_key, local);
            let n = calls.len() as int;
            &&& n == if init.remote_key is Some {
                4int
            } else {
                3int
            }
            &&& calls[0] == StoreCall::<SessionState>::SetHashKey {
                hash_key: sha256(x25519_public(secret_key)),
                session_tag: SessionState::started(init, secret_key, local).session_tag,
            }
            &&& init.remote_key is Some ==> calls[1]
                == StoreCall::<SessionState>::GetVerifyingKey { answer: local }
            &&& calls[n - 2] == StoreCall::SetData {
                session: SessionState::started(init, secret_key, local),
            }
            &&& calls[n - 1] == StoreCall::<SessionState>::Commit
        }),
{
}

/// A commit stores the session as it is, and then commits the store.
pub proof fn law_commit_calls(state: SessionState)
    ensures
        commit_calls(state).len() == 2,
        commit_calls(state)[0] == (StoreCall::SetData { session: state }),
        commit_calls(state)[1] == StoreCall::<SessionState>::Commit,
{
}

/// Sending moves the sending chain on by one message and changes nothing else.
pub proof fn law_sending(state: SessionState)
    requires
        count_of(state.sending_chain_key) < u32::MAX,
    ensures
        state.sending_chain_key is None ==> state.sent() == state,
        state.sending_chain_key matches Some(chain) ==> {
            let moved = ChainState {
                key: hmac_sha256(chain.key, seq![0x02u8]),
                count: (chain.count + 1) as u32,
                ..chain
            };
            state.sent() == (SessionState { sending_chain_key: Some(moved), ..state })
        },
{
    reveal_with_fuel(chain_key_after, 2);
}

/// Which headers are turned down, and why: on the current chain a message must
/// not lie behind, nor more than 2000 ahead; on a new chain the old one must not
/// end before what has been taken of it, nor more than 2000 messages behind
/// that, and the message must be one of the first 2000.
pub proof fn law_refusals(state: SessionState, header: HeaderState)
    ensures
        ({
            let refusal = state.refusal(header);
            let taken = taken_of(state);
            let same = !names_new_key(state, header);
            &&& state.is_new_key(header) == names_new_key(state, header)
            &&& count_of(state.receiving_chain_key) == taken
            &&& same ==> {
                &&& refusal is None <==> taken <= header.count <= taken + 2000
                &&& refusal == Some(DoubleRatchetError::ChainNotFound) <==> header.count < taken
                &&& refusal == Some(DoubleRatchetError::MaxSkipExceeded) <==> header.count > taken
                    + 2000
            }
            &&& !same ==> {
                &&& refusal is None <==> taken <= header.previous <= taken + 2000 && header.count
                    <= 2000
                &&& refusal == Some(DoubleRatchetError::InvalidHeader) <==> header.previous < taken
                &&& refusal == Some(DoubleRatchetError::MaxSkipExceeded) <==> taken
                    <= header.previous && (header.previous > taken + 2000 || header.count > 2000)
            }
        }),
{
}

/// Taking a message first asks the store for a skipped key of the session.
/// Where it has one, that one is given, and nothing else happens. Where it has
/// none and the header is turned down, nothing else happens either.
pub proof fn law_asking_first(state: SessionState, header: HeaderState, answers: Answers)
    ensures
        ({
            let outcome = state.receive(header, answers);
            &&& outcome.calls.len() >= 1
            &&& outcome.calls[0] == StoreCall::<SessionState>::GetPreviousKeys {
                session_tag: state.session_tag,
                answer: answers.skipped,
            }
            &&& answers.skipped matches Some(key) ==> {
                &&& outcome.result == Ok::<Seq<u8>, DoubleRatchetError>(key)
                &&& outcome.state == state
                &&& outcome.calls.len() == 1
            }
            &&& answers.skipped is None ==> (state.refusal(header) matches Some(error) ==> {
                &&& outcome.result == Err::<Seq<u8>, DoubleRatchetError>(error)
                &&& outcome.state == state
                &&& outcome.calls.len() == 1
            })
        }),
{
}

/// Taking a message of the current chain gives its key, moves the receiving
/// chain on to it, and changes nothing else. The key of every message that it
/// passes over is stored, in their order, and nothing else is asked of the
/// store. A message that was taken last is not taken again.
pub proof fn law_taking_on_the_current_chain(
    state: SessionState,
    header: HeaderState,
    answers: Answers,
)
    requires
        answers.skipped is None,
        !names_new_key(state, header),
        taken_of(state) <= header.count <= taken_of(state) + 2000,
    ensures
        ({
            let outcome = state.receive(header, answers);
            let chain = state.receiving_chain_key.unwrap();
            let steps = header.count - chain.count;
            let moved = ChainState {
                key: chain_key_after(chain.key, steps as nat),
                count: header.count,
                ..chain
            };
            &&& steps == 0 ==> {
                &&& outcome.result == Err::<Seq<u8>, DoubleRatchetError>(
                    DoubleRatchetError::ChainNotFound,
                )
                &&& outcome.state == state
                &&& outcome.calls.len() == 1
            }
            &&& steps > 0 ==> {
                &&& outcome.result == Ok::<Seq<u8>, DoubleRatchetError>(
                    hmac_sha256(chain_key_after(chain.key, (steps - 1) as nat), seq![0x01u8]),
                )
                &&& outcome.state == (SessionState { receiving_chain_key: Some(moved), ..state })
                &&& outcome.calls.len() == steps
                &&& forall|k: int|
                    1 <= k < steps ==> stores(
                        #[trigger] outcome.calls[k],
                        state.session_tag,
                        hmac_sha256(chain_key_after(chain.key, (k - 1) as nat), seq![0x01u8]),
                    )
            }
        }),
{
}

/// How many messages of the old receiving chain a turn passes over.
pub open spec fn left_over(state: SessionState, header: HeaderState) -> int {
    match state.receiving_chain_key {
        Some(chain) => header.previous - chain.count,
        None => 0,
    }
}

/// A turn derives the receiving chain with the secret that the session had, and
/// the sending chain with the fresh one. It takes up the header keys that were
/// next. The new receiving chain is followed to the message, whose key comes
/// out. A header that names no message turns the ratchet and then fails.
pub proof fn law_taking_on_a_new_chain(state: SessionState, header: HeaderState, answers: Answers)
    requires
        answers.skipped is None,
        names_new_key(state, header),
        taken_of(state) <= header.previous <= taken_of(state) + 2000,
        header.count <= 2000,
    ensures
        state.turns(header, answers),
        ({
            let outcome = state.receive(header, answers);
            let first = turn_bytes(
                state.root_key.key,
                state.root_key.secret_key,
                header.public_key,
                turn_info(state.session_tag, answers.receiving_identity, state.remote_identity),
            );
            let second = turn_bytes(
                first.subrange(0, 32),
                answers.secret_key,
                header.public_key,
                turn_info(state.session_tag, answers.sending_identity, state.remote_identity),
            );
            let origin = first.subrange(32, 64);
            let after = outcome.state;
            &&& header.count == 0 ==> outcome.result == Err::<Seq<u8>, DoubleRatchetError>(
                DoubleRatchetError::ChainNotFound,
            )
            &&& header.count > 0 ==> outcome.result == Ok::<Seq<u8>, DoubleRatchetError>(
                hmac_sha256(chain_key_after(origin, (header.count - 1) as nat), seq![0x01u8]),
            )
            &&& after.session_tag == state.session_tag
            &&& after.remote_identity == state.remote_identity
            &&& after.root_key.secret_key == answers.secret_key
            &&& after.root_key.key == second.subrange(0, 32)
            &&& after.receiving_chain_key == Some(
                (ChainState {
                    remote_key: header.public_key,
                    key: chain_key_after(origin, header.count as nat),
                    count: header.count,
                    prev: if state.receiving_chain_key is Some {
                        header.previous
                    } else {
                        0
                    },
                }),
            )
            &&& after.sending_chain_key == Some(
                (ChainState {
                    remote_key: header.public_key,
                    key: second.subrange(32, 64),
                    count: 0,
                    prev: match state.sending_chain_key {
                        Some(chain) => chain.count,
                        None => 0,
                    },
                }),
            )
            &&& after.receiving_header_keys.curr == state.receiving_header_keys.next
            &&& after.receiving_header_keys.next == Some(first.subrange(64, 96))
            &&& after.sending_header_keys.curr == state.sending_header_keys.next
            &&& after.sending_header_keys.next == Some(second.subrange(64, 96))
        }),
{
}

/// What the store is told in a turn, call by call: the key of every message of
/// the old chain that was passed over, in their order; the header key, where
/// there is one, and the tag, under the hash of the new ratchet key; and the key
/// of every message of the new chain that is passed over, in their order.
pub proof fn law_turn_tells_the_store(state: SessionState, header: HeaderState, answers: Answers)
    requires
        answers.skipped is None,
        names_new_key(state, header),
        taken_of(state) <= header.previous <= taken_of(state) + 2000,
        header.count <= 2000,
    ensures
        ({
            let calls = state.receive(header, answers).calls;
            let old = state.receiving_chain_key;
            let left = left_over(state, header);
            let hash_key = sha256(x25519_public(answers.secret_key));
            let origin = turn_bytes(
                state.root_key.key,
                state.root_key.secret_key,
                header.public_key,
                turn_info(state.session_tag, answers.receiving_identity, state.remote_identity),
            ).subrange(32, 64);
            let extra: int = if state.receiving_header_keys.next is Some {
                1
            } else {
                0
            };
            let start = left + extra + 4;
            &&& calls.len() == if header.count > 0 {
                start + header.count - 1
            } else {
                start
            }
            &&& forall|i: int|
                1 <= i <= left ==> stores(
                    #[trigger] calls[i],
                    state.session_tag,
                    hmac_sha256(
                        chain_key_after(old.unwrap().key, (i - 1) as nat),
                        seq![0x01u8],
                    ),
                )
            &&& calls[left + 1] == StoreCall::<SessionState>::GetVerifyingKey {
                answer: answers.receiving_identity,
            }
            &&& state.receiving_header_keys.next matches Some(value) ==> calls[left + 2]
                == StoreCall::<SessionState>::SetHeaderKey { hash_key, value }
            &&& calls[left + extra + 2] == StoreCall::<SessionState>::SetHashKey {
                hash_key,
                session_tag: state.session_tag,
            }
            &&& calls[left + extra + 3] == StoreCall::<SessionState>::GetVerifyingKey {
                answer: answers.sending_identity,
            }
            &&& forall|i: int|
                start <= i < calls.len() ==> stores(
                    #[trigger] calls[i],
                    state.session_tag,
                    hmac_sha256(chain_key_after(origin, (i - start) as nat), seq![0x01u8]),
                )
        }),
{
}

/// The end that is behind takes message number `n` of the new chain while
/// messages of the earlier chain are still on their way. The key of each of
/// those is stored, in their order, and so is the key of each message of the new
/// chain before number `n`.
pub proof fn law_keys_of_crossing_messages_are_stored(ends: Ends, n: u32, answers: Answers)
    requires
        ends.in_step(),
        ends.behind.receiving_chain_key is Some,
        0 < n <= count_of(ends.ahead.sending_chain_key),
        n <= MAX_SKIP,
        ends.ahead.sending_chain_key.unwrap().prev - count_of(ends.behind.receiving_chain_key)
            <= MAX_SKIP,
        answers.skipped is None,
        answers.receiving_identity == ends.behind_identity,
    ensures
        ({
            let calls = ends.behind.receive(header_of(ends.ahead, n), answers).calls;
            let taken = count_of(ends.behind.receiving_chain_key);
            let tag = ends.behind.session_tag;
            &&& forall|i: u32|
                taken < i <= ends.ahead.sending_chain_key.unwrap().prev ==> #[trigger] stores(
                    calls[i - taken],
                    tag,
                    nth_key(ends.earlier_origin, i),
                )
            &&& forall|i: u32|
                0 < i < n ==> #[trigger] stores(
                    calls[calls.len() - n + i],
                    tag,
                    nth_key(ends.origin(), i),
                )
        }),
{
    let (a, b) = (ends.ahead, ends.behind);
    let header = header_of(a, n);
    let calls = b.receive(header, answers).calls;
    let old = b.receiving_chain_key.unwrap();
    lemma_turn_info_symmetric(a.session_tag, ends.ahead_identity, ends.behind_identity);
    law_turn_tells_the_store(b, header, answers);
    let last = a.sending_chain_key.unwrap().prev;
    assert forall|i: u32| old.count < i <= last implies #[trigger] stores(
        calls[i - old.count],
        b.session_tag,
        nth_key(ends.earlier_origin, i),
    ) by {
        lemma_chain_keys_add_up(ends.earlier_origin, old.count as nat, (i - old.count - 1) as nat);
    }
}

proof fn lemma_chain_keys_add_up(origin: Seq<u8>, m: nat, n: nat)
    ensures
        chain_key_after(chain_key_after(origin, m), n) == chain_key_after(origin, m + n),
    decreases n,
{
    if n > 0 {
        lemma_chain_keys_add_up(origin, m, (n - 1) as nat);
    }
}

/// The end that is behind takes the first message of the new chain while
/// messages of the earlier chain are still on their way. The key that the store
/// then keeps is that of the last of those, and when that message comes late it
/// is taken with the key that it was sent with.
pub proof fn law_late_message_of_the_earlier_chain(
    ends: Ends,
    answers: Answers,
    before: Seq<StoreCall<SessionState>>,
    late: HeaderState,
    late_answers: Answers,
)
    requires
        ends.in_step(),
        ends.behind.receiving_chain_key is Some,
        count_of(ends.ahead.sending_chain_key) > 0,
        0 < ends.ahead.sending_chain_key.unwrap().prev - count_of(
            ends.behind.receiving_chain_key,
        ) <= MAX_SKIP,
        answers.skipped is None,
        answers.receiving_identity == ends.behind_identity,
        late_answers.skipped == kept_key(
            before + ends.behind.receive(header_of(ends.ahead, 1), answers).calls,
            ends.behind.session_tag,
        ),
    ensures
        ({
            let first = ends.behind.receive(header_of(ends.ahead, 1), answers);
            let last = ends.ahead.sending_chain_key.unwrap().prev;
            &&& kept_key(before + first.calls, ends.behind.session_tag) == Some(
                nth_key(ends.earlier_origin, last),
            )
            &&& first.state.receive(late, late_answers).result == Ok::<
                Seq<u8>,
                DoubleRatchetError,
            >(nth_key(ends.earlier_origin, last))
        }),
{
    let (a, b) = (ends.ahead, ends.behind);
    let header = header_of(a, 1);
    let tag = b.session_tag;
    let last = a.sending_chain_key.unwrap().prev;
    let calls = b.receive(header, answers).calls;
    let left = left_over(b, header);
    law_keys_of_crossing_messages_are_stored(ends, 1, answers);
    law_turn_tells_the_store(b, header, answers);
    assert(stores(calls[left], tag, nth_key(ends.earlier_origin, last)));
    let upto = before + calls.subrange(0, left + 1);
    assert(upto.last() == calls[left]);
    assert(kept_key(upto, tag) == Some(nth_key(ends.earlier_origin, last)));
    let rest = calls.subrange(left + 1, calls.len() as int);
    lemma_key_stays(upto, rest, tag);
    assert(upto + rest =~= before + calls);
}

/// Calls that neither store nor fetch nor delete a skipped key leave the kept
/// ones as they are.
proof fn lemma_key_stays(
    before: Seq<StoreCall<SessionState>>,
    calls: Seq<StoreCall<SessionState>>,
    tag: Seq<u8>,
)
    requires
        forall|i: int|
            0 <= i < calls.len() ==> !(#[trigger] calls[i] is SetPreviousKeys)
                && !(calls[i] is GetPreviousKeys) && !(calls[i] is DelPreviousKeys),
    ensures
        kept_key(before + calls, tag) == kept_key(before, tag),
    decreases calls.len(),
{
    if calls.len() == 0 {
        assert(before + calls =~= before);
    } else {
        lemma_key_stays(before, calls.drop_last(), tag);
        assert((before + calls).drop_last() =~= before + calls.drop_last());
        assert((before + calls).last() == calls[calls.len() - 1]);
    }
}

/// What looking for the session of a message comes to, for every answer of the
/// store, and what the store is asked.
pub proof fn law_search(
    bytes: Seq<u8>,
    header_key: Option<Seq<u8>>,
    session: Option<SessionState>,
)
    requires
        bytes.len() >= 32,
    ensures
        ({
            let found = session_found(bytes, header_key, session);
            let calls = find_calls(bytes, header_key, session);
            let unread = header_key matches Some(key) && header_in(bytes, key) is None;
            &&& found == Err::<(SessionState, HeaderState), DoubleRatchetError>(
                DoubleRatchetError::InvalidHeader,
            ) <==> unread
            &&& found == Err::<(SessionState, HeaderState), DoubleRatchetError>(
                DoubleRatchetError::SessionNotFound,
            ) <==> header_key is None || (!unread && session is None)
            &&& found is Ok <==> header_key is Some && !unread && session is Some
            &&& found matches Ok((state, header)) ==> session == Some(state) && header_in(
                bytes,
                header_key.unwrap(),
            ) == Some(header)
            &&& calls[0] == StoreCall::<SessionState>::GetHeaderKey {
                hash_key: bytes.subrange(0, 32),
                answer: header_key,
            }
            &&& header_key is None || unread ==> calls.len() == 1
            &&& header_key is Some && !unread ==> calls.len() == 2 && calls[1]
                == StoreCall::GetDataByHash {
                hash_key: bytes.subrange(0, 32),
                answer: session,
            }
        }),
{
}

/// A header is in the clear in 72 bytes, encrypted in 100, and in no other
/// number of them.
pub proof fn law_header_in_bytes(bytes: Seq<u8>, header_key: Seq<u8>)
    requires
        bytes.len() >= 32,
    ensures
        bytes.len() != 72 && bytes.len() != 100 ==> header_in(bytes, header_key) is None,
        bytes.len() == 72 ==> (header_in(bytes, header_key) matches Some(header)
            && header.encoded() == bytes.subrange(32, 72)),
        bytes.len() == 100 ==> {
            let opened = opened_header(header_key, bytes.subrange(32, 100));
            let header = header_in(bytes, header_key);
            &&& header is Some <==> (opened matches Some(text) && text.len() == 40)
            &&& header is Some ==> opened == Some(header.unwrap().encoded())
        },
{
    lemma_header_from_bytes(bytes.subrange(32, bytes.len() as int));
    if let Some(plaintext) = opened_header(header_key, bytes.subrange(32, 100)) {
        lemma_header_from_bytes(plaintext);
    }
}

/// A header that a message carries in the clear, or encrypted under the header
/// key, is read back from it.
pub proof fn law_header_is_read_back(
    hash_key: Seq<u8>,
    header: HeaderState,
    header_key: Seq<u8>,
    sealed: Seq<u8>,
)
    requires
        hash_key.len() == 32,
        header.public_key.len() == 32,
        sealed.len() == 68,
        opened_header(header_key, sealed) == Some(header.encoded()),
    ensures
        header_in(hash_key + header.encoded(), header_key) == Some(header),
        header_in(hash_key + sealed, header_key) == Some(header),
{
    lemma_header_round_trip(header);
    let clear = hash_key + header.encoded();
    assert(clear.subrange(32, clear.len() as int) =~= header.encoded());
    let hidden = hash_key + sealed;
    assert(hidden.subrange(32, hidden.len() as int) =~= sealed);
}

/// What taking a message has left behind: the outcome's state, result and calls
/// are those of the session, of the answer and of the store.
pub proof fn law_what_was_received<K: SessionKeyStore<SessionData>>(
    session: Session<K>,
    result: Result<MessageKey, DoubleRatchetError>,
    pre: SessionState,
    before: Seq<StoreCall<SessionState>>,
    header: HeaderState,
    answers: Answers,
)
    requires
        has_received(session, result, pre, before, header, answers),
    ensures
        ({
            let outcome = pre.receive(header, answers);
            let turns = answers.skipped is None && pre.refusal(header) is None && names_new_key(
                pre,
                header,
            );
            &&& session.current@ == outcome.state
            &&& session.keystore.calls() == before + outcome.calls
            &&& result is Ok <==> outcome.result is Ok
            &&& result matches Ok(key) ==> outcome.result == Ok::<Seq<u8>, DoubleRatchetError>(
                key.0@,
            )
            &&& result matches Err(error) ==> outcome.result == Err::<
                Seq<u8>,
                DoubleRatchetError,
            >(error)
            &&& turns ==> drawn(session.current@.root_key.secret_key)
            &&& !turns ==> session.current@.root_key == pre.root_key
            &&& answers.secret_key.len() == 32
            &&& answers.receiving_identity.len() == 32
            &&& answers.sending_identity.len() == 32
        }),
{
}

/// What starting a session has left behind.
pub proof fn law_what_was_started<K: SessionKeyStore<SessionData>>(
    session: Session<K>,
    init: InitState,
    before: Seq<StoreCall<SessionState>>,
    local: Seq<u8>,
)
    requires
        has_started(session, init, before, local),
    ensures
        ({
            let secret_key = session.current@.root_key.secret_key;
            &&& local.len() == 32
            &&& session.current@ == SessionState::started(init, secret_key, local)
            &&& session.keystore.calls() == before + SessionState::start_calls(
                init,
                secret_key,
                local,
            )
        }),
{
}

/// What looking for the session of a message has left behind: the session and
/// the header that were found, in a session that holds the store and has nothing
/// to go back to.
pub proof fn law_what_was_sought<K: SessionKeyStore<SessionData>>(
    result: Result<(Session<K>, SessionHeader), DoubleRatchetError>,
    bytes: Seq<u8>,
    before: Seq<StoreCall<SessionState>>,
    store: K,
    header_key: Option<Seq<u8>>,
    session: Option<SessionState>,
)
    requires
        has_been_sought(result, bytes, before, store, header_key, session),
    ensures
        ({
            let found = session_found(bytes, header_key, session);
            &&& store.calls() == before + find_calls(bytes, header_key, session)
            &&& result is Ok <==> found is Ok
            &&& result matches Err(error) ==> found == Err::<
                (SessionState, HeaderState),
                DoubleRatchetError,
            >(error)
            &&& result matches Ok((session, header)) ==> {
                &&& found == Ok::<(SessionState, HeaderState), DoubleRatchetError>(
                    (session.current@, header@),
                )
                &&& session.keystore == store
                &&& session.previous is None
            }
            &&& header_key matches Some(key) ==> key.len() == 32
        }),
{
}

} // verus!
