//! What holds of two sessions that talk to each other.
//!
//! At any time one end is ahead: it has turned its ratchet last, and the other
//! end has not seen its new key yet. Both ends may send and receive. When the
//! other end takes a message from the end that is ahead, it turns its own
//! ratchet, and is then the one ahead.
use super::chain::{chain_key_after, message_key, ChainState};
use super::data::SessionState;
use super::error::DoubleRatchetError;
use super::model::{
    commit_calls, count_of, lemma_turn_info_symmetric, session_tag, skip_calls, turn_info, Answers,
    MAX_SKIP,
};
use super::root::turn_material;
use super::steps::{header_in, session_found};
use super::session_header::{lemma_header_round_trip, HeaderState};
use crate::header::opened_header;
use crate::init::InitState;
use crate::keys::agree;
use crate::primitives::{sha256, x25519_public, x25519_shared};
use crate::store::StoreCall;
use vstd::prelude::*;

verus! {

/// The key of message number `n`, counted from 1, of the chain that starts
/// with the chain key `origin`.
pub open spec fn nth_key(origin: Seq<u8>, n: u32) -> Seq<u8> {
    message_key(chain_key_after(origin, (n - 1) as nat))
}

/// Whether the chain started with the chain key `origin`.
pub open spec fn runs_from(chain: ChainState, origin: Seq<u8>) -> bool {
    chain.key == chain_key_after(origin, chain.count as nat)
}

/// Two ends of a session, with the identity that each of them acts under.
pub struct Ends {
    /// The end that is ahead.
    pub ahead: SessionState,
    pub ahead_identity: Seq<u8>,
    pub behind: SessionState,
    pub behind_identity: Seq<u8>,
    /// The first chain key of the end that is behind.
    pub behind_origin: Seq<u8>,
    /// The first chain key of the chain that the end that is ahead had before
    /// its last turn.
    pub earlier_origin: Seq<u8>,
}

impl Ends {
    /// What the last turn of the end that is ahead derived.
    pub open spec fn material(self) -> Seq<u8> {
        turn_material(
            self.behind.root_key.key,
            x25519_shared(self.ahead.root_key.secret_key, self.behind.root_key.public_key()),
            turn_info(self.ahead.session_tag, self.ahead_identity, self.behind_identity),
        )
    }

    /// The first chain key of the end that is ahead.
    pub open spec fn origin(self) -> Seq<u8> {
        self.material().subrange(32, 64)
    }

    /// Both ends are in step. The ratchet secrets must agree, as all do that a
    /// session has taken up: [`crate::keys::agrees_with_all`] holds of them.
    pub open spec fn in_step(self) -> bool {
        let (a, b) = (self.ahead, self.behind);
        &&& a.session_tag == b.session_tag
        &&& a.remote_identity == self.behind_identity
        &&& b.remote_identity == self.ahead_identity
        &&& self.ahead_identity.len() == 32
        &&& self.behind_identity.len() == 32
        &&& agree(a.root_key.secret_key, b.root_key.secret_key)
        &&& a.root_key.key == self.material().subrange(0, 32)
        &&& a.sending_chain_key matches Some(sending) && {
            &&& runs_from(sending, self.origin())
            &&& sending.prev >= count_of(b.receiving_chain_key)
        }
        &&& (b.receiving_chain_key matches Some(receiving) ==> {
            &&& receiving.remote_key != a.root_key.public_key()
            &&& runs_from(receiving, self.earlier_origin)
        })
        &&& match (b.sending_chain_key, a.receiving_chain_key) {
            (Some(sending), Some(receiving)) => {
                &&& receiving.remote_key == b.root_key.public_key()
                &&& runs_from(sending, self.behind_origin)
                &&& runs_from(receiving, self.behind_origin)
                &&& receiving.count <= sending.count
            },
            (None, None) => true,
            _ => false,
        }
    }

    /// The header keys of both ends are in step too.
    pub open spec fn header_keys_in_step(self) -> bool {
        &&& self.ahead.sending_header_keys == self.behind.receiving_header_keys.turned(
            self.material().subrange(64, 96),
        )
        &&& self.behind.sending_header_keys == self.ahead.receiving_header_keys
    }
}

/// The header of message number `n` of the sender's chain.
pub open spec fn header_of(sender: SessionState, n: u32) -> HeaderState {
    HeaderState {
        count: n,
        previous: sender.sending_chain_key.unwrap().prev,
        public_key: sender.root_key.public_key(),
    }
}

/// Two sessions that start from one root key, the one with the other's ratchet
/// key, are in step. Where they start with crossed header keys, those are in
/// step too.
pub proof fn law_sessions_start_in_step(
    a: InitState,
    a_secret: Seq<u8>,
    a_identity: Seq<u8>,
    b: InitState,
    b_secret: Seq<u8>,
    b_identity: Seq<u8>,
    behind_origin: Seq<u8>,
    earlier_origin: Seq<u8>,
)
    requires
        a_identity.len() == 32,
        b_identity.len() == 32,
        a.root_key == b.root_key,
        a.remote_identity == b_identity,
        b.remote_identity == a_identity,
        a.remote_key == Some(x25519_public(b_secret)),
        b.remote_key is None,
        agree(a_secret, b_secret),
    ensures
        ({
            let ends = Ends {
                ahead: SessionState::started(a, a_secret, a_identity),
                ahead_identity: a_identity,
                behind: SessionState::started(b, b_secret, b_identity),
                behind_identity: b_identity,
                behind_origin,
                earlier_origin,
            };
            &&& ends.in_step()
            &&& a.header_key == b.next_header_key && a.next_header_key == b.header_key
                ==> ends.header_keys_in_step()
        }),
{
}

/// What the end that is ahead sends is the next message of its chain, and
/// both ends stay in step.
pub proof fn law_ahead_sends(ends: Ends)
    requires
        ends.in_step(),
        count_of(ends.ahead.sending_chain_key) < u32::MAX,
    ensures
        ({
            let chain = ends.ahead.sending_chain_key.unwrap();
            let n = (chain.count + 1) as u32;
            let after = Ends { ahead: ends.ahead.sent(), ..ends };
            &&& chain.key_at(0) == nth_key(ends.origin(), n)
            &&& chain.after(1).header(ends.ahead.root_key.public_key()) == header_of(
                ends.ahead,
                n,
            )
            &&& after.in_step()
            &&& ends.header_keys_in_step() ==> after.header_keys_in_step()
            &&& after.origin() == ends.origin()
        }),
{
    reveal_with_fuel(chain_key_after, 2);
}

/// What the end that is behind sends is the next message of its chain, and
/// both ends stay in step.
pub proof fn law_behind_sends(ends: Ends)
    requires
        ends.in_step(),
        ends.behind.sending_chain_key is Some,
        count_of(ends.behind.sending_chain_key) < u32::MAX,
    ensures
        ({
            let chain = ends.behind.sending_chain_key.unwrap();
            let n = (chain.count + 1) as u32;
            let after = Ends { behind: ends.behind.sent(), ..ends };
            &&& chain.key_at(0) == nth_key(ends.behind_origin, n)
            &&& chain.after(1).header(ends.behind.root_key.public_key()) == header_of(
                ends.behind,
                n,
            )
            &&& after.in_step()
            &&& ends.header_keys_in_step() ==> after.header_keys_in_step()
            &&& after.origin() == ends.origin()
        }),
{
    reveal_with_fuel(chain_key_after, 2);
}

/// A chain that started with `origin`, `m` messages on, is the chain at the
/// message number that it has then.
proof fn lemma_runs_on(chain: ChainState, origin: Seq<u8>, m: nat)
    requires
        runs_from(chain, origin),
        chain.count + m <= u32::MAX,
    ensures
        runs_from(chain.after(m), origin),
        m > 0 ==> chain.key_at((m - 1) as nat) == nth_key(origin, (chain.count + m) as u32),
    decreases m,
{
    if m > 0 {
        lemma_runs_on(chain, origin, (m - 1) as nat);
    }
}

/// The end that is ahead takes message number `n` of the other end, where it
/// has not taken that one or a later one: it comes to the key that the message
/// was sent with, and both ends stay in step. The store must have no skipped
/// key for the session: that one would be taken instead.
pub proof fn law_ahead_receives(ends: Ends, n: u32, answers: Answers)
    requires
        ends.in_step(),
        count_of(ends.ahead.receiving_chain_key) < n <= count_of(ends.behind.sending_chain_key),
        n - count_of(ends.ahead.receiving_chain_key) <= MAX_SKIP,
        answers.skipped is None,
    ensures
        ({
            let outcome = ends.ahead.receive(header_of(ends.behind, n), answers);
            let after = Ends { ahead: outcome.state, ..ends };
            &&& outcome.result == Ok::<Seq<u8>, DoubleRatchetError>(nth_key(ends.behind_origin, n))
            &&& after.in_step()
            &&& ends.header_keys_in_step() ==> after.header_keys_in_step()
            &&& after.origin() == ends.origin()
            &&& count_of(outcome.state.receiving_chain_key) == n
        }),
{
    let receiving = ends.ahead.receiving_chain_key.unwrap();
    lemma_runs_on(receiving, ends.behind_origin, (n - receiving.count) as nat);
}

/// The end that is behind takes message number `n` of the end that is ahead:
/// it comes to the key that the message was sent with, turns its ratchet to a
/// fresh secret, and is then ahead of the other end, both in step. The store
/// must have no skipped key for the session: that one would be taken instead.
pub proof fn law_behind_receives(ends: Ends, n: u32, answers: Answers)
    requires
        ends.in_step(),
        0 < n <= count_of(ends.ahead.sending_chain_key),
        n <= MAX_SKIP,
        ends.ahead.sending_chain_key.unwrap().prev - count_of(ends.behind.receiving_chain_key)
            <= MAX_SKIP,
        answers.skipped is None,
        answers.receiving_identity == ends.behind_identity,
        answers.sending_identity == ends.behind_identity,
        agree(ends.ahead.root_key.secret_key, answers.secret_key),
        x25519_public(answers.secret_key) != ends.behind.root_key.public_key(),
    ensures
        ({
            let outcome = ends.behind.receive(header_of(ends.ahead, n), answers);
            let after = Ends {
                ahead: outcome.state,
                ahead_identity: ends.behind_identity,
                behind: ends.ahead,
                behind_identity: ends.ahead_identity,
                behind_origin: ends.origin(),
                earlier_origin: ends.behind_origin,
            };
            &&& outcome.result == Ok::<Seq<u8>, DoubleRatchetError>(nth_key(ends.origin(), n))
            &&& after.in_step()
            &&& ends.header_keys_in_step() ==> after.header_keys_in_step()
            &&& count_of(outcome.state.receiving_chain_key) == n
            &&& outcome.state.root_key.secret_key == answers.secret_key
        }),
{
    let (a, b) = (ends.ahead, ends.behind);
    let header = header_of(a, n);
    lemma_turn_info_symmetric(a.session_tag, ends.ahead_identity, ends.behind_identity);
    assert(b.root_key.material(header.public_key, b.info(ends.behind_identity))
        == ends.material());
    let turned = b.turned(header, answers);
    let receiving = turned.receiving_chain_key.unwrap();
    assert(receiving.key == ends.origin());
    assert(runs_from(receiving, ends.origin()));
    lemma_runs_on(receiving, ends.origin(), n as nat);
    let after = Ends {
        ahead: b.receive(header, answers).state,
        ahead_identity: ends.behind_identity,
        behind: a,
        behind_identity: ends.ahead_identity,
        behind_origin: ends.origin(),
        earlier_origin: ends.behind_origin,
    };
    assert(after.ahead.sending_chain_key.unwrap().key == after.origin());
}

/// The header of message number `n` of the chain that the end that is ahead
/// had before its last turn. The end behind knows that chain by the ratchet key
/// that it came with; what the header says of the chain before is not looked
/// at.
pub open spec fn earlier_header(ends: Ends, n: u32, previous: u32) -> HeaderState {
    HeaderState {
        count: n,
        previous,
        public_key: ends.behind.receiving_chain_key.unwrap().remote_key,
    }
}

/// Both ends wrote at once: the end that is behind takes message number `n` of
/// the chain that the other end had before its last turn, where it has not
/// taken that one or a later one. It comes to the key that the message was sent
/// with, and both ends stay in step. The store must have no skipped key for the
/// session: that one would be taken instead.
pub proof fn law_behind_receives_earlier(ends: Ends, n: u32, previous: u32, answers: Answers)
    requires
        ends.in_step(),
        ends.behind.receiving_chain_key is Some,
        count_of(ends.behind.receiving_chain_key) < n
            <= ends.ahead.sending_chain_key.unwrap().prev,
        n - count_of(ends.behind.receiving_chain_key) <= MAX_SKIP,
        answers.skipped is None,
    ensures
        ({
            let outcome = ends.behind.receive(earlier_header(ends, n, previous), answers);
            let after = Ends { behind: outcome.state, ..ends };
            &&& outcome.result == Ok::<Seq<u8>, DoubleRatchetError>(
                nth_key(ends.earlier_origin, n),
            )
            &&& after.in_step()
            &&& ends.header_keys_in_step() ==> after.header_keys_in_step()
            &&& after.origin() == ends.origin()
            &&& count_of(outcome.state.receiving_chain_key) == n
        }),
{
    let receiving = ends.behind.receiving_chain_key.unwrap();
    lemma_runs_on(receiving, ends.earlier_origin, (n - receiving.count) as nat);
}

/// The skipped keys that a store holds after the given calls, by session tag:
/// a new one takes the place of the one before it, and one that is asked for
/// is given away.
pub open spec fn skipped_keys(calls: Seq<StoreCall<SessionState>>) -> Map<Seq<u8>, Seq<u8>>
    decreases calls.len(),
{
    if calls.len() == 0 {
        Map::empty()
    } else {
        let earlier = skipped_keys(calls.drop_last());
        match calls.last() {
            StoreCall::SetPreviousKeys { session_tag, value } => earlier.insert(
                session_tag,
                value,
            ),
            StoreCall::GetPreviousKeys { session_tag, .. } => earlier.remove(session_tag),
            StoreCall::DelPreviousKeys { session_tag, .. } => match session_tag {
                Some(tag) => earlier.remove(tag),
                None => Map::empty(),
            },
            _ => earlier,
        }
    }
}

/// What such a store answers when it is asked for the skipped key of a session
/// after the given calls.
pub open spec fn kept_key(calls: Seq<StoreCall<SessionState>>, tag: Seq<u8>) -> Option<Seq<u8>> {
    if skipped_keys(calls).dom().contains(tag) {
        Some(skipped_keys(calls)[tag])
    } else {
        None
    }
}

/// The receiving chain that a message belongs to, before it is followed.
pub open spec fn chain_for(
    state: SessionState,
    header: HeaderState,
    answers: Answers,
) -> ChainState {
    if state.is_new_key(header) {
        state.turned(header, answers).receiving_chain_key.unwrap()
    } else {
        state.receiving_chain_key.unwrap()
    }
}

/// A message that skips others of its chain leaves the key of the message just
/// before it in the store. A store that gives away what it is asked for then
/// answers the next message of the session with that key, whatever its header
/// says, and does not answer the one after that: each skipped key is used at
/// most once.
pub proof fn law_skipped_key_is_single_use(
    state: SessionState,
    before: Seq<StoreCall<SessionState>>,
    header: HeaderState,
    answers: Answers,
    late: HeaderState,
    late_answers: Answers,
)
    requires
        answers.skipped is None,
        state.refusal(header) is None,
        chain_for(state, header, answers).count + 2 <= header.count,
        late_answers.skipped == kept_key(
            before + state.receive(header, answers).calls,
            state.session_tag,
        ),
    ensures
        ({
            let chain = chain_for(state, header, answers);
            let first = state.receive(header, answers);
            let second = first.state.receive(late, late_answers);
            &&& second.result == Ok::<Seq<u8>, DoubleRatchetError>(
                chain.key_at((header.count - chain.count - 2) as nat),
            )
            &&& second.state == first.state
            &&& kept_key(before + first.calls + second.calls, state.session_tag) is None
        }),
{
    let first = state.receive(header, answers);
    let second = first.state.receive(late, late_answers);
    let chain = chain_for(state, header, answers);
    let skipped = skip_calls(state.session_tag, chain, (header.count - chain.count - 1) as nat);
    let all = before + first.calls;
    assert(all.last() == skipped.last());
    let then = before + first.calls + second.calls;
    assert(then.drop_last() =~= all);
}

/// The end that is behind takes message number 2 or later of a new chain. The
/// key that the store then keeps is that of the message just before it.
pub proof fn law_behind_keeps_skipped_key(
    ends: Ends,
    n: u32,
    answers: Answers,
    before: Seq<StoreCall<SessionState>>,
)
    requires
        ends.in_step(),
        2 <= n <= count_of(ends.ahead.sending_chain_key),
        n <= MAX_SKIP,
        ends.ahead.sending_chain_key.unwrap().prev - count_of(ends.behind.receiving_chain_key)
            <= MAX_SKIP,
        answers.skipped is None,
        answers.receiving_identity == ends.behind_identity,
    ensures
        kept_key(
            before + ends.behind.receive(header_of(ends.ahead, n), answers).calls,
            ends.behind.session_tag,
        ) == Some(nth_key(ends.origin(), (n - 1) as u32)),
{
    let (a, b) = (ends.ahead, ends.behind);
    let header = header_of(a, n);
    lemma_turn_info_symmetric(a.session_tag, ends.ahead_identity, ends.behind_identity);
    assert(b.root_key.material(header.public_key, b.info(ends.behind_identity))
        == ends.material());
    let chain = chain_for(b, header, answers);
    assert(runs_from(chain, ends.origin()));
    lemma_runs_on(chain, ends.origin(), (n - 1) as nat);
    let skipped = skip_calls(b.session_tag, chain, (n - 1) as nat);
    assert((before + b.receive(header, answers).calls).last() == skipped.last());
}

/// The end that is ahead takes a message that skips others. The key that the
/// store then keeps is that of the message just before it.
pub proof fn law_ahead_keeps_skipped_key(
    ends: Ends,
    n: u32,
    answers: Answers,
    before: Seq<StoreCall<SessionState>>,
)
    requires
        ends.in_step(),
        count_of(ends.ahead.receiving_chain_key) + 2 <= n <= count_of(
            ends.behind.sending_chain_key,
        ),
        n - count_of(ends.ahead.receiving_chain_key) <= MAX_SKIP,
        answers.skipped is None,
    ensures
        kept_key(
            before + ends.ahead.receive(header_of(ends.behind, n), answers).calls,
            ends.ahead.session_tag,
        ) == Some(nth_key(ends.behind_origin, (n - 1) as u32)),
{
    let a = ends.ahead;
    let header = header_of(ends.behind, n);
    let chain = a.receiving_chain_key.unwrap();
    lemma_runs_on(chain, ends.behind_origin, (n - 1 - chain.count) as nat);
    let skipped = skip_calls(a.session_tag, chain, (n - 1 - chain.count) as nat);
    assert((before + a.receive(header, answers).calls).last() == skipped.last());
}

/// A message of the current chain that has been taken, or passed over, is
/// turned down once the store has no key for it, and nothing changes.
pub proof fn law_old_message_is_refused(state: SessionState, header: HeaderState, answers: Answers)
    requires
        !state.is_new_key(header),
        header.count <= count_of(state.receiving_chain_key),
        answers.skipped is None,
    ensures
        state.receive(header, answers).result == Err::<Seq<u8>, DoubleRatchetError>(
            DoubleRatchetError::ChainNotFound,
        ),
        state.receive(header, answers).state == state,
{
}

/// A header that is turned down changes nothing: the session stays as it is,
/// and the store is only asked for a skipped key.
pub proof fn law_refused_header_changes_nothing(
    state: SessionState,
    header: HeaderState,
    answers: Answers,
)
    requires
        answers.skipped is None,
        state.refusal(header) is Some,
    ensures
        state.receive(header, answers).state == state,
        state.receive(header, answers).result is Err,
        state.receive(header, answers).calls.len() == 1,
{
}

/// A single message makes the store keep fewer than twice `MAX_SKIP` keys, and
/// moves a chain on by at most `MAX_SKIP` messages.
pub proof fn law_skipping_is_bounded(state: SessionState, header: HeaderState, answers: Answers)
    requires
        answers.skipped is None,
    ensures
        state.receive(header, answers).calls.len() <= 2 * MAX_SKIP + 4,
        state.refusal(header) is None && !state.is_new_key(header) ==> header.count - count_of(
            state.receiving_chain_key,
        ) <= MAX_SKIP,
        state.refusal(header) is None && state.is_new_key(header) ==> header.count <= MAX_SKIP
            && header.previous - count_of(state.receiving_chain_key) <= MAX_SKIP,
{
}

/// The key that the end that is ahead encrypts its headers under is the one
/// that the other end takes up when it turns, and the key that the other end
/// encrypts under is the one that the end ahead has taken up. Header keys that
/// are in step stay so, whatever either end sends and takes: see the laws above.
pub proof fn law_header_keys_match(ends: Ends)
    requires
        ends.header_keys_in_step(),
    ensures
        ends.ahead.sending_header_keys.curr == ends.behind.receiving_header_keys.next,
        ends.behind.sending_header_keys.curr == ends.ahead.receiving_header_keys.curr,
{
}

/// A header is read back from the bytes of a message, in the clear or
/// encrypted under the header key.
pub proof fn law_header_is_read(
    header: HeaderState,
    hash_key: Seq<u8>,
    header_key: Seq<u8>,
    sealed: Seq<u8>,
)
    requires
        header.public_key.len() == 32,
        hash_key.len() == 32,
    ensures
        header_in(hash_key + header.encoded(), header_key) == Some(header),
        sealed.len() == header.encoded().len() + 28 && opened_header(header_key, sealed) == Some(
            header.encoded(),
        ) ==> header_in(hash_key + sealed, header_key) == Some(header),
{
    lemma_header_round_trip(header);
    let plain = hash_key + header.encoded();
    assert(plain.subrange(32, plain.len() as int) =~= header.encoded());
    let hidden = hash_key + sealed;
    assert(hidden.subrange(32, hidden.len() as int) =~= sealed);
}

/// A message whose header is read, in the clear or encrypted under the header
/// key that the store has, finds the session that the store has for it.
pub proof fn law_known_session_is_found(
    header: HeaderState,
    hash_key: Seq<u8>,
    header_key: Seq<u8>,
    sealed: Seq<u8>,
    state: SessionState,
)
    requires
        header.public_key.len() == 32,
        hash_key.len() == 32,
    ensures
        session_found(hash_key + header.encoded(), Some(header_key), Some(state)) == Ok::<
            (SessionState, HeaderState),
            DoubleRatchetError,
        >((state, header)),
        sealed.len() == header.encoded().len() + 28 && opened_header(header_key, sealed) == Some(
            header.encoded(),
        ) ==> session_found(hash_key + sealed, Some(header_key), Some(state)) == Ok::<
            (SessionState, HeaderState),
            DoubleRatchetError,
        >((state, header)),
{
    law_header_is_read(header, hash_key, header_key, sealed);
}

/// The session tags that a store holds after the given calls, by the hash of a
/// ratchet key.
pub open spec fn stored_tags(calls: Seq<StoreCall<SessionState>>) -> Map<Seq<u8>, Seq<u8>>
    decreases calls.len(),
{
    if calls.len() == 0 {
        Map::empty()
    } else {
        let earlier = stored_tags(calls.drop_last());
        match calls.last() {
            StoreCall::SetHashKey { hash_key, session_tag } => earlier.insert(
                hash_key,
                session_tag,
            ),
            _ => earlier,
        }
    }
}

/// The sessions that a store holds after the given calls, by their tags.
pub open spec fn stored_sessions(calls: Seq<StoreCall<SessionState>>) -> Map<
    Seq<u8>,
    SessionState,
>
    decreases calls.len(),
{
    if calls.len() == 0 {
        Map::empty()
    } else {
        let earlier = stored_sessions(calls.drop_last());
        match calls.last() {
            StoreCall::SetData { session } => earlier.insert(session.session_tag, session),
            _ => earlier,
        }
    }
}

/// What a store that keeps what it is handed answers when it is asked for the
/// session of a ratchet key after the given calls.
pub open spec fn stored_session(
    calls: Seq<StoreCall<SessionState>>,
    hash_key: Seq<u8>,
) -> Option<SessionState> {
    if stored_tags(calls).dom().contains(hash_key) && stored_sessions(calls).dom().contains(
        stored_tags(calls)[hash_key],
    ) {
        Some(stored_sessions(calls)[stored_tags(calls)[hash_key]])
    } else {
        None
    }
}

/// Calls that store no other tag leave a stored tag as it is.
proof fn lemma_tags_stay(
    before: Seq<StoreCall<SessionState>>,
    calls: Seq<StoreCall<SessionState>>,
    hash_key: Seq<u8>,
    tag: Seq<u8>,
)
    requires
        stored_tags(before).dom().contains(hash_key),
        stored_tags(before)[hash_key] == tag,
        forall|i: int|
            0 <= i < calls.len() ==> (#[trigger] calls[i] matches StoreCall::SetHashKey {
                session_tag,
                ..
            } ==> session_tag == tag),
    ensures
        stored_tags(before + calls).dom().contains(hash_key),
        stored_tags(before + calls)[hash_key] == tag,
    decreases calls.len(),
{
    if calls.len() == 0 {
        assert(before + calls =~= before);
    } else {
        let fewer = calls.drop_last();
        lemma_tags_stay(before, fewer, hash_key, tag);
        assert((before + calls).drop_last() =~= before + fewer);
        assert((before + calls).last() == calls[calls.len() - 1]);
    }
}

/// A session that is committed is found by every ratchet key that its tag is
/// stored under.
pub proof fn law_committed_session_is_found(
    before: Seq<StoreCall<SessionState>>,
    state: SessionState,
    hash_key: Seq<u8>,
)
    requires
        stored_tags(before).dom().contains(hash_key),
        stored_tags(before)[hash_key] == state.session_tag,
    ensures
        stored_session(before + commit_calls(state), hash_key) == Some(state),
{
    let calls = before + commit_calls(state);
    let written = calls.drop_last();
    assert(written.last() == StoreCall::SetData { session: state });
    assert(written.drop_last() =~= before);
    assert(calls.last() == StoreCall::<SessionState>::Commit);
    assert(stored_tags(calls) == stored_tags(written));
    assert(stored_tags(written) == stored_tags(before));
    assert(stored_sessions(calls) == stored_sessions(written));
}

/// A session that has started is found by its ratchet key.
pub proof fn law_started_session_is_found(
    before: Seq<StoreCall<SessionState>>,
    init: InitState,
    secret_key: Seq<u8>,
    local: Seq<u8>,
)
    ensures
        stored_session(
            before + SessionState::start_calls(init, secret_key, local),
            sha256(x25519_public(secret_key)),
        ) == Some(SessionState::started(init, secret_key, local)),
{
    let state = SessionState::started(init, secret_key, local);
    let hash_key = sha256(x25519_public(secret_key));
    let known = before.push(
        StoreCall::SetHashKey { hash_key, session_tag: session_tag(init.root_key) },
    );
    assert(known.drop_last() =~= before);
    let asked: Seq<StoreCall<SessionState>> = match init.remote_key {
        Some(_) => seq![StoreCall::GetVerifyingKey { answer: local }],
        None => Seq::empty(),
    };
    lemma_tags_stay(known, asked, hash_key, state.session_tag);
    law_committed_session_is_found(known + asked, state, hash_key);
    assert(before + SessionState::start_calls(init, secret_key, local) =~= known + asked
        + commit_calls(state));
}

/// A session that has turned its ratchet for a message, and is then committed,
/// is found by its new ratchet key.
pub proof fn law_turned_session_is_found(
    before: Seq<StoreCall<SessionState>>,
    state: SessionState,
    header: HeaderState,
    answers: Answers,
)
    requires
        answers.skipped is None,
        state.refusal(header) is None,
        state.is_new_key(header),
    ensures
        ({
            let outcome = state.receive(header, answers);
            stored_session(
                before + outcome.calls + commit_calls(outcome.state),
                sha256(outcome.state.root_key.public_key()),
            ) == Some(outcome.state)
        }),
{
    let outcome = state.receive(header, answers);
    let tag = state.session_tag;
    let hash_key = sha256(x25519_public(answers.secret_key));
    let turn = state.turn_calls(header, answers);
    let upto = before + outcome.calls.subrange(0, turn.len() as int);
    assert(outcome.calls[turn.len() - 1] == turn[turn.len() - 2]);
    assert(upto.last() == StoreCall::<SessionState>::SetHashKey { hash_key, session_tag: tag });
    let rest = outcome.calls.subrange(turn.len() as int, outcome.calls.len() as int);
    lemma_tags_stay(upto, rest, hash_key, tag);
    assert(upto + rest =~= before + outcome.calls);
    law_committed_session_is_found(before + outcome.calls, outcome.state, hash_key);
}

/// A session keeps its tag and the identity of its other end, whatever it
/// sends and takes.
pub proof fn law_session_keeps_its_name(state: SessionState, header: HeaderState, answers: Answers)
    ensures
        state.sent().session_tag == state.session_tag,
        state.sent().remote_identity == state.remote_identity,
        state.receive(header, answers).state.session_tag == state.session_tag,
        state.receive(header, answers).state.remote_identity == state.remote_identity,
{
}

} // verus!
