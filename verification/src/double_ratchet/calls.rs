//! What a ratchet comes to when it is called, and how one call bears on the next.
use super::chain::{
    chain_key_after, lemma_chain_from_bytes, lemma_chain_round_trip, ChainKey, ChainState,
};
use super::data::{
    lemma_session_from_bytes, lemma_session_round_trip, lemma_session_well_formed, SessionData,
    SessionState,
};
use super::error::DoubleRatchetError;
use super::header_keys::{lemma_header_keys_round_trip, HeaderKeys};
use super::model::{session_tag, turn_info, Answers};
use super::outcomes::{
    law_asking_first, law_expansion, law_header_in_bytes, law_refusals, law_search, law_start,
    law_start_calls, law_taking_on_a_new_chain, law_taking_on_the_current_chain,
    law_turn_tells_the_store, law_what_was_received, law_what_was_sought, law_what_was_started,
    left_over, names_new_key, stores, taken_of, turn_bytes,
};
use super::root::{lemma_root_round_trip, RootKey};
use super::session::{has_been_sought, has_received, has_started, Session};
use super::steps::{find_calls, header_in};
use super::session_header::{lemma_header_from_bytes, lemma_header_round_trip, SessionHeader};
use crate::bytes::zeros;
use crate::header::{Header, HeaderError, HeaderKey};
use crate::init::SessionInit;
use crate::keys::{agree, drawn, HashKey, PublicKey, SessionTag, StaticSecret, VerifyingKey};
use crate::message::MessageKey;
use crate::primitives::{hmac_sha256, sha256, x25519_public};
use crate::store::{seen, Data, SessionKeyStore, StoreCall};
use vstd::prelude::*;

verus! {

/// A step of a chain gives the hash of the byte 1 under the chain key as message
/// key, makes that of the byte 2 the chain key, counts one, and keeps the rest.
pub proof fn law_stepping_a_chain(chain: &mut ChainKey, key: MessageKey)
    requires
        call_ensures(ChainKey::expand, (chain,), key),
        old(chain).count < u32::MAX,
    ensures
        key@ == hmac_sha256(old(chain).key@, seq![0x01u8]),
        final(chain).key@ == hmac_sha256(old(chain).key@, seq![0x02u8]),
        final(chain).count == old(chain).count + 1,
        final(chain).prev == old(chain).prev,
        final(chain).remote_key@ == old(chain).remote_key@,
{
    super::chain::law_chain_step(old(chain)@);
    super::chain::law_chain_view(*old(chain));
    super::chain::law_chain_view(*final(chain));
}

/// Two ends that hold the same chain key get the same message keys, step by
/// step.
pub proof fn law_chains_stay_together(
    a: &mut ChainKey,
    b: &mut ChainKey,
    of_a: MessageKey,
    of_b: MessageKey,
)
    requires
        old(a).key@ == old(b).key@,
        old(a).count < u32::MAX,
        old(b).count < u32::MAX,
        call_ensures(ChainKey::expand, (a,), of_a),
        call_ensures(ChainKey::expand, (b,), of_b),
    ensures
        of_a@ == of_b@,
        final(a).key@ == final(b).key@,
{
    law_stepping_a_chain(a, of_a);
    law_stepping_a_chain(b, of_b);
}

/// A new chain holds what it is given, and has given no message key. It belongs
/// to its remote key and to no other, and its header tells its two counts.
pub proof fn law_new_chain(
    bytes: [u8; 32],
    prev: u32,
    remote_key: PublicKey,
    chain: ChainKey,
    other: &PublicKey,
    differs: bool,
    public_key: PublicKey,
    header: SessionHeader,
)
    requires
        call_ensures(ChainKey::new, (bytes, prev, remote_key), chain),
        call_ensures(ChainKey::compare, (&chain, other), differs),
        call_ensures(ChainKey::header, (&chain, public_key), header),
    ensures
        chain.key@ == bytes@,
        chain.prev == prev,
        chain.count == 0,
        chain.remote_key@ == remote_key@,
        differs <==> other@ != remote_key@,
        header.count == 0,
        header.previous == prev,
        header.public_key@ == public_key@,
{
    super::chain::law_chain_view(chain);
    super::session_header::law_header_view(header);
}

/// A chain is read back from its bytes as it was; from bytes that may hold none,
/// unless it is all zeros.
pub proof fn law_chain_is_read_back(
    chain: &ChainKey,
    written: &[u8; 72],
    read: ChainKey,
    bytes: &[u8],
    found: Option<ChainKey>,
)
    requires
        call_ensures(ChainKey::to_bytes, (chain,), *written),
        call_ensures(ChainKey::from, (written,), read),
        bytes@ == written@,
        call_ensures(ChainKey::from_bytes, (bytes,), found),
    ensures
        read@ == chain@,
        written@ != zeros(72) ==> (found matches Some(given) && given@ == chain@),
        written@ == zeros(72) ==> found is None,
{
    lemma_chain_round_trip(chain@);
}

/// Bytes that are not 72 hold no chain, and whatever chain bytes hold is written
/// as they are.
pub proof fn law_chain_is_written_back(bytes: &[u8], found: Option<ChainKey>, written: [u8; 72])
    requires
        call_ensures(ChainKey::from_bytes, (bytes,), found),
        found matches Some(chain) ==> call_ensures(ChainKey::to_bytes, (&chain,), written),
    ensures
        found is Some ==> written@ == bytes@,
        bytes@.len() != 72 ==> found is None,
{
    if bytes@.len() == 72 {
        lemma_chain_from_bytes(bytes@);
    }
}

/// Two ends with the same root key turn it, each with its own secret and the
/// public key of the other, bound to the same data. They come to the same root
/// key, the same chain key and the same header key, and keep their secrets.
pub proof fn law_roots_turn_together(
    a: &mut RootKey,
    b: &mut RootKey,
    a_public: PublicKey,
    b_public: PublicKey,
    aad: Option<&[u8]>,
    of_a: Result<(ChainKey, HeaderKey), DoubleRatchetError>,
    of_b: Result<(ChainKey, HeaderKey), DoubleRatchetError>,
)
    requires
        old(a).key@ == old(b).key@,
        call_ensures(RootKey::public_key, (&*old(a),), a_public),
        call_ensures(RootKey::public_key, (&*old(b),), b_public),
        call_ensures(RootKey::expand, (a, b_public, aad), of_a),
        call_ensures(RootKey::expand, (b, a_public, aad), of_b),
    ensures
        final(a).key@ == final(b).key@,
        final(a).secret_key@ == old(a).secret_key@,
        final(b).secret_key@ == old(b).secret_key@,
        of_a is Ok,
        of_b is Ok,
        of_a.unwrap().0.key@ == of_b.unwrap().0.key@,
        of_a.unwrap().1@ == of_b.unwrap().1@,
        of_a.unwrap().0.remote_key@ == b_public@,
        of_b.unwrap().0.remote_key@ == a_public@,
        of_a.unwrap().0.count == 0,
        of_b.unwrap().0.count == 0,
{
    super::root::law_root_view(*old(a));
    super::root::law_root_view(*old(b));
    super::root::law_root_view(*final(a));
    super::root::law_root_view(*final(b));
    super::chain::law_chain_view(of_a.unwrap().0);
    super::chain::law_chain_view(of_b.unwrap().0);
    assert(old(a)@.secret_key.len() == 32);
    assert(agree(old(a)@.secret_key, old(b)@.secret_key));
}

/// A root gets a fresh secret and keeps its key, whether it is new or brought up
/// to date, and gets the secret that it is handed where it is handed one.
pub proof fn law_root_secrets(
    bytes: [u8; 32],
    made: RootKey,
    root: &mut RootKey,
    replaced: &mut RootKey,
    secret_key: StaticSecret,
)
    requires
        call_ensures(RootKey::new, (bytes,), made),
        call_ensures(RootKey::update, (root,), ()),
        call_ensures(RootKey::replace_secret, (replaced, secret_key), ()),
    ensures
        made.key@ == bytes@,
        drawn(made.secret_key@),
        final(root).key@ == old(root).key@,
        drawn(final(root).secret_key@),
        final(replaced).key@ == old(replaced).key@,
        final(replaced).secret_key@ == secret_key@,
{
}

/// A root is read back from its bytes as it was.
pub proof fn law_root_is_read_back(root: &RootKey, written: &[u8; 64], read: RootKey)
    requires
        call_ensures(RootKey::to_bytes, (root,), *written),
        call_ensures(RootKey::from, (written,), read),
    ensures
        read@ == root@,
{
    lemma_root_round_trip(root@);
}

/// A header key that is taken up comes into use with the next one, and not
/// before.
pub proof fn law_header_keys_come_into_use(
    first: HeaderKey,
    made: HeaderKeys,
    before: Option<HeaderKey>,
    keys: &mut HeaderKeys,
    second: HeaderKey,
    during: Option<HeaderKey>,
    later: &mut HeaderKeys,
    third: HeaderKey,
    after: Option<HeaderKey>,
)
    requires
        call_ensures(HeaderKeys::new, (first,), made),
        call_ensures(HeaderKeys::header_key, (&made,), before),
        *old(keys) == made,
        call_ensures(HeaderKeys::update, (keys, second), ()),
        call_ensures(HeaderKeys::header_key, (&*final(keys),), during),
        *old(later) == *final(keys),
        call_ensures(HeaderKeys::update, (later, third), ()),
        call_ensures(HeaderKeys::header_key, (&*final(later),), after),
    ensures
        before is None,
        seen(during) == Some(first@),
        seen(after) == Some(second@),
        seen(final(later).next) == Some(third@),
{
    super::header_keys::law_header_keys_turn(made@, second@, third@);
    super::header_keys::law_header_keys_turn(final(keys)@, third@, third@);
}

/// Header keys are read back from their bytes as they were, where none of them is
/// all zeros.
pub proof fn law_header_keys_are_read_back(
    keys: &HeaderKeys,
    written: &[u8; 64],
    read: HeaderKeys,
)
    requires
        call_ensures(HeaderKeys::to_bytes, (keys,), *written),
        call_ensures(HeaderKeys::from_bytes, (written,), read),
        keys.curr matches Some(key) ==> key@ != zeros(32),
        keys.next matches Some(key) ==> key@ != zeros(32),
    ensures
        read@ == keys@,
{
    lemma_header_keys_round_trip(keys@);
}

/// A header is read back from its bytes as it was. Bytes that are not 40 are
/// turned down, and whatever header bytes hold is written as they are.
pub proof fn law_session_header_is_read_back(
    header: &SessionHeader,
    written: Vec<u8>,
    bytes: &[u8],
    read: Result<SessionHeader, HeaderError>,
    other: &[u8],
    found: Result<SessionHeader, HeaderError>,
    again: Vec<u8>,
    named: PublicKey,
)
    requires
        call_ensures(<SessionHeader as Header>::to_slice, (header,), written),
        bytes@ == written@,
        call_ensures(<SessionHeader as Header>::from_bytes, (bytes,), read),
        call_ensures(<SessionHeader as Header>::from_bytes, (other,), found),
        found matches Ok(given) ==> call_ensures(
            <SessionHeader as Header>::to_slice,
            (&given,),
            again,
        ),
        call_ensures(<SessionHeader as Header>::get_public_key, (header,), named),
    ensures
        written@.len() == 40,
        read matches Ok(given) && given@ == header@,
        found is Ok <==> other@.len() == 40,
        found is Ok ==> again@ == other@,
        named@ == header.public_key@,
{
    lemma_header_round_trip(header@);
    lemma_header_from_bytes(other@);
}

/// A session is written to 400 bytes, and read back from them as it was, where
/// none of its header keys and chains is all zeros. Its tag is that which it is
/// filed under.
pub proof fn law_session_is_read_back(
    session: &SessionData,
    written: Vec<u8>,
    bytes: &[u8],
    read: Option<SessionData>,
    tag: SessionTag,
)
    requires
        call_ensures(<SessionData as Data>::to_bytes, (session,), written),
        bytes@ == written@,
        call_ensures(SessionData::try_from_bytes, (bytes,), read),
        call_ensures(<SessionData as Data>::get_session_tag, (session,), tag),
        session@.encodable(),
        crate::primitives::ed25519_is_key(session.remote_identity@),
    ensures
        written@.len() == 400,
        read matches Some(given) && given@ == session@,
        tag@ == session.session_tag@,
{
    lemma_session_well_formed(*session);
    lemma_session_round_trip(session@);
    super::data::law_session_layout(session@);
}

/// Bytes that are not 400 hold no session, and whatever session bytes hold is
/// written as they are.
pub proof fn law_session_is_written_back(
    bytes: &[u8],
    read: Option<SessionData>,
    written: Vec<u8>,
)
    requires
        call_ensures(SessionData::try_from_bytes, (bytes,), read),
        read matches Some(session) ==> call_ensures(
            <SessionData as Data>::to_bytes,
            (&session,),
            written,
        ),
    ensures
        read is Some ==> bytes@.len() == 400 && written@ == bytes@,
{
    if bytes@.len() == 400 {
        lemma_session_from_bytes(bytes@);
    }
}

/// A session that goes back after a commit is as it was then, whatever key it has
/// given in between; and it cannot go back twice.
pub proof fn law_going_back<K: SessionKeyStore<SessionData>>(
    committing: &mut Session<K>,
    sending: &mut Session<K>,
    sent: Result<(MessageKey, SessionHeader, Option<HeaderKey>), DoubleRatchetError>,
    returning: &mut Session<K>,
    returned: bool,
    again: &mut Session<K>,
    twice: bool,
)
    requires
        call_ensures(Session::<K>::commit, (committing,), ()),
        *old(sending) == *final(committing),
        call_ensures(Session::<K>::get_sending_key, (sending,), sent),
        *old(returning) == *final(sending),
        call_ensures(Session::<K>::rollback, (returning,), returned),
        *old(again) == *final(returning),
        call_ensures(Session::<K>::rollback, (again,), twice),
    ensures
        returned ==> final(returning).current == old(committing).current,
        !returned ==> final(returning).current == final(sending).current,
        returned ==> !twice && *final(again) == *old(again),
        final(committing).current == old(committing).current,
        final(committing).keystore.calls() == old(committing).keystore.calls().push(
            StoreCall::SetData { session: old(committing).current@ },
        ).push(StoreCall::Commit),
{
}

/// A session without a commit cannot go back, and stays as it is.
pub proof fn law_nothing_to_go_back_to<K: SessionKeyStore<SessionData>>(
    data: &SessionData,
    keystore: K,
    session: Session<K>,
    returning: &mut Session<K>,
    returned: bool,
)
    requires
        call_ensures(Session::<K>::from, (data, keystore), session),
        *old(returning) == session,
        call_ensures(Session::<K>::rollback, (returning,), returned),
    ensures
        session.current == *data,
        session.keystore == keystore,
        !returned,
        *final(returning) == session,
{
}

/// A session that can send gives the next key of its sending chain, with a header
/// that tells the number of the message, the length of the chain before and this
/// end's ratchet key. It then counts one more message, and the store is asked
/// nothing. A session that cannot send stays as it is.
pub proof fn law_giving_a_sending_key<K: SessionKeyStore<SessionData>>(
    session: &mut Session<K>,
    r: Result<(MessageKey, SessionHeader, Option<HeaderKey>), DoubleRatchetError>,
    public_key: PublicKey,
    hash_key: Result<HashKey, DoubleRatchetError>,
    header_key: Option<HeaderKey>,
)
    requires
        call_ensures(Session::<K>::get_sending_key, (session,), r),
        old(session).current.sending_chain_key matches Some(chain) ==> chain.count < u32::MAX,
        call_ensures(Session::<K>::public_key, (&*old(session),), public_key),
        call_ensures(Session::<K>::hash_key, (&*old(session),), hash_key),
        call_ensures(Session::<K>::header_key, (&*old(session),), header_key),
    ensures
        final(session).keystore == old(session).keystore,
        final(session).previous == old(session).previous,
        public_key@ == x25519_public(old(session).current.root_key.secret_key@),
        match old(session).current.sending_chain_key {
            None => {
                &&& r matches Err(error) && error == DoubleRatchetError::NoSendingChain
                &&& hash_key matches Err(error) && error == DoubleRatchetError::NoSendingChain
                &&& final(session).current@ == old(session).current@
            },
            Some(chain) => {
                let after = final(session).current@.sending_chain_key.unwrap();
                &&& r matches Ok((key, header, given)) && {
                    &&& key@ == hmac_sha256(chain.key@, seq![0x01u8])
                    &&& header.count == chain.count + 1
                    &&& header.previous == chain.prev
                    &&& header.public_key@ == public_key@
                    &&& seen(given) == seen(header_key)
                    &&& seen(given) == seen(old(session).current.sending_header_keys.curr)
                }
                &&& hash_key matches Ok(hash) && hash@ == sha256(public_key@)
                &&& after.key == hmac_sha256(chain.key@, seq![0x02u8])
                &&& after.count == chain.count + 1
                &&& after.prev == chain.prev
                &&& after.remote_key == chain.remote_key@
                &&& final(session).current@ == (super::data::SessionState {
                    sending_chain_key: Some(after),
                    ..old(session).current@
                })
            },
        },
{
    let pre = old(session).current;
    super::data::law_session_view(pre);
    super::root::law_root_view(pre.root_key);
    super::header_keys::law_header_keys_view(pre.sending_header_keys);
    if let Some(chain) = pre.sending_chain_key {
        super::chain::law_chain_view(chain);
        super::chain::law_chain_step(chain@);
        super::chain::law_chain_header(chain@.after(1), public_key@);
        super::session_header::law_header_view(r.unwrap().1);
    }
}

/// A session tells its tag, and asking whether there are skipped keys changes
/// nothing but that the store has been asked.
pub proof fn law_asking_a_session<K: SessionKeyStore<SessionData>>(
    session: &mut Session<K>,
    tag: SessionTag,
    skipped: bool,
)
    requires
        call_ensures(Session::<K>::get_session_tag, (&*old(session),), tag),
        call_ensures(Session::<K>::has_skipped_keys, (session,), skipped),
    ensures
        tag@ == old(session).current.session_tag@,
        final(session).current == old(session).current,
        final(session).previous == old(session).previous,
        final(session).keystore.calls() == old(session).keystore.calls().push(
            StoreCall::HasPreviousKeys { answer: skipped },
        ),
{
}

/// The store is first asked for a skipped key of the session. Where it has one,
/// that one is given, nothing else is asked, and the session stays as it is.
pub proof fn law_taking_a_skipped_key<K: SessionKeyStore<SessionData>>(
    session: &mut Session<K>,
    header: &SessionHeader,
    r: Result<MessageKey, DoubleRatchetError>,
)
    requires
        call_ensures(Session::<K>::get_receiving_key, (session, header), r),
    ensures
        ({
            let before = old(session).keystore.calls();
            let calls = final(session).keystore.calls();
            let n = before.len() as int;
            &&& calls.len() > n
            &&& calls.subrange(0, n) == before
            &&& calls[n] matches StoreCall::GetPreviousKeys { session_tag, answer } && {
                &&& session_tag == old(session).current.session_tag@
                &&& answer matches Some(key) ==> {
                    &&& r matches Ok(given) && given@ == key
                    &&& final(session).current@ == old(session).current@
                    &&& calls.len() == n + 1
                }
            }
            &&& final(session).previous == old(session).previous
        }),
{
    let before = old(session).keystore.calls();
    let pre = old(session).current@;
    let answers = choose|answers: Answers| #[trigger]
        has_received(*final(session), r, pre, before, header@, answers);
    law_what_was_received(*final(session), r, pre, before, header@, answers);
    law_asking_first(pre, header@, answers);
    assert(final(session).keystore.calls().subrange(0, before.len() as int) =~= before);
}

/// Where the store has no skipped key, a header is turned down that lies behind
/// or too far ahead. The session stays as it is, and nothing else is asked.
pub proof fn law_turning_a_header_down<K: SessionKeyStore<SessionData>>(
    session: &mut Session<K>,
    header: &SessionHeader,
    r: Result<MessageKey, DoubleRatchetError>,
)
    requires
        call_ensures(Session::<K>::get_receiving_key, (session, header), r),
        final(session).keystore.calls()[old(session).keystore.calls().len() as int] matches
            StoreCall::GetPreviousKeys { answer, .. } && answer is None,
    ensures
        ({
            let pre = old(session).current@;
            let taken = taken_of(pre);
            let new = names_new_key(pre, header@);
            let (count, previous) = (header.count, header.previous);
            let down = if new {
                previous < taken || previous > taken + 2000 || count > 2000
            } else {
                count < taken || count > taken + 2000
            };
            &&& down ==> {
                &&& final(session).current@ == pre
                &&& final(session).keystore.calls().len() == old(session).keystore.calls().len()
                    + 1
                &&& r is Err
            }
            &&& new && previous < taken ==> r == Err::<MessageKey, DoubleRatchetError>(
                DoubleRatchetError::InvalidHeader,
            )
            &&& new && taken <= previous && down ==> r == Err::<MessageKey, DoubleRatchetError>(
                DoubleRatchetError::MaxSkipExceeded,
            )
            &&& !new && count <= taken ==> r == Err::<MessageKey, DoubleRatchetError>(
                DoubleRatchetError::ChainNotFound,
            )
            &&& !new && count > taken + 2000 ==> r == Err::<MessageKey, DoubleRatchetError>(
                DoubleRatchetError::MaxSkipExceeded,
            )
            &&& new && !down ==> (r is Ok <==> count > 0)
            &&& !new && !down ==> (r is Ok <==> count > taken)
        }),
{
    let before = old(session).keystore.calls();
    let pre = old(session).current@;
    let answers = choose|answers: Answers| #[trigger]
        has_received(*final(session), r, pre, before, header@, answers);
    law_what_was_received(*final(session), r, pre, before, header@, answers);
    law_asking_first(pre, header@, answers);
    law_refusals(pre, header@);
    if pre.refusal(header@) is None {
        if names_new_key(pre, header@) {
            law_taking_on_a_new_chain(pre, header@, answers);
        } else {
            law_taking_on_the_current_chain(pre, header@, answers);
        }
    }
}

/// A message of the current chain, not more than 2000 ahead, is given its own key
/// of the chain. The keys of the messages before it that have not come are
/// stored, in their order. Nothing but the receiving chain changes.
pub proof fn law_taking_the_key_of_a_message<K: SessionKeyStore<SessionData>>(
    session: &mut Session<K>,
    header: &SessionHeader,
    r: Result<MessageKey, DoubleRatchetError>,
)
    requires
        call_ensures(Session::<K>::get_receiving_key, (session, header), r),
        final(session).keystore.calls()[old(session).keystore.calls().len() as int] matches
            StoreCall::GetPreviousKeys { answer, .. } && answer is None,
        !names_new_key(old(session).current@, header@),
        taken_of(old(session).current@) < header.count <= taken_of(old(session).current@) + 2000,
    ensures
        ({
            let before = old(session).keystore.calls();
            let calls = final(session).keystore.calls();
            let pre = old(session).current@;
            let chain = pre.receiving_chain_key.unwrap();
            let steps = header.count - chain.count;
            let n = before.len() as int;
            &&& r matches Ok(key) && key@ == hmac_sha256(
                chain_key_after(chain.key, (steps - 1) as nat),
                seq![0x01u8],
            )
            &&& final(session).current@ == (SessionState {
                receiving_chain_key: Some(
                    (ChainState {
                        key: chain_key_after(chain.key, steps as nat),
                        count: header.count,
                        ..chain
                    }),
                ),
                ..pre
            })
            &&& calls.len() == n + steps
            &&& forall|i: int|
                1 <= i < steps ==> stores(
                    #[trigger] calls[n + i],
                    pre.session_tag,
                    hmac_sha256(chain_key_after(chain.key, (i - 1) as nat), seq![0x01u8]),
                )
        }),
{
    let before = old(session).keystore.calls();
    let pre = old(session).current@;
    let answers = choose|answers: Answers| #[trigger]
        has_received(*final(session), r, pre, before, header@, answers);
    law_what_was_received(*final(session), r, pre, before, header@, answers);
    law_asking_first(pre, header@, answers);
    law_taking_on_the_current_chain(pre, header@, answers);
    let (calls, given) = (final(session).keystore.calls(), pre.receive(header@, answers).calls);
    let n = before.len() as int;
    assert forall|i: int| 1 <= i < header.count - pre.receiving_chain_key.unwrap().count implies
        stores(
        #[trigger] calls[n + i],
        pre.session_tag,
        hmac_sha256(
            chain_key_after(pre.receiving_chain_key.unwrap().key, (i - 1) as nat),
            seq![0x01u8],
        ),
    ) by {
        assert(calls[n + i] == given[i]);
    }
}

/// A message that names a new ratchet key turns the session to it. The keys of
/// the messages of the old chain that have not come are stored, in their order.
/// The session then has a fresh secret, which the store knows the tag by, and a
/// new chain in each direction. The sending chain tells how many messages the one
/// before it had.
pub proof fn law_turning_to_a_new_key<K: SessionKeyStore<SessionData>>(
    session: &mut Session<K>,
    header: &SessionHeader,
    r: Result<MessageKey, DoubleRatchetError>,
)
    requires
        call_ensures(Session::<K>::get_receiving_key, (session, header), r),
        final(session).keystore.calls()[old(session).keystore.calls().len() as int] matches
            StoreCall::GetPreviousKeys { answer, .. } && answer is None,
        names_new_key(old(session).current@, header@),
        taken_of(old(session).current@) <= header.previous <= taken_of(old(session).current@)
            + 2000,
        0 < header.count <= 2000,
    ensures
        ({
            let before = old(session).keystore.calls();
            let calls = final(session).keystore.calls();
            let (pre, post) = (old(session).current@, final(session).current@);
            let left = left_over(pre, header@);
            let n = before.len() as int;
            let secret = post.root_key.secret_key;
            let hash_key = sha256(x25519_public(secret));
            let extra: int = if pre.receiving_header_keys.next is Some {
                1
            } else {
                0
            };
            &&& r is Ok
            &&& drawn(secret)
            &&& post.session_tag == pre.session_tag
            &&& post.remote_identity == pre.remote_identity
            &&& post.receiving_chain_key matches Some(chain) && chain.count == header.count
                && chain.remote_key == header.public_key@
            &&& post.sending_chain_key matches Some(chain) && chain.count == 0 && chain.remote_key
                == header.public_key@ && chain.prev == (match pre.sending_chain_key {
                Some(earlier) => earlier.count,
                None => 0,
            })
            &&& post.receiving_header_keys.curr == pre.receiving_header_keys.next
            &&& post.sending_header_keys.curr == pre.sending_header_keys.next
            &&& calls.len() == n + left + extra + 3 + header.count
            &&& forall|i: int|
                1 <= i <= left ==> stores(
                    #[trigger] calls[n + i],
                    pre.session_tag,
                    hmac_sha256(
                        chain_key_after(
                            pre.receiving_chain_key.unwrap().key,
                            (i - 1) as nat,
                        ),
                        seq![0x01u8],
                    ),
                )
            &&& pre.receiving_header_keys.next matches Some(value) ==> calls[n + left + 2]
                == StoreCall::<SessionState>::SetHeaderKey { hash_key, value }
            &&& calls[n + left + extra + 2] == StoreCall::<SessionState>::SetHashKey {
                hash_key,
                session_tag: pre.session_tag,
            }
            &&& forall|i: int|
                n + left + extra + 4 <= i < calls.len() ==> (#[trigger] calls[i] matches
                    StoreCall::SetPreviousKeys { session_tag, .. } && session_tag
                    == pre.session_tag)
        }),
{
    let before = old(session).keystore.calls();
    let pre = old(session).current@;
    let answers = choose|answers: Answers| #[trigger]
        has_received(*final(session), r, pre, before, header@, answers);
    law_what_was_received(*final(session), r, pre, before, header@, answers);
    law_asking_first(pre, header@, answers);
    law_refusals(pre, header@);
    law_taking_on_a_new_chain(pre, header@, answers);
    law_turn_tells_the_store(pre, header@, answers);
    let (calls, given) = (final(session).keystore.calls(), pre.receive(header@, answers).calls);
    let n = before.len() as int;
    let left = left_over(pre, header@);
    assert(forall|i: int| 0 <= i < given.len() ==> #[trigger] calls[n + i] == given[i]);
    assert(forall|i: int| n <= i < calls.len() ==> #[trigger] calls[i] == given[i - n]);
}

/// A session starts with what it is given and with the secret that it is given,
/// or a fresh one. It can send at once where the remote key is known, and it is
/// stored and committed as it is.
pub proof fn law_starting_a_session<K: SessionKeyStore<SessionData>>(
    init: &SessionInit,
    keystore: K,
    session: Session<K>,
)
    requires
        call_ensures(Session::<K>::new, (init, keystore), session),
    ensures
        ({
            let (before, calls) = (keystore.calls(), session.keystore.calls());
            let state = session.current@;
            let n = before.len() as int;
            let last = calls.len() as int;
            &&& state.session_tag == session_tag(init.root_key@)
            &&& state.remote_identity == init.remote_identity@
            &&& state.receiving_chain_key is None
            &&& state.receiving_header_keys.curr is None
            &&& state.receiving_header_keys.next == seen(init.next_header_key)
            &&& init.secret_key matches Some(secret) ==> state.root_key.secret_key == secret@
            &&& init.secret_key is None ==> drawn(state.root_key.secret_key)
            &&& init.remote_key is None ==> {
                &&& state.sending_chain_key is None
                &&& state.root_key.key == init.root_key@
                &&& state.sending_header_keys.curr is None
                &&& state.sending_header_keys.next == seen(init.header_key)
            }
            &&& init.remote_key matches Some(remote_key) ==> {
                &&& state.sending_chain_key matches Some(chain) && chain.count == 0 && chain.prev
                    == 0 && chain.remote_key == remote_key@
                &&& state.sending_header_keys.curr == seen(init.header_key)
            }
            &&& session.previous == Some(session.current)
            &&& last == n + (if init.remote_key is Some {
                4int
            } else {
                3int
            })
            &&& calls.subrange(0, n) == before
            &&& calls[n] == StoreCall::<SessionState>::SetHashKey {
                hash_key: sha256(x25519_public(state.root_key.secret_key)),
                session_tag: state.session_tag,
            }
            &&& calls[last - 2] == StoreCall::SetData { session: state }
            &&& calls[last - 1] == StoreCall::<SessionState>::Commit
        }),
{
    let before = keystore.calls();
    let local = choose|local: Seq<u8>| #[trigger] has_started(session, init@, before, local);
    let secret_key = session.current@.root_key.secret_key;
    law_what_was_started(session, init@, before, local);
    law_start(init@, secret_key, local);
    law_start_calls(init@, secret_key, local);
    crate::init::law_init_view(*init);
    let given = SessionState::start_calls(init@, secret_key, local);
    let calls = session.keystore.calls();
    let n = before.len() as int;
    assert(calls.subrange(0, n) =~= before);
    assert(forall|i: int| n <= i < calls.len() ==> #[trigger] calls[i] == given[i - n]);
}

/// The session of a message is sought under the first 32 bytes of it: first the
/// header key, and the session once the header has been read. It is found where
/// the store has both and the header can be read.
pub proof fn law_seeking_a_session<K: SessionKeyStore<SessionData>>(
    bytes: &[u8],
    keystore: K,
    r: Result<(Session<K>, SessionHeader), DoubleRatchetError>,
)
    requires
        bytes@.len() >= 32,
        call_ensures(Session::<K>::from_header, (bytes, keystore), r),
    ensures
        r matches Err(error) ==> error == DoubleRatchetError::SessionNotFound || error
            == DoubleRatchetError::InvalidHeader,
        bytes@.len() != 72 && bytes@.len() != 100 ==> r is Err,
        r matches Ok((session, header)) ==> {
            let (before, calls) = (keystore.calls(), session.keystore.calls());
            let n = before.len() as int;
            &&& session.previous is None
            &&& calls.len() == n + 2
            &&& calls.subrange(0, n) == before
            &&& calls[n] matches StoreCall::GetHeaderKey { hash_key, answer } && hash_key
                == bytes@.subrange(0, 32) && (answer matches Some(key) && header_in(bytes@, key)
                == Some(header@))
            &&& calls[n + 1] == StoreCall::GetDataByHash {
                hash_key: bytes@.subrange(0, 32),
                answer: Some(session.current@),
            }
            &&& bytes@.len() == 72 ==> header@.encoded() == bytes@.subrange(32, 72)
        },
{
    let before = keystore.calls();
    let (store, header_key, session) = choose|
        store: K,
        header_key: Option<Seq<u8>>,
        session: Option<SessionState>,
    | #[trigger]
        has_been_sought(r, bytes@, before, store, header_key, session);
    law_what_was_sought(r, bytes@, before, store, header_key, session);
    law_search(bytes@, header_key, session);
    let given = find_calls(bytes@, header_key, session);
    if let Some(key) = header_key {
        law_header_in_bytes(bytes@, key);
    }
    if let Ok((found, header)) = r {
        let calls = found.keystore.calls();
        let n = before.len() as int;
        assert(calls.subrange(0, n) =~= before);
        assert(calls[n] == given[0]);
        assert(calls[n + 1] == given[1]);
    }
}

/// What a header comes to, when it is read under a header key or sought under one
/// that may be missing.
pub proof fn law_reading_a_header(
    bytes: &[u8],
    header_key: &HeaderKey,
    read: Result<SessionHeader, DoubleRatchetError>,
    found: Result<SessionHeader, DoubleRatchetError>,
    missing: Result<SessionHeader, DoubleRatchetError>,
)
    requires
        bytes@.len() >= 32,
        call_ensures(SessionHeader::read, (bytes, header_key), read),
        call_ensures(SessionHeader::find, (bytes, &Some(*header_key)), found),
        call_ensures(SessionHeader::find, (bytes, &None), missing),
    ensures
        missing == Err::<SessionHeader, DoubleRatchetError>(DoubleRatchetError::SessionNotFound),
        read is Ok <==> found is Ok,
        read matches Ok(header) ==> found.unwrap()@ == header@,
        read matches Err(error) ==> error == DoubleRatchetError::InvalidHeader && found == read,
        bytes@.len() == 72 ==> (read matches Ok(header) && header@.encoded() == bytes@.subrange(
            32,
            72,
        )),
        bytes@.len() != 72 && bytes@.len() != 100 ==> read is Err,
{
    law_header_in_bytes(bytes@, header_key@);
}

/// Whether a header names a new key, or why it is turned down.
pub proof fn law_deciding_on_a_header(
    session: &SessionData,
    header: &SessionHeader,
    r: Result<bool, DoubleRatchetError>,
)
    requires
        call_ensures(SessionData::check_header, (session, header), r),
    ensures
        ({
            let new = names_new_key(session@, header@);
            let taken = taken_of(session@);
            &&& r is Ok <==> if new {
                taken <= header.previous <= taken + 2000 && header.count <= 2000
            } else {
                taken <= header.count <= taken + 2000
            }
            &&& r matches Ok(is_new) ==> is_new == new
        }),
{
    law_refusals(session@, header@);
}

/// The state that a session starts from, before any turn.
pub proof fn law_state_before_any_turn(
    init: &SessionInit,
    secret_key: StaticSecret,
    state: SessionData,
)
    requires
        call_ensures(SessionData::start, (init, secret_key), state),
    ensures
        state@.session_tag == session_tag(init.root_key@),
        state@.remote_identity == init.remote_identity@,
        state@.root_key.secret_key == secret_key@,
        state@.root_key.key == init.root_key@,
        state@.sending_header_keys.curr is None,
        state@.sending_header_keys.next == seen(init.header_key),
        state@.receiving_header_keys.curr is None,
        state@.receiving_header_keys.next == seen(init.next_header_key),
        state@.sending_chain_key is None,
        state@.receiving_chain_key is None,
{
    crate::init::law_init_view(*init);
}

/// Turning a session's root takes all three keys from one derivation, which is
/// bound to the session and both identities. The header keys that are handed in
/// turn with it, and the rest of the session stays.
pub proof fn law_turning_a_session(
    state: &mut SessionData,
    local_identity: &VerifyingKey,
    remote_key: &PublicKey,
    header_keys: &mut HeaderKeys,
    previous_count: u32,
    r: Result<ChainKey, DoubleRatchetError>,
)
    requires
        call_ensures(
            SessionData::expand,
            (state, local_identity, remote_key, header_keys, previous_count),
            r,
        ),
    ensures
        ({
            let (pre, post) = (old(state)@, final(state)@);
            let okm = turn_bytes(
                pre.root_key.key,
                pre.root_key.secret_key,
                remote_key@,
                turn_info(pre.session_tag, local_identity@, pre.remote_identity),
            );
            &&& post.root_key.key == okm.subrange(0, 32)
            &&& post.root_key.secret_key == pre.root_key.secret_key
            &&& post == (SessionState { root_key: post.root_key, ..pre })
            &&& r matches Ok(chain) && {
                &&& chain.key@ == okm.subrange(32, 64)
                &&& chain.remote_key@ == remote_key@
                &&& chain.count == 0
                &&& chain.prev == previous_count
            }
            &&& seen(final(header_keys).curr) == seen(old(header_keys).next)
            &&& seen(final(header_keys).next) == Some(okm.subrange(64, 96))
        }),
{
    law_expansion(old(state)@, local_identity@, remote_key@, previous_count);
    super::chain::law_chain_view(r.unwrap());
}

} // verus!
