//! A chain of message keys: each step gives one message key and the key of
//! the next step.
use super::session_header::{HeaderState, SessionHeader};
use crate::bytes::{
    be32, from_be32, is_zero, lemma_be32_round_trip, lemma_from_be32_round_trip, overwrite,
    take_array, u32_from_be, u32_to_be, zero_array, zeros,
};
use crate::keys::PublicKey;
use crate::message::MessageKey;
use crate::primitives::{equal_bytes, hmac_sha256, hmac_sha256_tag, wipe};
use vstd::prelude::*;

verus! {

#[derive(PartialEq, Eq)]
pub struct ChainKey {
    /// The ratchet key of the other end.
    pub remote_key: PublicKey,
    pub key: [u8; 32],
    /// The number of message keys that the chain has given so far.
    pub count: u32,
    /// The number of message keys of the chain before this one.
    pub prev: u32,
}

/// A chain whose keys are byte strings.
#[verifier::ext_equal]
pub struct ChainState {
    pub remote_key: Seq<u8>,
    pub key: Seq<u8>,
    pub count: u32,
    pub prev: u32,
}

impl View for ChainKey {
    type V = ChainState;

    open spec fn view(&self) -> ChainState {
        ChainState {
            remote_key: self.remote_key@,
            key: self.key@,
            count: self.count,
            prev: self.prev,
        }
    }
}

impl Clone for ChainKey {
    fn clone(&self) -> (r: Self)
        ensures
            r == *self,
    {
        ChainKey {
            remote_key: self.remote_key,
            key: self.key,
            count: self.count,
            prev: self.prev,
        }
    }
}

impl Drop for ChainKey {
    fn drop(&mut self)
        ensures
            final(self)@ == (ChainState {
                remote_key: zeros(32),
                key: zeros(32),
                count: 0,
                prev: 0,
            }),
        opens_invariants none
        no_unwind
    {
        wipe(&mut self.remote_key.0);
        wipe(&mut self.key);
        self.count = 0;
        self.prev = 0;
    }
}

/// The message key of a step with the given chain key.
pub open spec fn message_key(key: Seq<u8>) -> Seq<u8> {
    hmac_sha256(key, seq![0x01u8])
}

/// The chain key of the step after.
pub open spec fn next_chain_key(key: Seq<u8>) -> Seq<u8> {
    hmac_sha256(key, seq![0x02u8])
}

/// The chain key `n` steps on.
pub open spec fn chain_key_after(key: Seq<u8>, n: nat) -> Seq<u8>
    decreases n,
{
    if n == 0 {
        key
    } else {
        next_chain_key(chain_key_after(key, (n - 1) as nat))
    }
}

impl ChainState {
    /// The chain `n` steps on.
    pub open spec fn after(self, n: nat) -> Self {
        ChainState {
            key: chain_key_after(self.key, n),
            count: (self.count + n) as u32,
            ..self
        }
    }

    /// The message key that the step after `n` others gives.
    pub open spec fn key_at(self, n: nat) -> Seq<u8> {
        message_key(chain_key_after(self.key, n))
    }

    /// The header of the message that the chain gave a key for last.
    pub open spec fn header(self, public_key: Seq<u8>) -> HeaderState {
        HeaderState { count: self.count, previous: self.prev, public_key }
    }

    pub open spec fn encoded(self) -> Seq<u8> {
        self.remote_key + self.key + be32(self.count) + be32(self.prev)
    }

    /// The chain that 72 bytes encode.
    pub open spec fn decoded(bytes: Seq<u8>) -> Self {
        ChainState {
            remote_key: bytes.subrange(0, 32),
            key: bytes.subrange(32, 64),
            count: from_be32(bytes.subrange(64, 68)),
            prev: from_be32(bytes.subrange(68, 72)),
        }
    }

    /// Keys are 32 bytes long.
    pub open spec fn well_formed(self) -> bool {
        self.remote_key.len() == 32 && self.key.len() == 32
    }
}

/// The 72 bytes that a chain takes up in an encoding: zeros where there is
/// none.
pub open spec fn encoded_chain(chain: Option<ChainState>) -> Seq<u8> {
    match chain {
        Some(c) => c.encoded(),
        None => zeros(72),
    }
}

/// The chain that bytes encode: none where they are not 72, or all zero.
pub open spec fn decoded_chain(bytes: Seq<u8>) -> Option<ChainState> {
    if bytes.len() == 72 && bytes != zeros(72) {
        Some(ChainState::decoded(bytes))
    } else {
        None
    }
}

impl ChainKey {
    pub fn new(bytes: [u8; 32], prev: u32, remote_key: PublicKey) -> (r: Self)
        ensures
            r@ == (ChainState { remote_key: remote_key@, key: bytes@, count: 0, prev }),
    {
        ChainKey { remote_key, key: bytes, count: 0, prev }
    }

    /// Takes one step and gives its message key.
    pub fn expand(&mut self) -> (r: MessageKey)
        requires
            old(self).count < u32::MAX,
        ensures
            final(self)@ == old(self)@.after(1),
            r@ == old(self)@.key_at(0),
    {
        proof {
            reveal_with_fuel(chain_key_after, 2);
        }
        let one: [u8; 1] = [0x01];
        let two: [u8; 1] = [0x02];
        assert(one@ =~= seq![0x01u8]);
        assert(two@ =~= seq![0x02u8]);
        let message_key: [u8; 32] = hmac_sha256_tag(self.key.as_slice(), one.as_slice());
        let next: [u8; 32] = hmac_sha256_tag(self.key.as_slice(), two.as_slice());
        wipe(&mut self.key);
        self.key = next;
        self.count = self.count + 1;
        MessageKey(message_key)
    }

    /// Whether the chain belongs to another remote key than the given one.
    pub fn compare(&self, remote_key: &PublicKey) -> (r: bool)
        ensures
            r == (self@.remote_key != remote_key@),
    {
        !equal_bytes(self.remote_key.0.as_slice(), remote_key.0.as_slice())
    }

    /// The header of the message that the chain gave a key for last.
    pub fn header(&self, public_key: PublicKey) -> (r: SessionHeader)
        ensures
            r@ == self@.header(public_key@),
    {
        SessionHeader { count: self.count, previous: self.prev, public_key }
    }

    pub fn to_bytes(&self) -> (r: [u8; 72])
        ensures
            r@ == self@.encoded(),
    {
        let mut raw: [u8; 72] = zero_array();
        overwrite(&mut raw, 0, self.remote_key.0.as_slice());
        overwrite(&mut raw, 32, self.key.as_slice());
        overwrite(&mut raw, 64, u32_to_be(self.count).as_slice());
        overwrite(&mut raw, 68, u32_to_be(self.prev).as_slice());
        assert(raw@ =~= self@.encoded());
        raw
    }

    pub fn from(bytes: &[u8; 72]) -> (r: Self)
        ensures
            r@ == ChainState::decoded(bytes@),
    {
        ChainKey {
            remote_key: PublicKey(take_array(bytes.as_slice(), 0)),
            key: take_array(bytes.as_slice(), 32),
            count: u32_from_be(&take_array(bytes.as_slice(), 64)),
            prev: u32_from_be(&take_array(bytes.as_slice(), 68)),
        }
    }

    /// The chain that the bytes encode: none where they are not 72, or all
    /// zero.
    pub fn from_bytes(bytes: &[u8]) -> (r: Option<Self>)
        ensures
            crate::store::seen(r) == decoded_chain(bytes@),
    {
        if bytes.len() == 72 && !is_zero(bytes) {
            let raw: [u8; 72] = take_array(bytes, 0);
            assert(raw@ =~= bytes@);
            Some(Self::from(&raw))
        } else {
            None
        }
    }
}

/// Steps add up.
pub proof fn lemma_after_after(chain: ChainState, m: nat, n: nat)
    requires
        chain.count + m + n <= u32::MAX,
    ensures
        chain.after(m).after(n) == chain.after(m + n),
        chain.after(m).key_at(n) == chain.key_at(m + n),
    decreases n,
{
    if n > 0 {
        lemma_after_after(chain, m, (n - 1) as nat);
    }
}

/// A chain is 72 bytes long when encoded, and decodes to itself.
pub proof fn lemma_chain_round_trip(chain: ChainState)
    requires
        chain.well_formed(),
    ensures
        chain.encoded().len() == 72,
        ChainState::decoded(chain.encoded()) == chain,
{
    let bytes = chain.encoded();
    lemma_be32_round_trip(chain.count);
    lemma_be32_round_trip(chain.prev);
    assert(bytes.subrange(0, 32) =~= chain.remote_key);
    assert(bytes.subrange(32, 64) =~= chain.key);
    assert(bytes.subrange(64, 68) =~= be32(chain.count));
    assert(bytes.subrange(68, 72) =~= be32(chain.prev));
}

/// Any 72 bytes decode to a chain that encodes to the same bytes.
pub proof fn lemma_chain_from_bytes(bytes: Seq<u8>)
    requires
        bytes.len() == 72,
    ensures
        ChainState::decoded(bytes).well_formed(),
        ChainState::decoded(bytes).encoded() == bytes,
{
    lemma_from_be32_round_trip(bytes.subrange(64, 68));
    lemma_from_be32_round_trip(bytes.subrange(68, 72));
    assert(ChainState::decoded(bytes).encoded() =~= bytes);
}

/// Each step keys two hashes with the chain key: that of the byte 1 is the
/// message key, and that of the byte 2 the next chain key. A step counts one,
/// and changes nothing else.
pub proof fn law_chain_step(chain: ChainState)
    requires
        chain.count < u32::MAX,
    ensures
        chain.key_at(0) == hmac_sha256(chain.key, seq![0x01u8]),
        chain.after(0) == chain,
        chain.after(1) == (ChainState {
            key: hmac_sha256(chain.key, seq![0x02u8]),
            count: (chain.count + 1) as u32,
            ..chain
        }),
{
    reveal_with_fuel(chain_key_after, 2);
}

/// A later step is a step of the chain that the earlier ones led to.
pub proof fn law_chain_steps(chain: ChainState, n: nat)
    requires
        chain.count + n <= u32::MAX,
    ensures
        chain.key_at(n) == hmac_sha256(chain.after(n).key, seq![0x01u8]),
        chain.after(n + 1).key == hmac_sha256(chain.after(n).key, seq![0x02u8]),
        chain.after(n).count == chain.count + n,
        chain.after(n).remote_key == chain.remote_key,
        chain.after(n).prev == chain.prev,
{
}

/// The header of a chain tells its two counts, beside the key that it is given.
pub proof fn law_chain_header(chain: ChainState, public_key: Seq<u8>)
    ensures
        chain.header(public_key).count == chain.count,
        chain.header(public_key).previous == chain.prev,
        chain.header(public_key).public_key == public_key,
{
}

/// Where each part of an encoded chain stands, and that only 72 bytes that are
/// not all zero encode one.
pub proof fn law_chain_layout(chain: ChainState, bytes: Seq<u8>)
    requires
        chain.well_formed(),
    ensures
        chain.encoded().subrange(0, 32) == chain.remote_key,
        chain.encoded().subrange(32, 64) == chain.key,
        chain.encoded().subrange(64, 68) == be32(chain.count),
        chain.encoded().subrange(68, 72) == be32(chain.prev),
        encoded_chain(Some(chain)) == chain.encoded(),
        encoded_chain(None) == Seq::new(72, |i: int| 0u8),
        decoded_chain(bytes) is None <==> bytes.len() != 72 || (forall|i: int|
            0 <= i < 72 ==> bytes[i] == 0),
        decoded_chain(bytes) matches Some(c) ==> c.encoded() == bytes,
{
    lemma_chain_round_trip(chain);
    let e = chain.encoded();
    assert(e.subrange(0, 32) =~= chain.remote_key);
    assert(e.subrange(32, 64) =~= chain.key);
    assert(e.subrange(64, 68) =~= be32(chain.count));
    assert(e.subrange(68, 72) =~= be32(chain.prev));
    if bytes.len() == 72 {
        lemma_chain_from_bytes(bytes);
        if forall|i: int| 0 <= i < 72 ==> bytes[i] == 0 {
            assert(bytes =~= zeros(72));
        }
        if bytes == zeros(72) {
            assert forall|i: int| 0 <= i < 72 implies bytes[i] == 0 by {}
        }
    }
}

/// The view of a chain key holds each of its fields.
pub proof fn law_chain_view(chain: ChainKey)
    ensures
        chain@.remote_key == chain.remote_key.0@,
        chain@.key == chain.key@,
        chain@.count == chain.count,
        chain@.prev == chain.prev,
{
}

} // verus!
