//! The header of a message: where it stands in its chain, and the ratchet key
//! that the chain belongs to.
use crate::bytes::{
    append_bytes, be32, from_be32, lemma_be32_round_trip, lemma_from_be32_round_trip, take_array,
    u32_from_be, u32_to_be, zeros,
};
use crate::header::{Header, HeaderError};
use crate::keys::PublicKey;
use crate::primitives::wipe;
use vstd::prelude::*;

verus! {

pub struct SessionHeader {
    /// The number of the message in its chain, from 1 on.
    pub count: u32,
    /// The number of messages in the sender's chain before this one.
    pub previous: u32,
    /// The ratchet key of the sender.
    pub public_key: PublicKey,
}

/// A header whose key is a byte string.
#[verifier::ext_equal]
pub struct HeaderState {
    pub count: u32,
    pub previous: u32,
    pub public_key: Seq<u8>,
}

impl View for SessionHeader {
    type V = HeaderState;

    open spec fn view(&self) -> HeaderState {
        HeaderState { count: self.count, previous: self.previous, public_key: self.public_key@ }
    }
}

impl Clone for SessionHeader {
    fn clone(&self) -> (r: Self)
        ensures
            r == *self,
    {
        SessionHeader { count: self.count, previous: self.previous, public_key: self.public_key }
    }
}

impl Drop for SessionHeader {
    fn drop(&mut self)
        ensures
            final(self)@ == (HeaderState { count: 0, previous: 0, public_key: zeros(32) }),
        opens_invariants none
        no_unwind
    {
        self.count = 0;
        self.previous = 0;
        wipe(&mut self.public_key.0);
    }
}

impl HeaderState {
    pub open spec fn encoded(self) -> Seq<u8> {
        be32(self.count) + be32(self.previous) + self.public_key
    }

    /// The header that 40 bytes encode; no other number of bytes does.
    pub open spec fn decoded(bytes: Seq<u8>) -> Option<Self> {
        if bytes.len() == 40 {
            Some(
                HeaderState {
                    count: from_be32(bytes.subrange(0, 4)),
                    previous: from_be32(bytes.subrange(4, 8)),
                    public_key: bytes.subrange(8, 40),
                },
            )
        } else {
            None
        }
    }
}

impl Header for SessionHeader {
    open spec fn key_of(header: HeaderState) -> Seq<u8> {
        header.public_key
    }

    open spec fn encoded(header: HeaderState) -> Seq<u8> {
        header.encoded()
    }

    open spec fn decoded(bytes: Seq<u8>) -> Option<HeaderState> {
        HeaderState::decoded(bytes)
    }

    fn get_public_key(&self) -> PublicKey {
        self.public_key
    }

    fn to_slice(&self) -> Vec<u8> {
        let mut raw: Vec<u8> = Vec::new();
        append_bytes(&mut raw, u32_to_be(self.count).as_slice());
        append_bytes(&mut raw, u32_to_be(self.previous).as_slice());
        append_bytes(&mut raw, self.public_key.0.as_slice());
        assert(raw@ =~= self@.encoded());
        raw
    }

    fn from_bytes(bytes: &[u8]) -> Result<Self, HeaderError> {
        if bytes.len() != 40 {
            return Err(HeaderError());
        }
        Ok(
            SessionHeader {
                count: u32_from_be(&take_array(bytes, 0)),
                previous: u32_from_be(&take_array(bytes, 4)),
                public_key: PublicKey(take_array(bytes, 8)),
            },
        )
    }
}

/// A header is 40 bytes long when encoded, and decodes to itself.
pub proof fn lemma_header_round_trip(header: HeaderState)
    requires
        header.public_key.len() == 32,
    ensures
        header.encoded().len() == 40,
        HeaderState::decoded(header.encoded()) == Some(header),
{
    let bytes = header.encoded();
    lemma_be32_round_trip(header.count);
    lemma_be32_round_trip(header.previous);
    assert(bytes.subrange(0, 4) =~= be32(header.count));
    assert(bytes.subrange(4, 8) =~= be32(header.previous));
    assert(bytes.subrange(8, 40) =~= header.public_key);
}

/// Whatever bytes decode to a header are its encoding.
pub proof fn lemma_header_from_bytes(bytes: Seq<u8>)
    ensures
        HeaderState::decoded(bytes) matches Some(header) ==> header.public_key.len() == 32
            && header.encoded() == bytes,
{
    if bytes.len() == 40 {
        lemma_from_be32_round_trip(bytes.subrange(0, 4));
        lemma_from_be32_round_trip(bytes.subrange(4, 8));
        assert(HeaderState::decoded(bytes).unwrap().encoded() =~= bytes);
    }
}

/// Where each part of an encoded header stands, and that 40 bytes, and no other
/// number of them, encode one.
pub proof fn law_header_layout(header: HeaderState, bytes: Seq<u8>)
    requires
        header.public_key.len() == 32,
    ensures
        header.encoded().subrange(0, 4) == be32(header.count),
        header.encoded().subrange(4, 8) == be32(header.previous),
        header.encoded().subrange(8, 40) == header.public_key,
        HeaderState::decoded(bytes) is Some <==> bytes.len() == 40,
        HeaderState::decoded(bytes) matches Some(h) ==> h.encoded() == bytes,
        <SessionHeader as Header>::key_of(header) == header.public_key,
        <SessionHeader as Header>::encoded(header) == header.encoded(),
        <SessionHeader as Header>::decoded(bytes) == HeaderState::decoded(bytes),
{
    lemma_header_round_trip(header);
    lemma_header_from_bytes(bytes);
    assert(header.encoded().subrange(0, 4) =~= be32(header.count));
    assert(header.encoded().subrange(4, 8) =~= be32(header.previous));
    assert(header.encoded().subrange(8, 40) =~= header.public_key);
}

/// The view of a header holds each of its fields.
pub proof fn law_header_view(header: SessionHeader)
    ensures
        header@.count == header.count,
        header@.previous == header.previous,
        header@.public_key == header.public_key.0@,
{
}

} // verus!
