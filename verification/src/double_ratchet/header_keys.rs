//! The header keys of one direction: the current one, and the one that takes
//! its place at the next turn of the ratchet.
use crate::bytes::{is_zero, overwrite, take_array, zero_array, zeros};
use crate::header::HeaderKey;
use crate::store::seen;
use vstd::prelude::*;

verus! {

#[derive(PartialEq, Eq, Debug)]
pub struct HeaderKeys {
    pub curr: Option<HeaderKey>,
    pub next: Option<HeaderKey>,
}

/// The header keys as byte strings.
#[verifier::ext_equal]
pub struct HeaderKeysState {
    pub curr: Option<Seq<u8>>,
    pub next: Option<Seq<u8>>,
}

/// The 32 bytes that a key takes up in an encoding: zeros where there is none.
pub open spec fn encoded_slot(key: Option<Seq<u8>>) -> Seq<u8> {
    match key {
        Some(bytes) => bytes,
        None => zeros(32),
    }
}

/// The key that 32 bytes of an encoding stand for.
pub open spec fn decoded_slot(bytes: Seq<u8>) -> Option<Seq<u8>> {
    if bytes == zeros(32) {
        None
    } else {
        Some(bytes)
    }
}

impl HeaderKeysState {
    /// No keys.
    pub open spec fn empty() -> Self {
        HeaderKeysState { curr: None, next: None }
    }

    /// The keys before the first turn: only the next one is known.
    pub open spec fn starting(next: Seq<u8>) -> Self {
        HeaderKeysState { curr: None, next: Some(next) }
    }

    /// The keys after a turn that brought `key`.
    pub open spec fn turned(self, key: Seq<u8>) -> Self {
        HeaderKeysState { curr: self.next, next: Some(key) }
    }

    pub open spec fn encoded(self) -> Seq<u8> {
        encoded_slot(self.curr) + encoded_slot(self.next)
    }

    pub open spec fn decoded(bytes: Seq<u8>) -> Self {
        HeaderKeysState {
            curr: decoded_slot(bytes.subrange(0, 32)),
            next: decoded_slot(bytes.subrange(32, 64)),
        }
    }

    /// Keys are 32 bytes long.
    pub open spec fn well_formed(self) -> bool {
        &&& (self.curr matches Some(k) ==> k.len() == 32)
        &&& (self.next matches Some(k) ==> k.len() == 32)
    }

    /// Neither key is all zeros, which an encoding takes for no key.
    pub open spec fn encodable(self) -> bool {
        self.curr != Some(zeros(32)) && self.next != Some(zeros(32))
    }
}

impl View for HeaderKeys {
    type V = HeaderKeysState;

    open spec fn view(&self) -> HeaderKeysState {
        HeaderKeysState { curr: seen(self.curr), next: seen(self.next) }
    }
}

impl Clone for HeaderKeys {
    fn clone(&self) -> (r: Self)
        ensures
            r == *self,
    {
        HeaderKeys { curr: clone_key(&self.curr), next: clone_key(&self.next) }
    }
}

impl Default for HeaderKeys {
    fn default() -> (r: Self)
        ensures
            r@ == HeaderKeysState::empty(),
    {
        HeaderKeys { curr: None, next: None }
    }
}

fn clone_key(key: &Option<HeaderKey>) -> (r: Option<HeaderKey>)
    ensures
        r == *key,
{
    match key {
        Some(k) => Some(k.clone()),
        None => None,
    }
}

fn read_slot(bytes: &[u8; 64], at: usize) -> (r: Option<HeaderKey>)
    requires
        at + 32 <= 64,
    ensures
        seen(r) == decoded_slot(bytes@.subrange(at as int, at + 32)),
{
    let key: [u8; 32] = take_array(bytes.as_slice(), at);
    if is_zero(key.as_slice()) {
        None
    } else {
        Some(HeaderKey(key))
    }
}

impl HeaderKeys {
    pub fn new(next_header_key: HeaderKey) -> (r: Self)
        ensures
            r@ == HeaderKeysState::starting(next_header_key@),
    {
        HeaderKeys { curr: None, next: Some(next_header_key) }
    }

    pub fn header_key(&self) -> (r: Option<HeaderKey>)
        ensures
            r == self.curr,
            seen(r) == self@.curr,
    {
        clone_key(&self.curr)
    }

    /// The next key becomes the current one, and `header_key` the next.
    pub fn update(&mut self, header_key: HeaderKey)
        ensures
            final(self)@ == old(self)@.turned(header_key@),
    {
        self.curr = self.next.take();
        self.next = Some(header_key);
    }

    pub fn to_bytes(&self) -> (r: [u8; 64])
        ensures
            r@ == self@.encoded(),
    {
        let mut raw: [u8; 64] = zero_array();
        if let Some(curr) = &self.curr {
            overwrite(&mut raw, 0, curr.0.as_slice());
        }
        if let Some(next) = &self.next {
            overwrite(&mut raw, 32, next.0.as_slice());
        }
        assert(raw@ =~= self@.encoded());
        raw
    }

    pub fn from_bytes(bytes: &[u8; 64]) -> (r: Self)
        ensures
            r@ == HeaderKeysState::decoded(bytes@),
    {
        HeaderKeys { curr: read_slot(bytes, 0), next: read_slot(bytes, 32) }
    }
}

/// Header keys are 64 bytes long when encoded, and decode to themselves unless
/// one of them is all zeros.
pub proof fn lemma_header_keys_round_trip(keys: HeaderKeysState)
    requires
        keys.well_formed(),
    ensures
        keys.encoded().len() == 64,
        keys.encodable() ==> HeaderKeysState::decoded(keys.encoded()) == keys,
{
    assert(keys.encoded().subrange(0, 32) =~= encoded_slot(keys.curr));
    assert(keys.encoded().subrange(32, 64) =~= encoded_slot(keys.next));
}

/// Any 64 bytes decode to header keys that encode to the same bytes.
pub proof fn lemma_header_keys_from_bytes(bytes: Seq<u8>)
    requires
        bytes.len() == 64,
    ensures
        HeaderKeysState::decoded(bytes).well_formed(),
        HeaderKeysState::decoded(bytes).encodable(),
        HeaderKeysState::decoded(bytes).encoded() == bytes,
{
    assert(HeaderKeysState::decoded(bytes).encoded() =~= bytes);
}

/// A turn makes the next key the current one and takes up the new one. The
/// current key is forgotten.
pub proof fn law_header_keys_turn(keys: HeaderKeysState, key: Seq<u8>, another: Seq<u8>)
    ensures
        keys.turned(key).curr == keys.next,
        keys.turned(key).next == Some(key),
        keys.turned(key).turned(another).curr == Some(key),
        HeaderKeysState::starting(key).curr is None,
        HeaderKeysState::starting(key).next == Some(key),
        HeaderKeysState::empty().curr is None,
        HeaderKeysState::empty().next is None,
{
}

/// Where each header key stands in an encoding, and that zeros stand for none.
pub proof fn law_header_keys_layout(keys: HeaderKeysState, bytes: Seq<u8>)
    requires
        keys.well_formed(),
        bytes.len() == 64,
    ensures
        keys.encoded().len() == 64,
        keys.curr matches Some(key) ==> keys.encoded().subrange(0, 32) == key,
        keys.next matches Some(key) ==> keys.encoded().subrange(32, 64) == key,
        keys.curr is None ==> forall|i: int| 0 <= i < 32 ==> keys.encoded()[i] == 0,
        keys.next is None ==> forall|i: int| 32 <= i < 64 ==> keys.encoded()[i] == 0,
        HeaderKeysState::decoded(bytes).curr is None <==> (forall|i: int|
            0 <= i < 32 ==> bytes[i] == 0),
        HeaderKeysState::decoded(bytes).next is None <==> (forall|i: int|
            32 <= i < 64 ==> bytes[i] == 0),
        HeaderKeysState::decoded(bytes).curr matches Some(key) ==> key == bytes.subrange(0, 32),
        HeaderKeysState::decoded(bytes).next matches Some(key) ==> key == bytes.subrange(32, 64),
{
    assert(keys.encoded().subrange(0, 32) =~= encoded_slot(keys.curr));
    assert(keys.encoded().subrange(32, 64) =~= encoded_slot(keys.next));
    let (first, second) = (bytes.subrange(0, 32), bytes.subrange(32, 64));
    if forall|i: int| 0 <= i < 32 ==> bytes[i] == 0 {
        assert(first =~= zeros(32));
    }
    if first == zeros(32) {
        assert forall|i: int| 0 <= i < 32 implies bytes[i] == 0 by {
            assert(first[i] == 0);
        }
    }
    if forall|i: int| 32 <= i < 64 ==> bytes[i] == 0 {
        assert(second =~= zeros(32));
    }
    if second == zeros(32) {
        assert forall|i: int| 32 <= i < 64 implies bytes[i] == 0 by {
            assert(second[i - 32] == 0);
        }
    }
}

/// The view of header keys holds both of them.
pub proof fn law_header_keys_view(keys: HeaderKeys)
    ensures
        keys.curr matches Some(key) ==> keys@.curr == Some(key.0@),
        keys.curr is None ==> keys@.curr is None,
        keys.next matches Some(key) ==> keys@.next == Some(key.0@),
        keys.next is None ==> keys@.next is None,
{
}

} // verus!
