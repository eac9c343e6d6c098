//! In-memory stores and authenticators, for development and for tests.
use super::error::{NodeError, NodeFailure};
use super::types::{EncryptedEnvelope, Envelope, NodeLocation};
use crate::primitives::equal_bytes;
use vstd::hash_map::StringHashMap;
use vstd::hash_set::StringHashSet;
use vstd::prelude::*;

verus! {

/// The messages that wait, in the order in which they came.
pub struct InMemoryMessageStore {
    pub inbox: Vec<EncryptedEnvelope>,
}

/// The views of a list of envelopes.
pub open spec fn envelopes(list: Seq<EncryptedEnvelope>) -> Seq<Envelope> {
    list.map_values(|envelope: EncryptedEnvelope| envelope@)
}

/// The views of a list of texts.
pub open spec fn texts(list: Seq<String>) -> Seq<Seq<char>> {
    list.map_values(|text: String| text@)
}

/// The messages for one recipient, in the order in which they came.
pub open spec fn waiting_for(all: Seq<Envelope>, recipient_id: Seq<char>) -> Seq<Envelope>
    decreases all.len(),
{
    if all.len() == 0 {
        Seq::empty()
    } else {
        let earlier = waiting_for(all.drop_last(), recipient_id);
        if all.last().recipient_id == recipient_id {
            earlier.push(all.last())
        } else {
            earlier
        }
    }
}

/// The messages that are left once a recipient has acknowledged some of
/// theirs.
pub open spec fn without(
    all: Seq<Envelope>,
    recipient_id: Seq<char>,
    message_ids: Seq<Seq<char>>,
) -> Seq<Envelope>
    decreases all.len(),
{
    if all.len() == 0 {
        Seq::empty()
    } else {
        let earlier = without(all.drop_last(), recipient_id, message_ids);
        if all.last().recipient_id == recipient_id && message_ids.contains(all.last().message_id) {
            earlier
        } else {
            earlier.push(all.last())
        }
    }
}

impl View for InMemoryMessageStore {
    type V = Seq<Envelope>;

    open spec fn view(&self) -> Seq<Envelope> {
        envelopes(self.inbox@)
    }
}

impl Default for InMemoryMessageStore {
    fn default() -> (r: Self)
        ensures
            r@ == Seq::<Envelope>::empty(),
    {
        let r: InMemoryMessageStore = InMemoryMessageStore { inbox: Vec::new() };
        assert(r@ =~= Seq::<Envelope>::empty());
        r
    }
}

fn is_among(list: &[String], text: &String) -> (r: bool)
    ensures
        r == texts(list@).contains(text@),
{
    let ghost all = texts(list@);
    let mut i: usize = 0;
    while i < list.len()
        invariant
            0 <= i <= list@.len(),
            all == texts(list@),
            forall|j: int| 0 <= j < i ==> #[trigger] all[j] != text@,
        decreases list@.len() - i,
    {
        if list[i] == *text {
            assert(all[i as int] == text@);
            return true;
        }
        assert(all[i as int] != text@);
        i = i + 1;
    }
    false
}

impl InMemoryMessageStore {
    pub fn save_message(&mut self, envelope: EncryptedEnvelope) -> (r: Result<(), NodeError>)
        ensures
            r is Ok,
            final(self)@ == old(self)@.push(envelope@),
    {
        let ghost before = self@;
        self.inbox.push(envelope);
        assert(self@ =~= before.push(envelope@));
        Ok(())
    }

    pub fn fetch_messages(&self, recipient_id: &str) -> (r: Result<
        Vec<EncryptedEnvelope>,
        NodeError,
    >)
        ensures
            r matches Ok(messages) && envelopes(messages@) == waiting_for(self@, recipient_id@),
    {
        let recipient: String = recipient_id.to_owned();
        let mut messages: Vec<EncryptedEnvelope> = Vec::new();
        let mut i: usize = 0;
        assert(self@.subrange(0, 0) =~= Seq::empty());
        assert(envelopes(messages@) =~= Seq::empty());
        while i < self.inbox.len()
            invariant
                0 <= i <= self.inbox@.len(),
                recipient@ == recipient_id@,
                envelopes(messages@) == waiting_for(self@.subrange(0, i as int), recipient_id@),
            decreases self.inbox@.len() - i,
        {
            let ghost more = self@.subrange(0, i + 1);
            assert(more.drop_last() =~= self@.subrange(0, i as int));
            if self.inbox[i].recipient_id == recipient {
                let ghost before = messages@;
                let envelope: EncryptedEnvelope = self.inbox[i].clone();
                messages.push(envelope);
                assert(envelopes(messages@) =~= envelopes(before).push(envelope@));
            }
            i = i + 1;
        }
        assert(self@.subrange(0, i as int) =~= self@);
        Ok(messages)
    }

    pub fn ack_messages(&mut self, recipient_id: &str, message_ids: &[String]) -> (r: Result<
        (),
        NodeError,
    >)
        ensures
            r is Ok,
            final(self)@ == without(old(self)@, recipient_id@, texts(message_ids@)),
    {
        let recipient: String = recipient_id.to_owned();
        let ghost before = self@;
        let ghost ids = texts(message_ids@);
        let mut kept: Vec<EncryptedEnvelope> = Vec::new();
        let mut i: usize = 0;
        assert(before.subrange(0, 0) =~= Seq::empty());
        assert(envelopes(kept@) =~= Seq::empty());
        while i < self.inbox.len()
            invariant
                0 <= i <= self.inbox@.len(),
                before == self@,
                recipient@ == recipient_id@,
                ids == texts(message_ids@),
                envelopes(kept@) == without(
                    before.subrange(0, i as int),
                    recipient_id@,
                    ids,
                ),
            decreases self.inbox@.len() - i,
        {
            let ghost more = before.subrange(0, i + 1);
            assert(more.drop_last() =~= before.subrange(0, i as int));
            let envelope: &EncryptedEnvelope = &self.inbox[i];
            let acknowledged = envelope.recipient_id == recipient && is_among(
                message_ids,
                &envelope.message_id,
            );
            if !acknowledged {
                let ghost earlier = kept@;
                let envelope: EncryptedEnvelope = envelope.clone();
                kept.push(envelope);
                assert(envelopes(kept@) =~= envelopes(earlier).push(envelope@));
            }
            i = i + 1;
        }
        assert(before.subrange(0, i as int) =~= before);
        self.inbox = kept;
        Ok(())
    }
}

/// The client that each bearer token stands for.
pub struct StaticTokenAuthenticator {
    pub tokens: StringHashMap<String>,
}

impl Default for StaticTokenAuthenticator {
    fn default() -> (r: Self)
        ensures
            r.tokens@ == Map::<Seq<char>, String>::empty(),
    {
        StaticTokenAuthenticator { tokens: StringHashMap::new() }
    }
}

impl StaticTokenAuthenticator {
    /// Lets the token stand for the client.
    pub fn insert(&mut self, token: String, client_id: String)
        ensures
            final(self).tokens@ == old(self).tokens@.insert(token@, client_id),
    {
        self.tokens.insert(token, client_id);
    }

    pub fn authenticate(&self, credential: &str) -> (r: Result<String, NodeError>)
        ensures
            match r {
                Ok(client_id) => self.tokens@.contains_key(credential@) && client_id@
                    == self.tokens@[credential@]@,
                Err(error) => !self.tokens@.contains_key(credential@) && error@
                    == NodeFailure::Unauthorized,
            },
    {
        match self.tokens.get(credential) {
            Some(client_id) => Ok(client_id.clone()),
            None => Err(NodeError::Unauthorized),
        }
    }
}

/// The secret that each peer node shares with this one.
pub struct StaticNodeAuthenticator {
    pub secrets: StringHashMap<String>,
}

impl Default for StaticNodeAuthenticator {
    fn default() -> (r: Self)
        ensures
            r.secrets@ == Map::<Seq<char>, String>::empty(),
    {
        StaticNodeAuthenticator { secrets: StringHashMap::new() }
    }
}

impl StaticNodeAuthenticator {
    /// Shares the secret with the node.
    pub fn insert(&mut self, node_id: String, secret: String)
        ensures
            final(self).secrets@ == old(self).secrets@.insert(node_id@, secret),
    {
        self.secrets.insert(node_id, secret);
    }

    /// A node is who it says it is where its token is the shared secret.
    pub fn verify(&self, node_id: &str, token: &str) -> (r: Result<(), NodeError>)
        ensures
            r is Ok <==> self.secrets@.contains_key(node_id@) && self.secrets@[node_id@]@ == token@,
            r matches Err(error) ==> error@ == NodeFailure::Unauthorized,
    {
        match self.secrets.get(node_id) {
            Some(expected) => {
                proof {
                    vstd::utf8::encode_utf8_decode_utf8(expected@);
                    vstd::utf8::encode_utf8_decode_utf8(token@);
                }
                if equal_bytes(expected.as_str().as_bytes(), token.as_bytes()) {
                    Ok(())
                } else {
                    Err(NodeError::Unauthorized)
                }
            },
            None => Err(NodeError::Unauthorized),
        }
    }
}

/// Which clients are at home here, and where the others are.
pub struct StaticDirectory {
    pub local_clients: StringHashSet,
    /// The id and the relay address of the node of each remote client.
    pub remote_clients: StringHashMap<(String, String)>,
}

impl Default for StaticDirectory {
    fn default() -> (r: Self)
        ensures
            r.local_clients@ == Set::<Seq<char>>::empty(),
            r.remote_clients@ == Map::<Seq<char>, (String, String)>::empty(),
    {
        StaticDirectory {
            local_clients: StringHashSet::new(),
            remote_clients: StringHashMap::new(),
        }
    }
}

impl StaticDirectory {
    /// Makes a client at home here.
    pub fn insert_local(&mut self, client_id: String)
        ensures
            final(self).local_clients@ == old(self).local_clients@.insert(client_id@),
            final(self).remote_clients@ == old(self).remote_clients@,
    {
        self.local_clients.insert(client_id);
    }

    /// Makes a client at home on a peer node.
    pub fn insert_remote(&mut self, client_id: String, node_id: String, relay_url: String)
        ensures
            final(self).local_clients@ == old(self).local_clients@,
            final(self).remote_clients@ == old(self).remote_clients@.insert(
                client_id@,
                (node_id, relay_url),
            ),
    {
        self.remote_clients.insert(client_id, (node_id, relay_url));
    }

    /// Where a client is at home. A client that is at home here is found here,
    /// whatever else is known of it.
    pub fn locate(&self, client_id: &str) -> (r: Result<NodeLocation, NodeError>)
        ensures
            match r {
                Ok(NodeLocation::Local) => self.local_clients@.contains(client_id@),
                Ok(NodeLocation::Remote { node_id, relay_url }) => {
                    &&& !self.local_clients@.contains(client_id@)
                    &&& self.remote_clients@.contains_key(client_id@)
                    &&& node_id@ == self.remote_clients@[client_id@].0@
                    &&& relay_url@ == self.remote_clients@[client_id@].1@
                },
                Err(error) => {
                    &&& !self.local_clients@.contains(client_id@)
                    &&& !self.remote_clients@.contains_key(client_id@)
                    &&& error@ == NodeFailure::UnknownRecipient
                },
            },
    {
        if self.local_clients.contains(client_id) {
            return Ok(NodeLocation::Local);
        }
        match self.remote_clients.get(client_id) {
            Some(place) => Ok(
                NodeLocation::Remote { node_id: place.0.clone(), relay_url: place.1.clone() },
            ),
            None => Err(NodeError::UnknownRecipient),
        }
    }
}

/// A message that is saved is fetched by its recipient, behind those that came
/// before it, and by no one else.
pub proof fn law_saved_message_is_fetched(all: Seq<Envelope>, envelope: Envelope, other: Seq<char>)
    ensures
        waiting_for(all.push(envelope), envelope.recipient_id) == waiting_for(
            all,
            envelope.recipient_id,
        ).push(envelope),
        other != envelope.recipient_id ==> waiting_for(all.push(envelope), other) == waiting_for(
            all,
            other,
        ),
{
    assert(all.push(envelope).drop_last() =~= all);
}

/// Acknowledging removes exactly the acknowledged messages of the recipient:
/// the others of theirs stay in order, and nobody else's are touched.
pub proof fn law_acknowledged_messages_are_gone(
    all: Seq<Envelope>,
    recipient_id: Seq<char>,
    message_ids: Seq<Seq<char>>,
    other: Seq<char>,
)
    ensures
        other != recipient_id ==> waiting_for(without(all, recipient_id, message_ids), other)
            == waiting_for(all, other),
        waiting_for(without(all, recipient_id, message_ids), recipient_id) == without(
            waiting_for(all, recipient_id),
            recipient_id,
            message_ids,
        ),
        forall|i: int|
            0 <= i < waiting_for(without(all, recipient_id, message_ids), recipient_id).len()
                ==> !message_ids.contains(
                (#[trigger] waiting_for(
                    without(all, recipient_id, message_ids),
                    recipient_id,
                )[i]).message_id,
            ),
    decreases all.len(),
{
    if all.len() > 0 {
        let last = all.last();
        let fewer = all.drop_last();
        law_acknowledged_messages_are_gone(fewer, recipient_id, message_ids, other);
        let left = without(fewer, recipient_id, message_ids);
        law_saved_message_is_fetched(left, last, other);
        law_saved_message_is_fetched(left, last, recipient_id);
        let mine = waiting_for(fewer, recipient_id);
        if last.recipient_id == recipient_id {
            assert(mine.push(last).drop_last() =~= mine);
        }
    }
}

} // verus!
