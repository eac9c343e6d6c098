//! What clients and nodes send each other.
use vstd::prelude::*;

verus! {

/// An encrypted message on its way. A node never looks into `header` and
/// `ciphertext`, which are Base64 text.
#[derive(Debug)]
pub struct EncryptedEnvelope {
    pub message_id: String,
    pub sender_id: String,
    pub recipient_id: String,
    pub header: String,
    pub ciphertext: String,
    pub timestamp: u64,
}

/// An [`EncryptedEnvelope`] whose texts are sequences of characters.
pub struct Envelope {
    pub message_id: Seq<char>,
    pub sender_id: Seq<char>,
    pub recipient_id: Seq<char>,
    pub header: Seq<char>,
    pub ciphertext: Seq<char>,
    pub timestamp: u64,
}

impl View for EncryptedEnvelope {
    type V = Envelope;

    open spec fn view(&self) -> Envelope {
        Envelope {
            message_id: self.message_id@,
            sender_id: self.sender_id@,
            recipient_id: self.recipient_id@,
            header: self.header@,
            ciphertext: self.ciphertext@,
            timestamp: self.timestamp,
        }
    }
}

impl Clone for EncryptedEnvelope {
    fn clone(&self) -> (r: Self)
        ensures
            r@ == self@,
    {
        EncryptedEnvelope {
            message_id: self.message_id.clone(),
            sender_id: self.sender_id.clone(),
            recipient_id: self.recipient_id.clone(),
            header: self.header.clone(),
            ciphertext: self.ciphertext.clone(),
            timestamp: self.timestamp,
        }
    }
}

/// A client asks for a message to be delivered.
#[derive(Debug)]
pub struct DepositMessageRequest {
    pub recipient_id: String,
    pub header: String,
    pub ciphertext: String,
}

/// The answer to a deposit. `relayed` tells that the message was forwarded to
/// a peer node instead of being stored.
#[derive(Debug)]
pub struct DepositMessageResponse {
    pub message_id: String,
    pub relayed: bool,
}

/// The messages that wait for a client.
#[derive(Debug)]
pub struct FetchMessagesResponse {
    pub messages: Vec<EncryptedEnvelope>,
}

/// The messages that a client has received.
#[derive(Debug)]
pub struct AckMessagesRequest {
    pub message_ids: Vec<String>,
}

/// A node forwards a message to the node of its recipient.
#[derive(Debug)]
pub struct RelayMessageRequest {
    pub envelope: EncryptedEnvelope,
    pub origin_node_id: String,
}

/// Where a client is at home.
#[derive(Debug, Clone)]
pub enum NodeLocation {
    /// On this node.
    Local,
    /// On a peer node, which takes messages at its relay address.
    Remote { node_id: String, relay_url: String },
}

/// Who this node is to its peers.
#[derive(Debug, Clone)]
pub struct NodeConfig {
    pub node_id: String,
    /// What this node proves itself with when it relays to a peer.
    pub outbound_node_token: String,
}

/// The id of a client that has proved who they are.
pub struct AuthenticatedClient(pub String);

/// The id of a node that has proved who it is.
pub struct AuthenticatedNode(pub String);

} // verus!
