//! What a node does with a request: what it checks, what it stores, what it
//! forwards, and what it answers once that is done.
use super::error::{NodeError, NodeFailure};
use super::text::{blank, hex_encode, hex_encoded, is_blank};
use super::types::{
    DepositMessageRequest, DepositMessageResponse, EncryptedEnvelope, Envelope,
    FetchMessagesResponse, NodeConfig, NodeLocation, RelayMessageRequest,
};
use crate::primitives::{base64_decode, base64_decoded, random_id};
use vstd::prelude::*;
use vstd::string::StringExecFns;

verus! {

/// The status of a request that has been carried out and has no answer.
pub const NO_CONTENT: u16 = 204;

/// The status of a relayed message that has been taken.
pub const ACCEPTED: u16 = 202;

/// What is wrong with a deposit, if anything is.
pub open spec fn deposit_problem(
    recipient_id: Seq<char>,
    header: Seq<char>,
    ciphertext: Seq<char>,
) -> Option<Seq<char>> {
    if blank(recipient_id) {
        Some("recipient_id is required"@)
    } else if base64_decoded(header) is None {
        Some("header must be valid base64"@)
    } else if base64_decoded(ciphertext) is None {
        Some("ciphertext must be valid base64"@)
    } else {
        None
    }
}

/// The envelope of a deposit.
pub open spec fn deposited(
    sender_id: Seq<char>,
    request: DepositMessageRequest,
    message_id: Seq<char>,
    timestamp: u64,
) -> Envelope {
    Envelope {
        message_id,
        sender_id,
        recipient_id: request.recipient_id@,
        header: request.header@,
        ciphertext: request.ciphertext@,
        timestamp,
    }
}

/// Whether the bytes are ones that the random numbers of the operating system
/// have given for a message id.
pub closed spec fn id_given(bytes: Seq<u8>) -> bool {
    exists|given: [u8; 16]| #[trigger] call_ensures(random_id, (), given) && given@ == bytes
}

/// A fresh message id: 16 random bytes in hexadecimal digits.
pub fn generate_message_id() -> (r: String)
    ensures
        exists|bytes: Seq<u8>|
            bytes.len() == 16 && id_given(bytes) && r@ == #[trigger] hex_encoded(bytes),
        r@.len() == 32,
{
    let bytes: [u8; 16] = random_id();
    hex_encode(bytes.as_slice())
}

/// Checks a deposit.
pub fn check_deposit(request: &DepositMessageRequest) -> (r: Result<(), NodeError>)
    ensures
        match deposit_problem(request.recipient_id@, request.header@, request.ciphertext@) {
            None => r is Ok,
            Some(problem) => r matches Err(error) && error@ == NodeFailure::InvalidRequest(problem),
        },
{
    if is_blank(request.recipient_id.as_str()) {
        return Err(NodeError::InvalidRequest(String::from_str("recipient_id is required")));
    }
    if base64_decode(request.header.as_str()).is_err() {
        return Err(NodeError::InvalidRequest(String::from_str("header must be valid base64")));
    }
    if base64_decode(request.ciphertext.as_str()).is_err() {
        return Err(NodeError::InvalidRequest(String::from_str("ciphertext must be valid base64")));
    }
    Ok(())
}

/// Puts a deposit into an envelope with the given message id.
pub fn seal_deposit(
    sender_id: String,
    request: DepositMessageRequest,
    message_id: String,
    timestamp: u64,
) -> (r: EncryptedEnvelope)
    ensures
        r@ == deposited(sender_id@, request, message_id@, timestamp),
        r.message_id@ == message_id@,
        r.sender_id@ == sender_id@,
        r.recipient_id@ == request.recipient_id@,
        r.header@ == request.header@,
        r.ciphertext@ == request.ciphertext@,
        r.timestamp == timestamp,
{
    EncryptedEnvelope {
        message_id,
        sender_id,
        recipient_id: request.recipient_id,
        header: request.header,
        ciphertext: request.ciphertext,
        timestamp,
    }
}

/// Checks a deposit, and puts it into an envelope with a fresh message id.
pub fn begin_deposit(sender_id: String, request: DepositMessageRequest, timestamp: u64) -> (r:
    Result<EncryptedEnvelope, NodeError>)
    ensures
        match deposit_problem(request.recipient_id@, request.header@, request.ciphertext@) {
            None => r matches Ok(envelope) && exists|bytes: Seq<u8>|
                bytes.len() == 16 && id_given(bytes) && envelope@ == deposited(
                    sender_id@,
                    request,
                    #[trigger] hex_encoded(bytes),
                    timestamp,
                ),
            Some(problem) => r matches Err(error) && error@ == NodeFailure::InvalidRequest(problem),
        },
        r matches Ok(envelope) ==> {
            &&& envelope.sender_id@ == sender_id@
            &&& envelope.recipient_id@ == request.recipient_id@
            &&& envelope.header@ == request.header@
            &&& envelope.ciphertext@ == request.ciphertext@
            &&& envelope.timestamp == timestamp
            &&& envelope.message_id@.len() == 32
        },
{
    match check_deposit(&request) {
        Ok(()) => Ok(seal_deposit(sender_id, request, generate_message_id(), timestamp)),
        Err(error) => Err(error),
    }
}

/// What is to be done with a deposit.
pub enum DepositStep {
    /// Store it here.
    Store { envelope: EncryptedEnvelope },
    /// Forward it to the relay address of a peer node.
    Relay { relay_url: String, envelope: EncryptedEnvelope },
}

impl DepositStep {
    pub open spec fn is_relay(self) -> bool {
        self is Relay
    }

    /// The envelope that is stored or forwarded.
    pub open spec fn envelope(self) -> EncryptedEnvelope {
        match self {
            DepositStep::Store { envelope } => envelope,
            DepositStep::Relay { envelope, .. } => envelope,
        }
    }

    /// What a deposit is answered once it has been stored or forwarded, or
    /// once that has failed.
    pub fn response(self, outcome: Result<(), NodeError>) -> (r: Result<
        DepositMessageResponse,
        NodeError,
    >)
        ensures
            match (outcome, r) {
                (Ok(()), Ok(response)) => response.message_id@ == self.envelope()@.message_id
                    && response.relayed == self.is_relay(),
                (Err(given), Err(error)) => error == given,
                _ => false,
            },
            outcome is Ok ==> (r matches Ok(response) && match self {
                DepositStep::Store { envelope } => response.message_id@ == envelope.message_id@
                    && !response.relayed,
                DepositStep::Relay { envelope, .. } => response.message_id@ == envelope.message_id@
                    && response.relayed,
            }),
    {
        match outcome {
            Ok(()) => match self {
                DepositStep::Store { envelope } => Ok(
                    DepositMessageResponse { message_id: envelope.message_id, relayed: false },
                ),
                DepositStep::Relay { envelope, .. } => Ok(
                    DepositMessageResponse { message_id: envelope.message_id, relayed: true },
                ),
            },
            Err(error) => Err(error),
        }
    }
}

/// Decides what is to be done with a deposit: it is stored where its recipient
/// is at home here, and forwarded where they are at home on a peer node.
pub fn route_deposit(envelope: EncryptedEnvelope, location: Result<NodeLocation, NodeError>) -> (r:
    Result<DepositStep, NodeError>)
    ensures
        match location {
            Ok(NodeLocation::Local) => r == Ok::<DepositStep, NodeError>(
                DepositStep::Store { envelope },
            ),
            Ok(NodeLocation::Remote { relay_url, .. }) => r == Ok::<DepositStep, NodeError>(
                DepositStep::Relay { relay_url, envelope },
            ),
            Err(given) => r == Err::<DepositStep, NodeError>(given),
        },
{
    match location {
        Ok(NodeLocation::Local) => Ok(DepositStep::Store { envelope }),
        Ok(NodeLocation::Remote { relay_url, .. }) => Ok(
            DepositStep::Relay { relay_url, envelope },
        ),
        Err(error) => Err(error),
    }
}

/// What a node sends to a peer that it forwards a message to.
pub struct RelayCall {
    /// The value of the `X-Node-Id` header.
    pub node_id: String,
    /// The value of the `X-Node-Token` header.
    pub token: String,
    pub body: RelayMessageRequest,
}

/// What comes back from a peer.
pub enum PeerReply {
    /// Nothing came back, for the given reason.
    Unreachable { reason: String },
    /// An HTTP status, as a number and in words.
    Answered { status: u16, text: String },
}

/// Forwards a message under this node's name.
pub fn relay_call(config: &NodeConfig, envelope: EncryptedEnvelope) -> (r: RelayCall)
    ensures
        r.node_id@ == config.node_id@,
        r.token@ == config.outbound_node_token@,
        r.body.envelope == envelope,
        r.body.origin_node_id@ == config.node_id@,
{
    RelayCall {
        node_id: config.node_id.clone(),
        token: config.outbound_node_token.clone(),
        body: RelayMessageRequest { envelope, origin_node_id: config.node_id.clone() },
    }
}

/// Whether a peer has taken a message: only an answer with a status from 200
/// up to 299 says so.
pub fn relay_outcome(reply: &PeerReply) -> (r: Result<(), NodeError>)
    ensures
        match reply {
            PeerReply::Unreachable { reason } => r matches Err(error) && error@
                == NodeFailure::Relay("peer node unreachable: "@ + reason@),
            PeerReply::Answered { status, text } => if 200 <= *status < 300 {
                r is Ok
            } else {
                r matches Err(error) && error@ == NodeFailure::Relay(
                    "peer node rejected relay with status "@ + text@,
                )
            },
        },
{
    match reply {
        PeerReply::Unreachable { reason } => {
            let mut text: String = String::from_str("peer node unreachable: ");
            text.append(reason.as_str());
            Err(NodeError::Relay(text))
        },
        PeerReply::Answered { status, text } => {
            if 200 <= *status && *status < 300 {
                Ok(())
            } else {
                let mut problem: String = String::from_str("peer node rejected relay with status ");
                problem.append(text.as_str());
                Err(NodeError::Relay(problem))
            }
        },
    }
}

/// Decides on a message that a peer has forwarded: it is stored where its
/// recipient is at home here. It is never forwarded again.
pub fn route_relayed(request: RelayMessageRequest, location: Result<NodeLocation, NodeError>) -> (r:
    Result<EncryptedEnvelope, NodeError>)
    ensures
        match location {
            Ok(NodeLocation::Local) => r == Ok::<EncryptedEnvelope, NodeError>(request.envelope),
            Ok(NodeLocation::Remote { .. }) => r matches Err(error) && error@ == NodeFailure::Relay(
                "recipient is not homed on this node"@,
            ),
            Err(given) => r == Err::<EncryptedEnvelope, NodeError>(given),
        },
{
    match location {
        Ok(NodeLocation::Local) => Ok(request.envelope),
        Ok(NodeLocation::Remote { .. }) => Err(
            NodeError::Relay(String::from_str("recipient is not homed on this node")),
        ),
        Err(error) => Err(error),
    }
}

/// What a peer is answered once its message has been stored, or once that has
/// failed.
pub fn relayed_status(outcome: Result<(), NodeError>) -> (r: Result<u16, NodeError>)
    ensures
        r == match outcome {
            Ok(()) => Ok::<u16, NodeError>(ACCEPTED),
            Err(error) => Err::<u16, NodeError>(error),
        },
        r matches Ok(status) ==> status == 202,
{
    match outcome {
        Ok(()) => Ok(ACCEPTED),
        Err(error) => Err(error),
    }
}

/// What a client is answered with the messages that wait for it.
pub fn fetch_response(outcome: Result<Vec<EncryptedEnvelope>, NodeError>) -> (r: Result<
    FetchMessagesResponse,
    NodeError,
>)
    ensures
        r == match outcome {
            Ok(messages) => Ok::<FetchMessagesResponse, NodeError>(
                (FetchMessagesResponse { messages }),
            ),
            Err(error) => Err::<FetchMessagesResponse, NodeError>(error),
        },
{
    match outcome {
        Ok(messages) => Ok(FetchMessagesResponse { messages }),
        Err(error) => Err(error),
    }
}

/// What a client is answered once its messages have been cleared, or once that
/// has failed.
pub fn ack_status(outcome: Result<(), NodeError>) -> (r: Result<u16, NodeError>)
    ensures
        r == match outcome {
            Ok(()) => Ok::<u16, NodeError>(NO_CONTENT),
            Err(error) => Err::<u16, NodeError>(error),
        },
        r matches Ok(status) ==> status == 204,
{
    match outcome {
        Ok(()) => Ok(NO_CONTENT),
        Err(error) => Err(error),
    }
}

/// Bytes that were given for an id are ones that the random numbers of the
/// operating system have given.
pub(crate) proof fn law_given_id(bytes: Seq<u8>)
    requires
        id_given(bytes),
    ensures
        exists|given: [u8; 16]| #[trigger] call_ensures(random_id, (), given) && given@ == bytes,
{
}

} // verus!
