//! What the functions of a node come to when they are called, and how one call
//! bears on the next.
use super::error::{NodeError, NodeFailure};
use super::handlers::{
    ack_status, begin_deposit, check_deposit, fetch_response, generate_message_id, id_given,
    relay_call, relay_outcome, relayed_status, route_deposit, route_relayed, seal_deposit,
    DepositStep, PeerReply, RelayCall,
};
use super::laws::{law_bearer_token, law_list_views, law_unacknowledged_messages_stay};
use super::mock::{
    envelopes, law_acknowledged_messages_are_gone, law_saved_message_is_fetched, texts,
    InMemoryMessageStore, StaticDirectory, StaticNodeAuthenticator, StaticTokenAuthenticator,
};
use super::text::{blank, hex_encode, hex_encoded};
use super::types::{
    AuthenticatedClient, AuthenticatedNode, DepositMessageRequest, DepositMessageResponse,
    EncryptedEnvelope, Envelope, FetchMessagesResponse, NodeConfig, NodeLocation,
    RelayMessageRequest,
};
use crate::primitives::base64_decoded;
use vstd::prelude::*;

verus! {

/// A deposit is put into an envelope field by field.
pub proof fn law_sealing(
    sender_id: String,
    request: DepositMessageRequest,
    message_id: String,
    timestamp: u64,
    envelope: EncryptedEnvelope,
)
    requires
        call_ensures(seal_deposit, (sender_id, request, message_id, timestamp), envelope),
    ensures
        envelope.message_id@ == message_id@,
        envelope.sender_id@ == sender_id@,
        envelope.recipient_id@ == request.recipient_id@,
        envelope.header@ == request.header@,
        envelope.ciphertext@ == request.ciphertext@,
        envelope.timestamp == timestamp,
{
}

/// A deposit is checked and put into an envelope, with a fresh id of 32
/// hexadecimal digits, exactly where nothing is wrong with it.
pub proof fn law_beginning_a_deposit(
    sender_id: String,
    request: DepositMessageRequest,
    timestamp: u64,
    checked: Result<(), NodeError>,
    begun: Result<EncryptedEnvelope, NodeError>,
)
    requires
        call_ensures(check_deposit, (&request,), checked),
        call_ensures(begin_deposit, (sender_id, request, timestamp), begun),
    ensures
        begun is Ok <==> checked is Ok,
        begun is Ok <==> !blank(request.recipient_id@) && base64_decoded(request.header@) is Some
            && base64_decoded(request.ciphertext@) is Some,
        begun matches Err(error) ==> (checked matches Err(other) && other@ == error@ && error@ is
            InvalidRequest),
        begun matches Ok(envelope) ==> {
            &&& envelope.sender_id@ == sender_id@
            &&& envelope.recipient_id@ == request.recipient_id@
            &&& envelope.header@ == request.header@
            &&& envelope.ciphertext@ == request.ciphertext@
            &&& envelope.timestamp == timestamp
            &&& exists|bytes: Seq<u8>|
                bytes.len() == 16 && id_given(bytes) && envelope.message_id@
                    == #[trigger] hex_encoded(bytes)
        },
{
    if let Ok(envelope) = begun {
        let bytes = choose|bytes: Seq<u8>|
            bytes.len() == 16 && id_given(bytes) && envelope@ == super::handlers::deposited(
                sender_id@,
                request,
                #[trigger] hex_encoded(bytes),
                timestamp,
            );
        assert(envelope.message_id@ == hex_encoded(bytes));
    }
}

/// What is wrong with a deposit is told: first of its recipient, then of its
/// header, then of its ciphertext.
pub proof fn law_checking_a_deposit(request: &DepositMessageRequest, r: Result<(), NodeError>)
    requires
        call_ensures(check_deposit, (request,), r),
    ensures
        ({
            let recipient = !blank(request.recipient_id@);
            let header = base64_decoded(request.header@) is Some;
            let ciphertext = base64_decoded(request.ciphertext@) is Some;
            &&& r is Ok <==> recipient && header && ciphertext
            &&& !recipient ==> r.unwrap_err()@ == NodeFailure::InvalidRequest(
                "recipient_id is required"@,
            )
            &&& recipient && !header ==> r.unwrap_err()@ == NodeFailure::InvalidRequest(
                "header must be valid base64"@,
            )
            &&& recipient && header && !ciphertext ==> r.unwrap_err()@
                == NodeFailure::InvalidRequest("ciphertext must be valid base64"@)
        }),
{
}

/// A deposit for a client at home here is put into an envelope, stored, answered
/// as not relayed, and fetched by its recipient as the last of their messages,
/// with what its sender handed in.
pub proof fn law_deposit_reaches_its_recipient(
    sender_id: String,
    request: DepositMessageRequest,
    message_id: String,
    timestamp: u64,
    envelope: EncryptedEnvelope,
    step: Result<DepositStep, NodeError>,
    store: &mut InMemoryMessageStore,
    saved: Result<(), NodeError>,
    response: Result<DepositMessageResponse, NodeError>,
    after: &InMemoryMessageStore,
    recipient_id: &str,
    fetched: Result<Vec<EncryptedEnvelope>, NodeError>,
)
    requires
        call_ensures(seal_deposit, (sender_id, request, message_id, timestamp), envelope),
        call_ensures(route_deposit, (envelope, Ok(NodeLocation::Local)), step),
        step matches Ok(DepositStep::Store { envelope: kept }) ==> call_ensures(
            InMemoryMessageStore::save_message,
            (store, kept),
            saved,
        ),
        step is Ok ==> call_ensures(DepositStep::response, (step.unwrap(), saved), response),
        *after == *final(store),
        recipient_id@ == request.recipient_id@,
        call_ensures(InMemoryMessageStore::fetch_messages, (after, recipient_id), fetched),
    ensures
        step == Ok::<DepositStep, NodeError>(DepositStep::Store { envelope }),
        saved is Ok,
        response matches Ok(answer) && answer.message_id@ == message_id@ && !answer.relayed,
        fetched matches Ok(messages) && messages@.len() > 0 && {
            let last = messages@.last();
            &&& last.message_id@ == message_id@
            &&& last.sender_id@ == sender_id@
            &&& last.recipient_id@ == request.recipient_id@
            &&& last.header@ == request.header@
            &&& last.ciphertext@ == request.ciphertext@
            &&& last.timestamp == timestamp
        },
{
    law_saved_message_is_fetched(old(store)@, envelope@, sender_id@);
    let messages = fetched.unwrap();
    law_list_views(messages@, Seq::empty());
    assert(envelopes(messages@).last() == envelope@);
    assert(envelopes(messages@)[messages@.len() - 1] == messages@[messages@.len() - 1]@);
}

/// Saving a message hands it to its recipient and changes nothing for anyone
/// else.
pub proof fn law_saving_and_fetching(
    store: &mut InMemoryMessageStore,
    envelope: EncryptedEnvelope,
    saved: Result<(), NodeError>,
    before: &InMemoryMessageStore,
    after: &InMemoryMessageStore,
    client_id: &str,
    earlier: Result<Vec<EncryptedEnvelope>, NodeError>,
    later: Result<Vec<EncryptedEnvelope>, NodeError>,
)
    requires
        call_ensures(InMemoryMessageStore::save_message, (store, envelope), saved),
        *before == *old(store),
        *after == *final(store),
        call_ensures(InMemoryMessageStore::fetch_messages, (before, client_id), earlier),
        call_ensures(InMemoryMessageStore::fetch_messages, (after, client_id), later),
    ensures
        saved is Ok,
        earlier is Ok,
        later is Ok,
        client_id@ == envelope.recipient_id@ ==> envelopes(later.unwrap()@) == envelopes(
            earlier.unwrap()@,
        ).push(envelope@),
        client_id@ != envelope.recipient_id@ ==> envelopes(later.unwrap()@) == envelopes(
            earlier.unwrap()@,
        ),
{
    law_saved_message_is_fetched(old(store)@, envelope@, client_id@);
}

/// After messages have been acknowledged, the recipient fetches what they fetched
/// before, in the same order, without the messages whose ids they have
/// acknowledged. Whoever else fetches, fetches what they did before.
pub proof fn law_acknowledging_and_fetching(
    store: &mut InMemoryMessageStore,
    recipient_id: &str,
    message_ids: &[String],
    acknowledged: Result<(), NodeError>,
    before: &InMemoryMessageStore,
    after: &InMemoryMessageStore,
    client_id: &str,
    earlier: Result<Vec<EncryptedEnvelope>, NodeError>,
    later: Result<Vec<EncryptedEnvelope>, NodeError>,
)
    requires
        call_ensures(
            InMemoryMessageStore::ack_messages,
            (store, recipient_id, message_ids),
            acknowledged,
        ),
        *before == *old(store),
        *after == *final(store),
        call_ensures(InMemoryMessageStore::fetch_messages, (before, client_id), earlier),
        call_ensures(InMemoryMessageStore::fetch_messages, (after, client_id), later),
    ensures
        acknowledged is Ok,
        earlier is Ok,
        later is Ok,
        client_id@ == recipient_id@ ==> envelopes(later.unwrap()@) == envelopes(
            earlier.unwrap()@,
        ).filter(|envelope: Envelope| !texts(message_ids@).contains(envelope.message_id)),
        client_id@ != recipient_id@ ==> envelopes(later.unwrap()@) == envelopes(
            earlier.unwrap()@,
        ),
{
    let ids = texts(message_ids@);
    law_unacknowledged_messages_stay(old(store)@, recipient_id@, ids);
    law_acknowledged_messages_are_gone(old(store)@, recipient_id@, ids, client_id@);
}

/// A new store hands out nothing.
pub proof fn law_new_store_is_empty(
    store: &InMemoryMessageStore,
    client_id: &str,
    fetched: Result<Vec<EncryptedEnvelope>, NodeError>,
)
    requires
        call_ensures(<InMemoryMessageStore as Default>::default, (), *store),
        call_ensures(InMemoryMessageStore::fetch_messages, (store, client_id), fetched),
    ensures
        fetched matches Ok(messages) && messages@.len() == 0,
{
    law_list_views(fetched.unwrap()@, Seq::empty());
}

/// A deposit is stored where its recipient is at home here, is forwarded to the
/// address of the node where they are at home otherwise, and is told back as
/// such. Where nobody knows them, it fails with that.
pub proof fn law_routing_a_deposit(
    envelope: EncryptedEnvelope,
    location: Result<NodeLocation, NodeError>,
    step: Result<DepositStep, NodeError>,
    outcome: Result<(), NodeError>,
    response: Result<DepositMessageResponse, NodeError>,
)
    requires
        call_ensures(route_deposit, (envelope, location), step),
        step is Ok ==> call_ensures(DepositStep::response, (step.unwrap(), outcome), response),
    ensures
        location matches Err(error) ==> step == Err::<DepositStep, NodeError>(error),
        location matches Ok(NodeLocation::Local) ==> step == Ok::<DepositStep, NodeError>(
            DepositStep::Store { envelope },
        ),
        location matches Ok(NodeLocation::Remote { node_id, relay_url }) ==> step == Ok::<
            DepositStep,
            NodeError,
        >(DepositStep::Relay { relay_url, envelope }),
        location is Ok ==> (outcome matches Err(error) ==> response == Err::<
            DepositMessageResponse,
            NodeError,
        >(error)),
        location is Ok && outcome is Ok ==> (response matches Ok(answer) && answer.message_id@
            == envelope.message_id@ && answer.relayed == (location.unwrap() is Remote)),
{
}

/// A message that a peer has forwarded is stored where its recipient is at home
/// here, and is forwarded to no other node.
pub proof fn law_routing_a_relayed_message(
    request: RelayMessageRequest,
    location: Result<NodeLocation, NodeError>,
    routed: Result<EncryptedEnvelope, NodeError>,
    outcome: Result<(), NodeError>,
    status: Result<u16, NodeError>,
)
    requires
        call_ensures(route_relayed, (request, location), routed),
        call_ensures(relayed_status, (outcome,), status),
    ensures
        routed is Ok <==> (location matches Ok(place) && place is Local),
        routed matches Ok(envelope) ==> envelope == request.envelope,
        location matches Err(error) ==> routed == Err::<EncryptedEnvelope, NodeError>(error),
        location matches Ok(NodeLocation::Remote { node_id, relay_url })
            ==> routed.unwrap_err()@ == NodeFailure::Relay(
            "recipient is not homed on this node"@,
        ),
        outcome is Ok ==> status == Ok::<u16, NodeError>(202),
        outcome matches Err(error) ==> status == Err::<u16, NodeError>(error),
{
}

/// A message is forwarded as it is, under this node's name and token, and only
/// an answer with a status from 200 up to 299 tells that it was taken.
pub proof fn law_relaying(
    config: &NodeConfig,
    envelope: EncryptedEnvelope,
    call: RelayCall,
    reply: &PeerReply,
    outcome: Result<(), NodeError>,
)
    requires
        call_ensures(relay_call, (config, envelope), call),
        call_ensures(relay_outcome, (reply,), outcome),
    ensures
        call.node_id@ == config.node_id@,
        call.token@ == config.outbound_node_token@,
        call.body.envelope == envelope,
        call.body.origin_node_id@ == config.node_id@,
        outcome is Ok <==> (*reply matches PeerReply::Answered { status, .. } && 200 <= status
            && status <= 299),
        *reply matches PeerReply::Unreachable { reason } ==> outcome.unwrap_err()@
            == NodeFailure::Relay("peer node unreachable: "@ + reason@),
        *reply matches PeerReply::Answered { status, text } ==> (outcome matches Err(error)
            ==> error@ == NodeFailure::Relay("peer node rejected relay with status "@ + text@)),
{
}

/// A client is answered with the messages that were fetched for it, with the
/// status 204 once its messages have been cleared, and with the error where
/// either has failed.
pub proof fn law_answering_a_client(
    fetched: Result<Vec<EncryptedEnvelope>, NodeError>,
    response: Result<FetchMessagesResponse, NodeError>,
    cleared: Result<(), NodeError>,
    status: Result<u16, NodeError>,
)
    requires
        call_ensures(fetch_response, (fetched,), response),
        call_ensures(ack_status, (cleared,), status),
    ensures
        fetched matches Ok(messages) ==> (response matches Ok(answer) && answer.messages
            == messages),
        fetched matches Err(error) ==> response == Err::<FetchMessagesResponse, NodeError>(error),
        cleared is Ok ==> status == Ok::<u16, NodeError>(204),
        cleared matches Err(error) ==> status == Err::<u16, NodeError>(error),
{
}

/// A token stands for the client that it was inserted for last, and other tokens
/// for whom they did before.
pub proof fn law_inserting_a_token(
    tokens: &mut StaticTokenAuthenticator,
    token: String,
    client_id: String,
    before: &StaticTokenAuthenticator,
    after: &StaticTokenAuthenticator,
    credential: &str,
    earlier: Result<String, NodeError>,
    later: Result<String, NodeError>,
)
    requires
        call_ensures(StaticTokenAuthenticator::insert, (tokens, token, client_id), ()),
        *before == *old(tokens),
        *after == *final(tokens),
        call_ensures(StaticTokenAuthenticator::authenticate, (before, credential), earlier),
        call_ensures(StaticTokenAuthenticator::authenticate, (after, credential), later),
    ensures
        credential@ == token@ ==> (later matches Ok(client) && client@ == client_id@),
        credential@ != token@ ==> (earlier is Ok <==> later is Ok),
        credential@ != token@ ==> (earlier matches Ok(client) ==> later.unwrap()@ == client@),
        later matches Err(error) ==> error@ is Unauthorized,
{
}

/// Without tokens, nobody is let in.
pub proof fn law_no_tokens(
    tokens: &StaticTokenAuthenticator,
    credential: &str,
    r: Result<String, NodeError>,
)
    requires
        call_ensures(<StaticTokenAuthenticator as Default>::default, (), *tokens),
        call_ensures(StaticTokenAuthenticator::authenticate, (tokens, credential), r),
    ensures
        r matches Err(error) && error@ is Unauthorized,
{
}

/// A node is let in with the secret that was inserted for it last, and with no
/// other; other nodes are let in with what they were before.
pub proof fn law_inserting_a_secret(
    secrets: &mut StaticNodeAuthenticator,
    node_id: String,
    secret: String,
    before: &StaticNodeAuthenticator,
    after: &StaticNodeAuthenticator,
    name: &str,
    token: &str,
    earlier: Result<(), NodeError>,
    later: Result<(), NodeError>,
)
    requires
        call_ensures(StaticNodeAuthenticator::insert, (secrets, node_id, secret), ()),
        *before == *old(secrets),
        *after == *final(secrets),
        call_ensures(StaticNodeAuthenticator::verify, (before, name, token), earlier),
        call_ensures(StaticNodeAuthenticator::verify, (after, name, token), later),
    ensures
        name@ == node_id@ ==> (later is Ok <==> token@ == secret@),
        name@ != node_id@ ==> (later is Ok <==> earlier is Ok),
        later matches Err(error) ==> error@ is Unauthorized,
{
}

/// Without secrets, no node is let in.
pub proof fn law_no_secrets(
    secrets: &StaticNodeAuthenticator,
    name: &str,
    token: &str,
    r: Result<(), NodeError>,
)
    requires
        call_ensures(<StaticNodeAuthenticator as Default>::default, (), *secrets),
        call_ensures(StaticNodeAuthenticator::verify, (secrets, name, token), r),
    ensures
        r matches Err(error) && error@ is Unauthorized,
{
}

/// A client that has been made at home here is found here, and the others where
/// they were before.
pub proof fn law_making_a_client_local(
    directory: &mut StaticDirectory,
    client_id: String,
    before: &StaticDirectory,
    after: &StaticDirectory,
    name: &str,
    earlier: Result<NodeLocation, NodeError>,
    later: Result<NodeLocation, NodeError>,
)
    requires
        call_ensures(StaticDirectory::insert_local, (directory, client_id), ()),
        *before == *old(directory),
        *after == *final(directory),
        call_ensures(StaticDirectory::locate, (before, name), earlier),
        call_ensures(StaticDirectory::locate, (after, name), later),
    ensures
        name@ == client_id@ ==> (later matches Ok(place) && place is Local),
        name@ != client_id@ ==> same_place(earlier, later),
{
}

/// Whether two answers name the same place, or both none.
pub open spec fn same_place(
    a: Result<NodeLocation, NodeError>,
    b: Result<NodeLocation, NodeError>,
) -> bool {
    match (a, b) {
        (Ok(NodeLocation::Local), Ok(NodeLocation::Local)) => true,
        (
            Ok(NodeLocation::Remote { node_id, relay_url }),
            Ok(NodeLocation::Remote { node_id: other_id, relay_url: other_url }),
        ) => node_id@ == other_id@ && relay_url@ == other_url@,
        (Err(error), Err(other)) => error@ == other@,
        _ => false,
    }
}

/// A client that has been made at home on a peer node is found there, unless it
/// is at home here, and the others where they were before.
pub proof fn law_making_a_client_remote(
    directory: &mut StaticDirectory,
    client_id: String,
    node_id: String,
    relay_url: String,
    before: &StaticDirectory,
    after: &StaticDirectory,
    name: &str,
    earlier: Result<NodeLocation, NodeError>,
    later: Result<NodeLocation, NodeError>,
)
    requires
        call_ensures(
            StaticDirectory::insert_remote,
            (directory, client_id, node_id, relay_url),
            (),
        ),
        *before == *old(directory),
        *after == *final(directory),
        call_ensures(StaticDirectory::locate, (before, name), earlier),
        call_ensures(StaticDirectory::locate, (after, name), later),
    ensures
        earlier matches Ok(place) && place is Local ==> same_place(earlier, later),
        name@ == client_id@ && !(earlier matches Ok(place) && place is Local) ==> (later matches Ok(
            NodeLocation::Remote { node_id: there, relay_url: address },
        ) && there@ == node_id@ && address@ == relay_url@),
        name@ != client_id@ ==> same_place(earlier, later),
{
}

/// An empty directory knows nobody.
pub proof fn law_empty_directory(
    directory: &StaticDirectory,
    name: &str,
    r: Result<NodeLocation, NodeError>,
)
    requires
        call_ensures(<StaticDirectory as Default>::default, (), *directory),
        call_ensures(StaticDirectory::locate, (directory, name), r),
    ensures
        r matches Err(error) && error@ is UnknownRecipient,
{
}

/// A client proves itself with what follows `Bearer` and a space, and is turned
/// away without it.
pub proof fn law_credential_of_a_client<'a>(
    authorization: Option<&'a str>,
    token: Seq<char>,
    r: Result<&'a str, NodeError>,
)
    requires
        call_ensures(AuthenticatedClient::credential, (authorization,), r),
    ensures
        authorization is None ==> r is Err,
        authorization matches Some(value) && value@ == "Bearer "@ + token ==> (r matches Ok(given)
            && given@ == token),
        r matches Ok(given) ==> (authorization matches Some(value) && value@ == "Bearer "@
            + given@),
        r matches Err(error) ==> error@ is Unauthorized,
{
    if let Some(value) = authorization {
        law_bearer_token(token, value@);
    }
}

/// A node proves itself with both its name and its token.
pub proof fn law_credentials_of_a_node<'a>(
    node_id: Option<&'a str>,
    token: Option<&'a str>,
    r: Result<(&'a str, &'a str), NodeError>,
)
    requires
        call_ensures(AuthenticatedNode::credentials, (node_id, token), r),
    ensures
        r is Ok <==> node_id is Some && token is Some,
        r matches Ok(given) ==> given.0 == node_id.unwrap() && given.1 == token.unwrap(),
        r matches Err(error) ==> error@ is Unauthorized,
{
}

/// A client that has been made out may touch what is its own, and nothing else.
pub proof fn law_client_touches_its_own(
    outcome: Result<String, NodeError>,
    client: Result<AuthenticatedClient, NodeError>,
    client_id: &str,
    r: Result<(), NodeError>,
)
    requires
        call_ensures(AuthenticatedClient::from_outcome, (outcome,), client),
        client is Ok ==> call_ensures(
            AuthenticatedClient::authorize,
            (&client.unwrap(), client_id),
            r,
        ),
    ensures
        outcome matches Err(error) ==> client == Err::<AuthenticatedClient, NodeError>(error),
        outcome matches Ok(name) ==> (client matches Ok(known) && known.0 == name),
        outcome matches Ok(name) ==> (r is Ok <==> name@ == client_id@),
        outcome is Ok && r is Err ==> r.unwrap_err()@ is Forbidden,
{
}

/// A node is known by its name once its token has been accepted.
pub proof fn law_node_is_known(
    node_id: String,
    outcome: Result<(), NodeError>,
    r: Result<AuthenticatedNode, NodeError>,
)
    requires
        call_ensures(AuthenticatedNode::from_outcome, (node_id, outcome), r),
    ensures
        outcome is Ok ==> (r matches Ok(node) && node.0 == node_id),
        outcome matches Err(error) ==> r == Err::<AuthenticatedNode, NodeError>(error),
{
}

/// The HTTP status that an error is answered with.
pub proof fn law_status_of_an_error(error: &NodeError, status: u16)
    requires
        call_ensures(NodeError::status_code, (error,), status),
    ensures
        *error is Unauthorized <==> status == 401,
        *error is Forbidden <==> status == 403,
        *error is NotFound || *error is UnknownRecipient <==> status == 404,
        *error is InvalidRequest <==> status == 400,
        *error is Storage <==> status == 500,
        *error is Relay <==> status == 502,
{
}

/// Hexadecimal text holds two lower-case digits for each byte, the upper half of
/// the byte first.
pub proof fn law_hexadecimal_text(bytes: &[u8], text: String)
    requires
        call_ensures(hex_encode, (bytes,), text),
    ensures
        text@.len() == 2 * bytes@.len(),
        forall|i: int|
            0 <= i < bytes@.len() ==> {
                &&& #[trigger] text@[2 * i] == "0123456789abcdef"@[bytes@[i] as int / 16]
                &&& text@[2 * i + 1] == "0123456789abcdef"@[bytes@[i] as int % 16]
            },
{
    super::laws::law_hexadecimal(bytes@);
}

/// An error in words tells what went wrong, and the text that it was made with.
pub proof fn law_words_of_an_error(error: &NodeError, words: String)
    requires
        call_ensures(NodeError::to_string, (error,), words),
    ensures
        words@ == match *error {
            NodeError::Unauthorized => "missing or invalid credentials"@,
            NodeError::Forbidden => "not permitted to access this resource"@,
            NodeError::NotFound => "resource not found"@,
            NodeError::UnknownRecipient => "recipient is not known to this network"@,
            NodeError::InvalidRequest(text) => "invalid request: "@ + text@,
            NodeError::Storage(text) => "storage error: "@ + text@,
            NodeError::Relay(text) => "relay error: "@ + text@,
        },
{
}

/// A message id is 16 bytes of the random numbers of the operating system, in
/// hexadecimal digits.
pub proof fn law_message_id(id: String)
    requires
        call_ensures(generate_message_id, (), id),
    ensures
        id@.len() == 32,
        exists|bytes: Seq<u8>|
            bytes.len() == 16 && id_given(bytes) && id@ == #[trigger] hex_encoded(bytes),
{
}

} // verus!
