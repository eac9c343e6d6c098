use freesignal::node::handlers::{
    ack_status, begin_deposit, check_deposit, fetch_response, generate_message_id, relay_call,
    relay_outcome, relayed_status, route_deposit, route_relayed, seal_deposit, DepositStep,
    PeerReply, ACCEPTED, NO_CONTENT,
};
use freesignal::node::mock::{
    InMemoryMessageStore, StaticDirectory, StaticNodeAuthenticator, StaticTokenAuthenticator,
};
use freesignal::node::text::hex_encode;
use freesignal::node::{
    AuthenticatedClient, AuthenticatedNode, DepositMessageRequest, EncryptedEnvelope, NodeConfig,
    NodeError, NodeLocation, RelayMessageRequest,
};

struct Node {
    store: InMemoryMessageStore,
    clients: StaticTokenAuthenticator,
    nodes: StaticNodeAuthenticator,
    directory: StaticDirectory,
}

fn test_state() -> Node {
    let mut clients = StaticTokenAuthenticator::default();
    clients.insert("alice-token".to_string(), "alice".to_string());
    clients.insert("bob-token".to_string(), "bob".to_string());

    let mut directory = StaticDirectory::default();
    directory.insert_local("alice".to_string());
    directory.insert_local("bob".to_string());

    let mut nodes = StaticNodeAuthenticator::default();
    nodes.insert("node-b".to_string(), "peer-secret".to_string());

    Node {
        store: InMemoryMessageStore::default(),
        clients,
        nodes,
        directory,
    }
}

impl Node {
    fn client(&self, authorization: Option<&str>) -> Result<AuthenticatedClient, NodeError> {
        let token = AuthenticatedClient::credential(authorization)?;
        AuthenticatedClient::from_outcome(self.clients.authenticate(token))
    }

    fn node(&self, id: Option<&str>, token: Option<&str>) -> Result<AuthenticatedNode, NodeError> {
        let (id, token) = AuthenticatedNode::credentials(id, token)?;
        AuthenticatedNode::from_outcome(id.to_string(), self.nodes.verify(id, token))
    }

    fn deposit(
        &mut self,
        authorization: Option<&str>,
        request: DepositMessageRequest,
    ) -> Result<u16, NodeError> {
        let client = self.client(authorization)?;
        let envelope = begin_deposit(client.0, request, 0)?;
        let location = self.directory.locate(&envelope.recipient_id);
        let step = route_deposit(envelope, location)?;
        let outcome = match &step {
            DepositStep::Store { envelope } => self.store.save_message(envelope.clone()),
            DepositStep::Relay { .. } => Err(NodeError::Relay("no peers".to_string())),
        };
        step.response(outcome)?;
        Ok(200)
    }

    fn fetch(
        &self,
        authorization: Option<&str>,
        client_id: &str,
    ) -> Result<Vec<EncryptedEnvelope>, NodeError> {
        let client = self.client(authorization)?;
        client.authorize(client_id)?;
        Ok(fetch_response(self.store.fetch_messages(client_id))?.messages)
    }

    fn relay(
        &mut self,
        id: Option<&str>,
        token: Option<&str>,
        request: RelayMessageRequest,
    ) -> Result<u16, NodeError> {
        self.node(id, token)?;
        let location = self.directory.locate(&request.envelope.recipient_id);
        let envelope = route_relayed(request, location)?;
        relayed_status(self.store.save_message(envelope))
    }
}

fn status(result: Result<u16, NodeError>) -> u16 {
    match result {
        Ok(status) => status,
        Err(error) => error.status_code(),
    }
}

fn hello(recipient_id: &str) -> DepositMessageRequest {
    DepositMessageRequest {
        recipient_id: recipient_id.to_string(),
        header: "aGVsbG8=".to_string(),
        ciphertext: "aGVsbG8=".to_string(),
    }
}

fn envelope(message_id: &str, recipient_id: &str) -> EncryptedEnvelope {
    EncryptedEnvelope {
        message_id: message_id.to_string(),
        sender_id: "carol".to_string(),
        recipient_id: recipient_id.to_string(),
        header: "aGVsbG8=".to_string(),
        ciphertext: "aGVsbG8=".to_string(),
        timestamp: 0,
    }
}

#[test]
fn deposit_requires_authentication() {
    let mut node = test_state();
    assert_eq!(status(node.deposit(None, hello("bob"))), 401);
}

#[test]
fn deposit_then_fetch_round_trip() {
    let mut node = test_state();
    let deposit = node.deposit(Some("Bearer alice-token"), hello("bob"));
    assert_eq!(status(deposit), 200);

    let messages = node.fetch(Some("Bearer bob-token"), "bob").ok().unwrap();
    assert_eq!(messages.len(), 1);
    assert_eq!(messages[0].sender_id, "alice");
}

#[test]
fn fetch_rejects_mismatched_client() {
    let node = test_state();
    let error = node.fetch(Some("Bearer alice-token"), "bob").err().unwrap();
    assert_eq!(error.status_code(), 403);
}

#[test]
fn relay_requires_node_authentication() {
    let mut node = test_state();
    let request = RelayMessageRequest {
        envelope: envelope("id-1", "bob"),
        origin_node_id: "node-b".to_string(),
    };
    let relay = node.relay(Some("node-b"), Some("wrong-secret"), request);
    assert_eq!(status(relay), 401);
}

#[test]
fn relay_accepts_valid_node_and_stores_locally() {
    let mut node = test_state();
    let request = RelayMessageRequest {
        envelope: envelope("id-2", "bob"),
        origin_node_id: "node-b".to_string(),
    };
    let relay = node.relay(Some("node-b"), Some("peer-secret"), request);
    assert_eq!(status(relay), 202);
    assert_eq!(node.store.fetch_messages("bob").ok().unwrap().len(), 1);
}

#[test]
fn a_bearer_token_follows_the_word_and_a_space() {
    let token = |value| AuthenticatedClient::credential(value).ok();
    assert_eq!(token(Some("Bearer alice-token")), Some("alice-token"));
    assert_eq!(token(Some("Bearer ")), Some(""));
    assert_eq!(token(Some("Bearer  \u{e9}")), Some(" \u{e9}"));
    assert_eq!(token(Some("Bearer")), None);
    assert_eq!(token(Some("bearer alice-token")), None);
    assert_eq!(token(None), None);
}

#[test]
fn a_node_must_give_its_id_and_token() {
    let node = test_state();
    assert!(node.node(Some("node-b"), Some("peer-secret")).is_ok());
    assert!(node.node(Some("node-b"), None).is_err());
    assert!(node.node(None, Some("peer-secret")).is_err());
    assert!(node.node(Some("node-c"), Some("peer-secret")).is_err());
}

#[test]
fn an_unknown_token_is_unauthorized() {
    let node = test_state();
    let error = node.client(Some("Bearer carol-token")).err().unwrap();
    assert_eq!(error.status_code(), 401);
}

#[test]
fn a_deposit_is_checked_field_by_field() {
    let problem = |request: &DepositMessageRequest| check_deposit(request).unwrap_err().to_string();
    for blank in ["", "  ", "\t\n", "\u{a0}\u{2003}\u{3000}\u{85}"] {
        assert_eq!(
            problem(&hello(blank)),
            "invalid request: recipient_id is required"
        );
    }
    let mut request = hello("bob");
    request.header = "not base64".to_string();
    request.ciphertext = "aGVsbG8".to_string();
    assert_eq!(
        problem(&request),
        "invalid request: header must be valid base64"
    );
    request.header = "".to_string();
    assert_eq!(
        problem(&request),
        "invalid request: ciphertext must be valid base64"
    );
    request.ciphertext = "aGVsbG8=".to_string();
    assert!(check_deposit(&request).is_ok());
    request.recipient_id = " b ".to_string();
    assert!(check_deposit(&request).is_ok());
    request.recipient_id = "\u{200b}".to_string();
    assert!(check_deposit(&request).is_ok());
}

#[test]
fn white_space_is_what_the_standard_library_trims() {
    for code in 0..=0x10ffffu32 {
        if let Some(c) = char::from_u32(code) {
            let mut request = hello(&c.to_string());
            request.header = "".to_string();
            request.ciphertext = "".to_string();
            let is_blank = c.to_string().trim().is_empty();
            assert_eq!(check_deposit(&request).is_err(), is_blank, "{:x}", code);
        }
    }
}

#[test]
fn a_deposit_is_sealed_as_it_is() {
    let sealed = seal_deposit("alice".to_string(), hello("bob"), "id".to_string(), 17);
    assert_eq!(sealed.message_id, "id");
    assert_eq!(sealed.sender_id, "alice");
    assert_eq!(sealed.recipient_id, "bob");
    assert_eq!(sealed.header, "aGVsbG8=");
    assert_eq!(sealed.ciphertext, "aGVsbG8=");
    assert_eq!(sealed.timestamp, 17);
}

#[test]
fn message_ids_are_hexadecimal_and_fresh() {
    assert_eq!(hex_encode(&[0x00, 0x9f, 0xa0, 0xff, 0x5c]), "009fa0ff5c");
    assert_eq!(hex_encode(&[]), "");
    let id = generate_message_id();
    assert_eq!(id.len(), 32);
    assert!(id.chars().all(|c| c.is_ascii_hexdigit() && !c.is_ascii_uppercase()));
    assert_ne!(id, generate_message_id());
}

#[test]
fn a_deposit_for_a_remote_client_is_relayed() {
    let location = NodeLocation::Remote {
        node_id: "node-b".to_string(),
        relay_url: "http://b/relay".to_string(),
    };
    let step = route_deposit(envelope("id", "dave"), Ok(location)).ok().unwrap();
    match &step {
        DepositStep::Relay {
            relay_url,
            envelope,
        } => {
            assert_eq!(relay_url, "http://b/relay");
            assert_eq!(envelope.message_id, "id");
        }
        DepositStep::Store { .. } => panic!("stored"),
    }
    let response = step.response(Ok(())).ok().unwrap();
    assert_eq!(response.message_id, "id");
    assert!(response.relayed);
    let step = route_deposit(envelope("id", "bob"), Ok(NodeLocation::Local))
        .ok()
        .unwrap();
    assert!(!step.response(Ok(())).ok().unwrap().relayed);
    let failed = route_deposit(envelope("id", "eve"), Err(NodeError::UnknownRecipient));
    assert_eq!(failed.err().unwrap().status_code(), 404);
    let step = route_deposit(envelope("id", "bob"), Ok(NodeLocation::Local))
        .ok()
        .unwrap();
    let failed = step.response(Err(NodeError::Storage("full".to_string())));
    assert_eq!(failed.err().unwrap().to_string(), "storage error: full");
}

#[test]
fn a_relay_call_carries_the_name_of_this_node() {
    let config = NodeConfig {
        node_id: "node-a".to_string(),
        outbound_node_token: "peer-secret".to_string(),
    };
    let call = relay_call(&config, envelope("id", "dave"));
    assert_eq!(call.node_id, "node-a");
    assert_eq!(call.token, "peer-secret");
    assert_eq!(call.body.origin_node_id, "node-a");
    assert_eq!(call.body.envelope.message_id, "id");
}

#[test]
fn only_a_successful_status_takes_a_relayed_message() {
    let outcome = |status: u16| {
        relay_outcome(&PeerReply::Answered {
            status,
            text: format!("{} Text", status),
        })
    };
    assert!(outcome(200).is_ok());
    assert!(outcome(202).is_ok());
    assert!(outcome(299).is_ok());
    for status in [199, 300, 404] {
        assert_eq!(
            outcome(status).err().unwrap().to_string(),
            format!("relay error: peer node rejected relay with status {} Text", status)
        );
    }
    let silent = relay_outcome(&PeerReply::Unreachable {
        reason: "refused".to_string(),
    });
    assert_eq!(
        silent.err().unwrap().to_string(),
        "relay error: peer node unreachable: refused"
    );
}

#[test]
fn a_relayed_message_is_never_forwarded_again() {
    let mut node = test_state();
    node.directory.insert_remote(
        "dave".to_string(),
        "node-b".to_string(),
        "http://b/relay".to_string(),
    );
    let request = RelayMessageRequest {
        envelope: envelope("id", "dave"),
        origin_node_id: "node-b".to_string(),
    };
    let error = node
        .relay(Some("node-b"), Some("peer-secret"), request)
        .err()
        .unwrap();
    assert_eq!(error.status_code(), 502);
    assert_eq!(
        error.to_string(),
        "relay error: recipient is not homed on this node"
    );
}

#[test]
fn a_client_is_located_here_first() {
    let mut directory = StaticDirectory::default();
    directory.insert_remote("bob".to_string(), "node-b".to_string(), "url".to_string());
    match directory.locate("bob") {
        Ok(NodeLocation::Remote { node_id, relay_url }) => {
            assert_eq!((node_id.as_str(), relay_url.as_str()), ("node-b", "url"));
        }
        _ => panic!("not remote"),
    }
    directory.insert_local("bob".to_string());
    assert!(matches!(directory.locate("bob"), Ok(NodeLocation::Local)));
    assert!(matches!(
        directory.locate("eve"),
        Err(NodeError::UnknownRecipient)
    ));
}

#[test]
fn acknowledging_removes_exactly_the_acknowledged_messages() {
    let mut store = InMemoryMessageStore::default();
    for (id, recipient) in [("1", "bob"), ("2", "alice"), ("3", "bob"), ("1", "alice")] {
        store.save_message(envelope(id, recipient)).ok().unwrap();
    }
    let ids = |store: &InMemoryMessageStore, recipient: &str| -> Vec<String> {
        let messages = store.fetch_messages(recipient).ok().unwrap();
        messages.into_iter().map(|m| m.message_id).collect()
    };
    assert_eq!(ids(&store, "bob"), ["1", "3"]);
    let outcome = store.ack_messages("bob", &["1".to_string(), "2".to_string()]);
    assert_eq!(status(ack_status(outcome)), 204);
    assert_eq!(ids(&store, "bob"), ["3"]);
    assert_eq!(ids(&store, "alice"), ["2", "1"]);
    assert!(store.ack_messages("eve", &["3".to_string()]).is_ok());
    assert_eq!(ids(&store, "bob"), ["3"]);
}

#[test]
fn every_node_error_has_its_words_and_status() {
    let text = || "why".to_string();
    let errors = [
        (NodeError::Unauthorized, "missing or invalid credentials", 401),
        (
            NodeError::Forbidden,
            "not permitted to access this resource",
            403,
        ),
        (NodeError::NotFound, "resource not found", 404),
        (
            NodeError::UnknownRecipient,
            "recipient is not known to this network",
            404,
        ),
        (
            NodeError::InvalidRequest(text()),
            "invalid request: why",
            400,
        ),
        (NodeError::Storage(text()), "storage error: why", 500),
        (NodeError::Relay(text()), "relay error: why", 502),
    ];
    for (error, words, code) in errors {
        assert_eq!(error.to_string(), words);
        assert_eq!(error.clone().to_string(), words);
        assert_eq!(error.status_code(), code);
    }
    assert_eq!((ACCEPTED, NO_CONTENT), (202, 204));
}
