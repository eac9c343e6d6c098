//! Who a request comes from.
use super::error::{NodeError, NodeFailure};
use super::text::strip_prefix;
use super::types::{AuthenticatedClient, AuthenticatedNode};
use crate::primitives::equal_bytes;
use vstd::prelude::*;

verus! {

/// The token in the value of an `Authorization` header: what follows the word
/// `Bearer` and a space.
pub open spec fn bearer_token(authorization: Option<Seq<char>>) -> Option<Seq<char>> {
    match authorization {
        Some(value) => if "Bearer "@.is_prefix_of(value) {
            Some(value.subrange("Bearer "@.len() as int, value.len() as int))
        } else {
            None
        },
        None => None,
    }
}

/// The view of an optional text.
pub open spec fn seen_text(text: Option<&str>) -> Option<Seq<char>> {
    match text {
        Some(t) => Some(t@),
        None => None,
    }
}

impl AuthenticatedClient {
    /// The token that a client is to be authenticated by, from the value of
    /// the `Authorization` header. It is missing where the header is, or where
    /// its value is not text.
    pub fn credential<'a>(authorization: Option<&'a str>) -> (r: Result<&'a str, NodeError>)
        ensures
            match r {
                Ok(token) => bearer_token(seen_text(authorization)) == Some(token@),
                Err(error) => bearer_token(seen_text(authorization)) is None && error@
                    == NodeFailure::Unauthorized,
            },
            r matches Ok(token) ==> (authorization matches Some(value) && value@ == "Bearer "@
                + token@),
            authorization is None ==> r is Err,
            authorization matches Some(value) && "Bearer "@.is_prefix_of(value@) ==> r is Ok,
    {
        match authorization {
            Some(value) => match strip_prefix(value, "Bearer ") {
                Some(token) => {
                    assert(value@.subrange(0, "Bearer "@.len() as int) =~= "Bearer "@);
                    assert(value@.subrange("Bearer "@.len() as int, value@.len() as int)
                        =~= token@);
                    Ok(token)
                },
                None => Err(NodeError::Unauthorized),
            },
            None => Err(NodeError::Unauthorized),
        }
    }

    /// The client that the authenticator has made out.
    pub fn from_outcome(outcome: Result<String, NodeError>) -> (r: Result<Self, NodeError>)
        ensures
            match (outcome, r) {
                (Ok(client_id), Ok(client)) => client.0 == client_id,
                (Err(given), Err(error)) => error == given,
                _ => false,
            },
    {
        match outcome {
            Ok(client_id) => Ok(AuthenticatedClient(client_id)),
            Err(error) => Err(error),
        }
    }

    /// A client may only touch what is its own.
    pub fn authorize(&self, client_id: &str) -> (r: Result<(), NodeError>)
        ensures
            match r {
                Ok(()) => self.0@ == client_id@,
                Err(error) => self.0@ != client_id@ && error@ == NodeFailure::Forbidden,
            },
    {
        proof {
            vstd::utf8::encode_utf8_decode_utf8(self.0@);
            vstd::utf8::encode_utf8_decode_utf8(client_id@);
        }
        if equal_bytes(self.0.as_str().as_bytes(), client_id.as_bytes()) {
            Ok(())
        } else {
            Err(NodeError::Forbidden)
        }
    }
}

impl AuthenticatedNode {
    /// The id and the token that a node is to be authenticated by, from the
    /// values of the `X-Node-Id` and `X-Node-Token` headers. Each is missing
    /// where the header is, or where its value is not text.
    pub fn credentials<'a>(node_id: Option<&'a str>, token: Option<&'a str>) -> (r: Result<
        (&'a str, &'a str),
        NodeError,
    >)
        ensures
            match r {
                Ok(credentials) => node_id == Some(credentials.0) && token == Some(credentials.1),
                Err(error) => (node_id is None || token is None) && error@
                    == NodeFailure::Unauthorized,
            },
    {
        match (node_id, token) {
            (Some(node_id), Some(token)) => Ok((node_id, token)),
            _ => Err(NodeError::Unauthorized),
        }
    }

    /// The node, once the authenticator has accepted its token.
    pub fn from_outcome(node_id: String, outcome: Result<(), NodeError>) -> (r: Result<
        Self,
        NodeError,
    >)
        ensures
            match (outcome, r) {
                (Ok(()), Ok(node)) => node.0 == node_id,
                (Err(given), Err(error)) => error == given,
                _ => false,
            },
    {
        match outcome {
            Ok(()) => Ok(AuthenticatedNode(node_id)),
            Err(error) => Err(error),
        }
    }
}

} // verus!
