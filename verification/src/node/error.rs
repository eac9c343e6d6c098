//! What can go wrong in a node, in words and as an HTTP status.
use vstd::prelude::*;
use vstd::string::StringExecFns;

verus! {

#[derive(Debug)]
pub enum NodeError {
    /// Missing, malformed, or invalid credential.
    Unauthorized,
    /// Credential valid, but does not grant access to the requested resource.
    Forbidden,
    /// The requested resource does not exist.
    NotFound,
    /// The recipient is not known to this node or its directory.
    UnknownRecipient,
    /// The request body failed validation.
    InvalidRequest(String),
    /// The persistence layer failed.
    Storage(String),
    /// Relaying to a peer node failed.
    Relay(String),
}

/// A [`NodeError`] whose text is a sequence of characters.
pub enum NodeFailure {
    Unauthorized,
    Forbidden,
    NotFound,
    UnknownRecipient,
    InvalidRequest(Seq<char>),
    Storage(Seq<char>),
    Relay(Seq<char>),
}

impl View for NodeError {
    type V = NodeFailure;

    open spec fn view(&self) -> NodeFailure {
        match self {
            Self::Unauthorized => NodeFailure::Unauthorized,
            Self::Forbidden => NodeFailure::Forbidden,
            Self::NotFound => NodeFailure::NotFound,
            Self::UnknownRecipient => NodeFailure::UnknownRecipient,
            Self::InvalidRequest(msg) => NodeFailure::InvalidRequest(msg@),
            Self::Storage(msg) => NodeFailure::Storage(msg@),
            Self::Relay(msg) => NodeFailure::Relay(msg@),
        }
    }
}

impl Clone for NodeError {
    fn clone(&self) -> (r: Self)
        ensures
            r@ == self@,
    {
        match self {
            Self::Unauthorized => Self::Unauthorized,
            Self::Forbidden => Self::Forbidden,
            Self::NotFound => Self::NotFound,
            Self::UnknownRecipient => Self::UnknownRecipient,
            Self::InvalidRequest(msg) => Self::InvalidRequest(msg.clone()),
            Self::Storage(msg) => Self::Storage(msg.clone()),
            Self::Relay(msg) => Self::Relay(msg.clone()),
        }
    }
}

impl NodeFailure {
    /// The error in words.
    pub open spec fn message(self) -> Seq<char> {
        match self {
            Self::Unauthorized => "missing or invalid credentials"@,
            Self::Forbidden => "not permitted to access this resource"@,
            Self::NotFound => "resource not found"@,
            Self::UnknownRecipient => "recipient is not known to this network"@,
            Self::InvalidRequest(msg) => "invalid request: "@ + msg,
            Self::Storage(msg) => "storage error: "@ + msg,
            Self::Relay(msg) => "relay error: "@ + msg,
        }
    }

    /// The HTTP status that a client is answered with.
    pub open spec fn status(self) -> u16 {
        match self {
            Self::Unauthorized => 401,
            Self::Forbidden => 403,
            Self::NotFound => 404,
            Self::UnknownRecipient => 404,
            Self::InvalidRequest(_) => 400,
            Self::Storage(_) => 500,
            Self::Relay(_) => 502,
        }
    }
}

/// `prefix`, then `text`.
fn joined(prefix: &str, text: &String) -> (r: String)
    ensures
        r@ == prefix@ + text@,
{
    let mut out: String = String::from_str(prefix);
    out.append(text.as_str());
    out
}

impl NodeError {
    pub fn to_string(&self) -> (r: String)
        ensures
            r@ == self@.message(),
            *self is Unauthorized ==> r@ == "missing or invalid credentials"@,
            *self is Forbidden ==> r@ == "not permitted to access this resource"@,
            *self is NotFound ==> r@ == "resource not found"@,
            *self is UnknownRecipient ==> r@ == "recipient is not known to this network"@,
            *self matches Self::InvalidRequest(text) ==> r@ == "invalid request: "@ + text@,
            *self matches Self::Storage(text) ==> r@ == "storage error: "@ + text@,
            *self matches Self::Relay(text) ==> r@ == "relay error: "@ + text@,
    {
        match self {
            Self::Unauthorized => String::from_str("missing or invalid credentials"),
            Self::Forbidden => String::from_str("not permitted to access this resource"),
            Self::NotFound => String::from_str("resource not found"),
            Self::UnknownRecipient => String::from_str("recipient is not known to this network"),
            Self::InvalidRequest(msg) => joined("invalid request: ", msg),
            Self::Storage(msg) => joined("storage error: ", msg),
            Self::Relay(msg) => joined("relay error: ", msg),
        }
    }

    /// The HTTP status that a client is answered with.
    pub fn status_code(&self) -> (r: u16)
        ensures
            r == self@.status(),
            *self is Unauthorized ==> r == 401,
            *self is Forbidden ==> r == 403,
            *self is NotFound || *self is UnknownRecipient ==> r == 404,
            *self is InvalidRequest ==> r == 400,
            *self is Storage ==> r == 500,
            *self is Relay ==> r == 502,
    {
        match self {
            Self::Unauthorized => 401,
            Self::Forbidden => 403,
            Self::NotFound => 404,
            Self::UnknownRecipient => 404,
            Self::InvalidRequest(_) => 400,
            Self::Storage(_) => 500,
            Self::Relay(_) => 502,
        }
    }
}

} // verus!
