//! The decisions of a relay node: who may do what, what is stored, and what
//! is forwarded to a peer.
pub mod auth;
pub mod calls;
pub mod error;
pub mod handlers;
pub mod laws;
pub mod mock;
pub mod text;
pub mod types;

pub use error::NodeError;
pub use types::{
    AckMessagesRequest, AuthenticatedClient, AuthenticatedNode, DepositMessageRequest,
    DepositMessageResponse, EncryptedEnvelope, FetchMessagesResponse, NodeConfig, NodeLocation,
    RelayMessageRequest,
};
