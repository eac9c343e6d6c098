//! The double ratchet: every message has a key of its own, and every reply
//! renews the keys.
pub mod calls;
pub mod chain;
pub mod conversation;
pub mod data;
pub mod error;
pub mod header_keys;
pub mod laws;
pub mod model;
pub mod outcomes;
pub mod root;
pub mod session;
pub mod session_header;
pub mod steps;

pub use chain::ChainKey;
pub use data::{SessionData, SESSION_DATA_SIZE};
pub use error::DoubleRatchetError;
pub use header_keys::HeaderKeys;
pub use model::MAX_SKIP;
pub use root::RootKey;
pub use session::Session;
pub use session_header::SessionHeader;
