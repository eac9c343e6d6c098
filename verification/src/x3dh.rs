//! The key agreement that a session starts from.
pub mod agreement;
pub mod calls;
pub mod error;
pub mod exchange;
pub mod laws;
pub mod model;

pub use error::KeyExchangeError;
pub use exchange::{get_identity_x25519_secret, KeyExchange, PreKeyBundle, PreKeyMessage};
