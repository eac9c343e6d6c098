//! End-to-end encrypted messaging: a key agreement between two identities, the
//! double ratchet that follows it, and the decisions of a node that relays the
//! encrypted messages.
pub mod bytes;
pub mod calls;
pub mod double_ratchet;
pub mod header;
pub mod identity;
pub mod init;
pub mod keys;
pub mod message;
pub mod node;
pub mod primitives;
pub mod store;
pub mod x3dh;

pub use header::{Header, HeaderEncryptionError, HeaderError, HeaderKey};
pub use identity::{PublicIdentity, UserId};
pub use init::SessionInit;
pub use keys::{
    HashKey, KeyHash, PublicKey, RootKey, SessionTag, SharedSecret, Signature, SigningKey,
    StaticSecret, VerifyingKey,
};
pub use message::{MessageEncryptionError, MessageKey};
pub use store::{Data, HeaderKeyStore, KeyExchangeStore, SessionKeyStore};
