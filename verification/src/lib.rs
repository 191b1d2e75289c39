//! A client-side key vault and the decision logic of a secure-messaging
//! session.
//!
//! The vault derives a root key from a user's credentials, wraps
//! per-purpose keys under it and prepares the documents exchanged with a
//! key server. The messaging part serialises access to a session store and
//! decides, step by step, what an encrypted exchange with a peer needs.
pub mod bundle;
pub mod crypto;
pub mod derive;
pub mod encoding;
pub mod error;
pub mod flow;
pub mod keystore;
pub mod protocol;
pub mod table;
pub mod wire;
