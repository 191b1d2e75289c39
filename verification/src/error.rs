//! The failures that the vault and the messaging session report.
use vstd::prelude::*;

verus! {

/// Why a vault operation did not complete.
#[derive(Clone, Copy, Debug, PartialEq, Eq, Structural)]
pub enum VaultError {
    /// The vault is locked: no root key is present.
    Configuration,
    /// No key or manifest entry goes by the given name or identifier.
    NotFound,
    /// A ciphertext was malformed, tampered with or sealed under another
    /// key.
    Decryption,
    /// The cipher refused the key or the plaintext.
    Encryption,
    /// The password hash refused the credentials.
    Derivation,
    /// The operating system gave no random bytes.
    Entropy,
}

/// Why a messaging operation did not complete.
#[derive(Clone, Copy, Debug, PartialEq, Eq, Structural)]
pub enum SessionError {
    /// The session store is held by another operation, or was never set.
    Busy,
    /// The peer has no unused pre-key bundle left.
    NotFound,
    /// A message or bundle was malformed, or the store refused it.
    Protocol,
    /// The message was decrypted before.
    DuplicateMessage,
    /// The message could not be decrypted.
    MessageDecrypt,
}

} // verus!
