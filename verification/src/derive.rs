//! Deriving the root key and the hashed passphrase from a user's
//! credentials, by two rounds of Argon2id.
use vstd::prelude::*;
use vstd::string::*;
use vstd::utf8::*;
use crate::crypto::KEY_LEN;
use crate::encoding::{base64_encode, base64_text};
use crate::error::VaultError;
use argon2::password_hash::PasswordHasher;

verus! {

/// Memory cost of the first round, in KiB.
pub const ROOT_M_COST: u32 = 4096;

/// Passes of the first round.
pub const ROOT_T_COST: u32 = 4;

/// Memory cost of the second round, in KiB.
pub const HASH_M_COST: u32 = 512;

/// Passes of the second round.
pub const HASH_T_COST: u32 = 1;

/// Lanes of both rounds.
pub const LANES: u32 = 1;

/// The Argon2id (version 0x13) digest of a password under a salt and the
/// given costs; `None` where the hash refuses its input.
pub uninterp spec fn argon2id_digest(
    password: Seq<u8>,
    salt: Seq<u8>,
    m_cost: u32,
    t_cost: u32,
    p_cost: u32,
    len: usize,
) -> Option<Seq<u8>>;

#[verifier::external_type_specification]
#[verifier::external_body]
pub struct ExPasswordHashError(argon2::password_hash::Error);

/// `Params::new`, `Argon2::new`, `SaltString::b64_encode` and
/// `PasswordHasher::hash_password`, with the salt given as raw bytes. The
/// digest depends on the arguments alone and has the length asked for.
#[verifier::external_body]
fn argon2id(password: &[u8], salt: &[u8], m_cost: u32, t_cost: u32, p_cost: u32, len: usize) -> (r:
    Result<Vec<u8>, argon2::password_hash::Error>)
    ensures
        match r {
            Ok(digest) => argon2id_digest(password@, salt@, m_cost, t_cost, p_cost, len) == Some(
                digest@,
            ) && digest@.len() == len,
            Err(_) => argon2id_digest(password@, salt@, m_cost, t_cost, p_cost, len) is None,
        },
{
    let params = argon2::Params::new(m_cost, t_cost, p_cost, Some(len))?;
    let hasher = argon2::Argon2::new(argon2::Algorithm::Argon2id, argon2::Version::V0x13, params);
    let salt = argon2::password_hash::SaltString::b64_encode(salt)?;
    let hash = hasher.hash_password(password, &salt)?;
    match hash.hash {
        Some(output) => Ok(output.as_bytes().to_vec()),
        None => Err(argon2::password_hash::Error::Crypto),
    }
}

/// The root key of a pair of credentials: the passphrase hashed at high
/// cost, salted with the email.
pub open spec fn derived_root_key(email: Seq<char>, passphrase: Seq<char>) -> Option<Seq<u8>> {
    argon2id_digest(
        encode_utf8(passphrase),
        encode_utf8(email),
        ROOT_M_COST,
        ROOT_T_COST,
        LANES,
        KEY_LEN,
    )
}

/// The hashed passphrase that goes with a root key: the root key hashed at
/// low cost, salted with the passphrase, in Base64.
pub open spec fn hashed_passphrase_of(root_key: Seq<u8>, passphrase: Seq<char>) -> Option<
    Seq<char>,
> {
    match argon2id_digest(
        root_key,
        encode_utf8(passphrase),
        HASH_M_COST,
        HASH_T_COST,
        LANES,
        KEY_LEN,
    ) {
        Some(digest) => Some(base64_text(digest)),
        None => None,
    }
}

/// Both derived values of a pair of credentials: the root key and the
/// hashed passphrase.
pub open spec fn derived_keys(email: Seq<char>, passphrase: Seq<char>) -> Option<
    (Seq<u8>, Seq<char>),
> {
    match derived_root_key(email, passphrase) {
        Some(root_key) => match hashed_passphrase_of(root_key, passphrase) {
            Some(hashed) => Some((root_key, hashed)),
            None => None,
        },
        None => None,
    }
}

/// Derives the root key and the hashed passphrase.
///
/// Fails with `Derivation` where the hash refuses the credentials, as it
/// does for an email or a passphrase too short or too long to be a salt.
pub fn derive_keys(email: &String, passphrase: &String) -> (r: Result<(Vec<u8>, String), VaultError>)
    ensures
        match derived_keys(email@, passphrase@) {
            Some((root_key, hashed)) => r matches Ok(out) && out.0@ == root_key && out.1@
                == hashed,
            None => r == Err::<(Vec<u8>, String), VaultError>(VaultError::Derivation),
        },
        r matches Ok(out) ==> out.0@.len() == KEY_LEN,
{
    let root_key = match argon2id(
        passphrase.as_str().as_bytes(),
        email.as_str().as_bytes(),
        ROOT_M_COST,
        ROOT_T_COST,
        LANES,
        KEY_LEN,
    ) {
        Err(_) => {
            return Err(VaultError::Derivation);
        },
        Ok(root_key) => root_key,
    };
    let digest = match argon2id(
        root_key.as_slice(),
        passphrase.as_str().as_bytes(),
        HASH_M_COST,
        HASH_T_COST,
        LANES,
        KEY_LEN,
    ) {
        Err(_) => {
            return Err(VaultError::Derivation);
        },
        Ok(digest) => digest,
    };
    let hashed = base64_encode(digest.as_slice());
    Ok((root_key, hashed))
}

/// Derivation is deterministic: equal credentials have equal derived
/// values, the failure to derive included.
pub proof fn lemma_derivation_deterministic(
    email_a: Seq<char>,
    passphrase_a: Seq<char>,
    email_b: Seq<char>,
    passphrase_b: Seq<char>,
)
    requires
        email_a == email_b,
        passphrase_a == passphrase_b,
    ensures
        derived_keys(email_a, passphrase_a) == derived_keys(email_b, passphrase_b),
{
}

} // verus!
