//! Sealing text under a 256-bit key, and the random material it needs.
//!
//! A sealed text is the Base64 of a 96-bit nonce, a colon, and the Base64
//! of the AES-256-GCM-SIV ciphertext with its tag.
use vstd::prelude::*;
use vstd::string::*;
use vstd::utf8::*;
use crate::encoding::{base64_bytes, base64_decode, base64_encode, base64_text, is_base64_symbol, is_base64_symbols};
use crate::error::VaultError;
use aes_gcm_siv::aead::Aead;
use aes_gcm_siv::KeyInit;
use rand::RngCore;

verus! {

/// Bytes in a key.
pub const KEY_LEN: usize = 32;

/// Bytes in a nonce.
pub const NONCE_LEN: usize = 12;

/// What AES-256-GCM-SIV makes of a plaintext under a key and a nonce, the
/// tag included; `None` where the cipher refuses.
pub uninterp spec fn aes_gcm_siv_sealed(key: Seq<u8>, nonce: Seq<u8>, plaintext: Seq<u8>) -> Option<
    Seq<u8>,
>;

/// The plaintext that AES-256-GCM-SIV recovers from a ciphertext with its
/// tag; `None` where the key or the tag does not fit.
pub uninterp spec fn aes_gcm_siv_opened(key: Seq<u8>, nonce: Seq<u8>, sealed: Seq<u8>) -> Option<
    Seq<u8>,
>;

#[verifier::external_type_specification]
#[verifier::external_body]
pub struct ExAeadError(aes_gcm_siv::Error);

#[verifier::external_type_specification]
#[verifier::external_body]
pub struct ExRandError(rand::Error);

#[verifier::external_type_specification]
#[verifier::external_body]
pub struct ExFromUtf8Error(std::string::FromUtf8Error);

/// `Aes256GcmSiv::new_from_slice` and `Aead::encrypt`, without associated
/// data. The result depends on the three arguments alone, and opening it
/// under the same key and nonce gives the plaintext back.
#[verifier::external_body]
fn aead_seal(key: &[u8], nonce: &[u8], plaintext: &[u8]) -> (r: Result<Vec<u8>, aes_gcm_siv::Error>)
    requires
        nonce@.len() == NONCE_LEN,
    ensures
        match r {
            Ok(sealed) => aes_gcm_siv_sealed(key@, nonce@, plaintext@) == Some(sealed@)
                && aes_gcm_siv_opened(key@, nonce@, sealed@) == Some(plaintext@),
            Err(_) => aes_gcm_siv_sealed(key@, nonce@, plaintext@) is None,
        },
{
    match aes_gcm_siv::Aes256GcmSiv::new_from_slice(key) {
        Ok(cipher) => cipher.encrypt(aes_gcm_siv::Nonce::from_slice(nonce), plaintext),
        Err(_) => Err(aes_gcm_siv::Error),
    }
}

/// `Aes256GcmSiv::new_from_slice` and `Aead::decrypt`, without associated
/// data. The result depends on the three arguments alone.
#[verifier::external_body]
fn aead_open(key: &[u8], nonce: &[u8], sealed: &[u8]) -> (r: Result<Vec<u8>, aes_gcm_siv::Error>)
    requires
        nonce@.len() == NONCE_LEN,
    ensures
        match r {
            Ok(plaintext) => aes_gcm_siv_opened(key@, nonce@, sealed@) == Some(plaintext@),
            Err(_) => aes_gcm_siv_opened(key@, nonce@, sealed@) is None,
        },
{
    match aes_gcm_siv::Aes256GcmSiv::new_from_slice(key) {
        Ok(cipher) => cipher.decrypt(aes_gcm_siv::Nonce::from_slice(nonce), sealed),
        Err(_) => Err(aes_gcm_siv::Error),
    }
}

/// `OsRng::try_fill_bytes` on a fresh buffer: on success the buffer has the
/// length asked for. Nothing is said of its contents.
#[verifier::external_body]
fn os_random(len: usize) -> (r: Result<Vec<u8>, rand::Error>)
    ensures
        r matches Ok(bytes) ==> bytes@.len() == len,
{
    let mut buf = vec![0u8; len];
    match rand::rngs::OsRng.try_fill_bytes(&mut buf) {
        Ok(()) => Ok(buf),
        Err(e) => Err(e),
    }
}

/// `String::from_utf8`: succeeds exactly on valid UTF-8 and then holds the
/// characters that the bytes encode.
#[verifier::external_body]
pub(crate) fn utf8_text(bytes: Vec<u8>) -> (r: Result<String, std::string::FromUtf8Error>)
    ensures
        match r {
            Ok(text) => valid_utf8(bytes@) && text@ == decode_utf8(bytes@),
            Err(_) => !valid_utf8(bytes@),
        },
{
    String::from_utf8(bytes)
}

/// `at` is the place of the first colon of `text`.
pub open spec fn is_first_colon(text: Seq<char>, at: int) -> bool {
    &&& 0 <= at < text.len()
    &&& text[at] == ':'
    &&& forall|j: int| 0 <= j < at ==> text[j] != ':'
}

/// The two halves of a sealed text, before and after its first colon.
pub open spec fn envelope_parts(text: Seq<char>) -> Option<(Seq<char>, Seq<char>)> {
    if exists|at: int| is_first_colon(text, at) {
        let at = choose|at: int| is_first_colon(text, at);
        Some((text.subrange(0, at), text.subrange(at + 1, text.len() as int)))
    } else {
        None
    }
}

/// The sealed text of a plaintext under a key and a nonce.
pub open spec fn sealed_text(plaintext: Seq<char>, key: Seq<u8>, nonce: Seq<u8>) -> Option<
    Seq<char>,
> {
    if nonce.len() != NONCE_LEN {
        None
    } else {
        match aes_gcm_siv_sealed(key, nonce, encode_utf8(plaintext)) {
            Some(sealed) => Some(base64_text(nonce) + seq![':'] + base64_text(sealed)),
            None => None,
        }
    }
}

/// The plaintext that a sealed text holds for the owner of `key`.
pub open spec fn opened_text(text: Seq<char>, key: Seq<u8>) -> Option<Seq<char>> {
    if !is_ascii_chars(text) {
        None
    } else {
        match envelope_parts(text) {
            None => None,
            Some((head, tail)) => match (base64_bytes(head), base64_bytes(tail)) {
                (Some(nonce), Some(sealed)) => if nonce.len() != NONCE_LEN {
                    None
                } else {
                    match aes_gcm_siv_opened(key, nonce, sealed) {
                        Some(bytes) => if valid_utf8(bytes) {
                            Some(decode_utf8(bytes))
                        } else {
                            None
                        },
                        None => None,
                    }
                },
                _ => None,
            },
        }
    }
}

/// The first colon of a text is unique.
pub proof fn lemma_first_colon_unique(text: Seq<char>, a: int, b: int)
    requires
        is_first_colon(text, a),
        is_first_colon(text, b),
    ensures
        a == b,
{
}

/// Base64 text is ASCII and holds no colon.
pub proof fn lemma_base64_symbols_plain(text: Seq<char>)
    requires
        is_base64_symbols(text),
    ensures
        is_ascii_chars(text),
        forall|i: int| 0 <= i < text.len() ==> text[i] != ':',
{
    assert forall|i: int| 0 <= i < text.len() implies (0 <= (#[trigger] text[i]) as nat <= 127)
        && text[i] != ':' by {
        assert(is_base64_symbol(text[i]));
    }
}

fn find_colon(text: &str) -> (r: Option<usize>)
    requires
        text.is_ascii(),
    ensures
        match r {
            Some(at) => is_first_colon(text@, at as int),
            None => forall|j: int| 0 <= j < text@.len() ==> text@[j] != ':',
        },
{
    broadcast use is_ascii_spec_bytes;

    let bytes = text.as_bytes();
    let mut i: usize = 0;
    while i < bytes.len()
        invariant
            i <= bytes.len(),
            text.is_ascii(),
            bytes@ == text.spec_bytes(),
            bytes@.len() == text@.len(),
            forall|j: int| 0 <= j < i ==> text@[j] != ':',
        decreases bytes.len() - i,
    {
        assert(bytes@[i as int] == text@[i as int] as u8);
        assert(0 <= text@[i as int] as nat <= 127);
        if bytes[i] == 58u8 {
            assert(text@[i as int] == ':');
            return Some(i);
        }
        assert(text@[i as int] != ':');
        i = i + 1;
    }
    None
}

/// Fresh key material: `KEY_LEN` random bytes.
pub fn gen_key() -> (r: Result<Vec<u8>, VaultError>)
    ensures
        match r {
            Ok(key) => key@.len() == KEY_LEN,
            Err(e) => e == VaultError::Entropy,
        },
{
    match os_random(KEY_LEN) {
        Ok(key) => Ok(key),
        Err(_) => Err(VaultError::Entropy),
    }
}

/// A fresh nonce: `NONCE_LEN` random bytes.
pub fn gen_nonce() -> (r: Result<Vec<u8>, VaultError>)
    ensures
        match r {
            Ok(nonce) => nonce@.len() == NONCE_LEN,
            Err(e) => e == VaultError::Entropy,
        },
{
    match os_random(NONCE_LEN) {
        Ok(nonce) => Ok(nonce),
        Err(_) => Err(VaultError::Entropy),
    }
}

/// Fresh nonces, `count` of them.
pub fn gen_nonces(count: usize) -> (r: Result<Vec<Vec<u8>>, VaultError>)
    ensures
        match r {
            Ok(nonces) => nonces@.len() == count && forall|i: int|
                0 <= i < count ==> (#[trigger] nonces@[i])@.len() == NONCE_LEN,
            Err(e) => e == VaultError::Entropy,
        },
{
    let mut nonces: Vec<Vec<u8>> = Vec::new();
    let mut i: usize = 0;
    while i < count
        invariant
            i <= count,
            nonces@.len() == i,
            forall|k: int| 0 <= k < i ==> (#[trigger] nonces@[k])@.len() == NONCE_LEN,
        decreases count - i,
    {
        match gen_nonce() {
            Err(_) => {
                return Err(VaultError::Entropy);
            },
            Ok(nonce) => {
                nonces.push(nonce);
            },
        }
        i = i + 1;
    }
    Ok(nonces)
}

/// Seals `plaintext` under `key` with the given nonce.
///
/// The result is a function of the three arguments, and the owner of `key`
/// opens it to `plaintext` again.
pub fn encrypt_with_nonce(plaintext: &String, key: &[u8], nonce: &[u8]) -> (r: Result<
    String,
    VaultError,
>)
    ensures
        match sealed_text(plaintext@, key@, nonce@) {
            Some(text) => r matches Ok(out) && out@ == text,
            None => r == Err::<String, VaultError>(VaultError::Encryption),
        },
        r matches Ok(out) ==> opened_text(out@, key@) == Some(plaintext@),
{
    broadcast use {encode_utf8_valid_utf8, encode_utf8_decode_utf8};

    if nonce.len() != NONCE_LEN {
        return Err(VaultError::Encryption);
    }
    match aead_seal(key, nonce, plaintext.as_str().as_bytes()) {
        Err(_) => Err(VaultError::Encryption),
        Ok(sealed) => {
            let head = base64_encode(nonce);
            let tail = base64_encode(sealed.as_slice());
            let mut out = head.clone();
            out.append(":");
            out.append(tail.as_str());
            proof {
                reveal_strlit(":");
                let at = head@.len() as int;
                assert(":"@ =~= seq![':']);
                assert(out@ =~= base64_text(nonce@) + seq![':'] + base64_text(sealed@));
                lemma_base64_symbols_plain(head@);
                lemma_base64_symbols_plain(tail@);
                assert(is_ascii_chars(out@)) by {
                    assert forall|i: int| 0 <= i < out@.len() implies 0 <= (#[trigger] out@[i])
                        as nat <= 127 by {
                        if i < at {
                            assert(out@[i] == head@[i]);
                        } else if i == at {
                            assert(out@[i] == ':');
                        } else {
                            assert(out@[i] == tail@[i - at - 1]);
                        }
                    }
                }
                assert(is_first_colon(out@, at)) by {
                    assert(out@[at] == ':');
                    assert forall|j: int| 0 <= j < at implies out@[j] != ':' by {
                        assert(out@[j] == head@[j]);
                    }
                }
                let pick = choose|k: int| is_first_colon(out@, k);
                lemma_first_colon_unique(out@, at, pick);
                assert(out@.subrange(0, at) =~= head@);
                assert(out@.subrange(at + 1, out@.len() as int) =~= tail@);
                assert(envelope_parts(out@) == Some((head@, tail@)));
            }
            Ok(out)
        },
    }
}

/// Seals `plaintext` under `key` with a fresh random nonce.
///
/// Whatever nonce was drawn, the owner of `key` opens the result to
/// `plaintext` again.
pub fn encrypt_custom(plaintext: &String, key: &[u8]) -> (r: Result<String, VaultError>)
    ensures
        match r {
            Ok(out) => opened_text(out@, key@) == Some(plaintext@) && exists|nonce: Seq<u8>|
                #[trigger] sealed_text(plaintext@, key@, nonce) == Some(out@),
            Err(e) => e == VaultError::Entropy || (e == VaultError::Encryption && exists|
                nonce: Seq<u8>,
            |
                nonce.len() == NONCE_LEN && #[trigger] sealed_text(plaintext@, key@, nonce)
                    is None),
        },
{
    match gen_nonce() {
        Err(_) => Err(VaultError::Entropy),
        Ok(nonce) => {
            let r = encrypt_with_nonce(plaintext, key, nonce.as_slice());
            proof {
                let _ = sealed_text(plaintext@, key@, nonce@);
            }
            r
        },
    }
}

/// Opens a sealed text with `key`.
///
/// Fails with `Decryption` on anything that is not a sealed text made
/// under this key: a missing colon, bad Base64, a nonce of the wrong
/// length, a tag that does not fit, or a plaintext that is not UTF-8.
pub fn decrypt_custom(ciphertext: &String, key: &[u8]) -> (r: Result<String, VaultError>)
    ensures
        match opened_text(ciphertext@, key@) {
            Some(text) => r matches Ok(out) && out@ == text,
            None => r == Err::<String, VaultError>(VaultError::Decryption),
        },
{
    let text = ciphertext.as_str();
    if !text.is_ascii() {
        return Err(VaultError::Decryption);
    }
    let at = match find_colon(text) {
        None => {
            return Err(VaultError::Decryption);
        },
        Some(at) => at,
    };
    proof {
        let pick = choose|k: int| is_first_colon(text@, k);
        lemma_first_colon_unique(text@, at as int, pick);
    }
    let len = text.unicode_len();
    let head = text.substring_ascii(0, at);
    let tail = text.substring_ascii(at + 1, len);
    assert(envelope_parts(text@) == Some((head@, tail@)));
    let nonce = match base64_decode(head) {
        Err(_) => {
            return Err(VaultError::Decryption);
        },
        Ok(nonce) => nonce,
    };
    let sealed = match base64_decode(tail) {
        Err(_) => {
            return Err(VaultError::Decryption);
        },
        Ok(sealed) => sealed,
    };
    if nonce.len() != NONCE_LEN {
        return Err(VaultError::Decryption);
    }
    match aead_open(key, nonce.as_slice(), sealed.as_slice()) {
        Err(_) => Err(VaultError::Decryption),
        Ok(bytes) => match utf8_text(bytes) {
            Err(_) => Err(VaultError::Decryption),
            Ok(out) => Ok(out),
        },
    }
}


} // verus!
