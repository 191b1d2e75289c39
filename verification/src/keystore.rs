//! The key vault: a root key that is present only while the vault is
//! unlocked, the wrapped keys it guards, and the manifest that names them.
use vstd::prelude::*;
use vstd::string::*;
use crate::crypto::{
    decrypt_custom, encrypt_custom, encrypt_with_nonce, gen_key, gen_nonce, gen_nonces,
    opened_text, sealed_text, KEY_LEN, NONCE_LEN,
};
use crate::encoding::{
    after_prefix, base64_encode, base64_text, concat5, hex_encode, hex_text, join_push, joined,
    json_quote, json_read_string, json_string, lemma_after_prefix, lemma_joined_len,
    lemma_joined_step, lemma_json_string_reads_back, lemma_list_reads_back, read_list,
    reads_back, written,
};
use crate::derive::{derive_keys, derived_keys};
use crate::error::VaultError;
use crate::table::{distinct_keys, has_key, key_at, lemma_value_at, put, put_all, value_of, Pair, Table};

verus! {

/// A wrapped key as the key server stores it.
#[derive(Debug, PartialEq, Eq)]
pub struct KeyRecord {
    pub key_id: String,
    pub ciphertext: String,
}

impl KeyRecord {
    /// The record as a pair of texts: identifier, then ciphertext.
    pub open spec fn pair(&self) -> Pair {
        (self.key_id@, self.ciphertext@)
    }
}

/// A line of the manifest: the name of a key and its identifier.
#[derive(Debug, PartialEq, Eq)]
pub struct ManifestEntry {
    pub name: String,
    pub key_id: String,
}

impl ManifestEntry {
    /// The entry as a pair of texts: name, then identifier.
    pub open spec fn pair(&self) -> Pair {
        (self.name@, self.key_id@)
    }
}

/// The pairs of a list of key records.
pub open spec fn record_pairs(records: Seq<KeyRecord>) -> Seq<Pair> {
    Seq::new(records.len(), |i: int| records[i].pair())
}

/// The pairs of a list of manifest entries.
pub open spec fn manifest_pairs(entries: Seq<ManifestEntry>) -> Seq<Pair> {
    Seq::new(entries.len(), |i: int| entries[i].pair())
}

/// What a vault holds.
pub struct KeyStoreInner {
    root_key: Option<Vec<u8>>,
    keys: Table,
    manifest: Table,
}

/// The key vault.
pub struct KeyStore {
    inner: KeyStoreInner,
}

/// What a text opens to under an optional root key: `Configuration` without
/// a key, `Decryption` where the text is not sealed under it.
pub open spec fn opened_under(root_key: Option<Seq<u8>>, ciphertext: Seq<char>) -> Result<
    Seq<char>,
    VaultError,
> {
    match root_key {
        None => Err(VaultError::Configuration),
        Some(key) => match opened_text(ciphertext, key) {
            Some(text) => Ok(text),
            None => Err(VaultError::Decryption),
        },
    }
}

/// The plaintext of the key with the given identifier.
pub open spec fn key_material(
    root_key: Option<Seq<u8>>,
    keys: Seq<Pair>,
    id: Seq<char>,
) -> Result<Seq<char>, VaultError> {
    match value_of(keys, id) {
        None => Err(VaultError::NotFound),
        Some(ciphertext) => opened_under(root_key, ciphertext),
    }
}

/// The plaintext of the key with the given name.
pub open spec fn named_key_material(
    root_key: Option<Seq<u8>>,
    keys: Seq<Pair>,
    manifest: Seq<Pair>,
    name: Seq<char>,
) -> Result<Seq<char>, VaultError> {
    match value_of(manifest, name) {
        None => Err(VaultError::NotFound),
        Some(id) => key_material(root_key, keys, id),
    }
}

/// A text result and its view agree.
pub open spec fn text_is(r: Result<String, VaultError>, expected: Result<Seq<char>, VaultError>) -> bool {
    match expected {
        Ok(text) => r matches Ok(out) && out@ == text,
        Err(e) => r == Err::<String, VaultError>(e),
    }
}

/// The request that uploads a wrapped key: the ciphertext as a JSON
/// string.
pub open spec fn key_upload_body(ciphertext: Seq<char>) -> Seq<char> {
    "{\"ciphertext\": "@ + json_string(ciphertext) + "}"@
}

/// One line of the manifest document: name and identifier, each as a JSON
/// string.
pub open spec fn manifest_item(entry: Pair) -> Seq<char> {
    json_string(entry.0) + ": "@ + json_string(entry.1)
}

/// How a line of the manifest document is written.
pub open spec fn manifest_item_writer() -> spec_fn(Pair) -> Seq<char> {
    |entry: Pair| manifest_item(entry)
}

/// The lines of the manifest document.
pub open spec fn manifest_items(manifest: Seq<Pair>) -> Seq<Seq<char>> {
    written(manifest_item_writer(), manifest)
}

/// The document that replaces the manifest on the key server: every
/// entry, in order.
pub open spec fn manifest_body(manifest: Seq<Pair>) -> Seq<char> {
    "{\"manifest\": { "@ + joined(manifest_items(manifest), ","@) + " } }"@
}

/// Reads one line of a manifest document at the start of `s`: the entry,
/// and what follows it.
pub open spec fn read_manifest_item(s: Seq<char>) -> Option<(Pair, Seq<char>)> {
    match json_read_string(s) {
        Some((name, a)) => match after_prefix(a, ": "@) {
            Some(b) => match json_read_string(b) {
                Some((id, rest)) => Some(((name, id), rest)),
                None => None,
            },
            None => None,
        },
        None => None,
    }
}

/// How a line of the manifest document is read.
pub open spec fn manifest_item_reader() -> spec_fn(Seq<char>) -> Option<(Pair, Seq<char>)> {
    |s: Seq<char>| read_manifest_item(s)
}

/// Reads a manifest document: the entries it holds, in order.
pub open spec fn read_manifest(document: Seq<char>) -> Option<Seq<Pair>> {
    match after_prefix(document, "{\"manifest\": { "@) {
        Some(lines) => if lines == " } }"@ {
            Some(Seq::empty())
        } else {
            read_list(manifest_item_reader(), " } }"@, lines, lines.len())
        },
        None => None,
    }
}

/// A line of the manifest document reads back to its entry, whatever
/// follows.
pub proof fn lemma_manifest_item_reads_back(entry: Pair, rest: Seq<char>)
    ensures
        read_manifest_item(manifest_item(entry) + rest) == Some((entry, rest)),
        manifest_item(entry).len() >= 1,
{
    let colon = ": "@;
    let b = json_string(entry.1) + rest;
    let a = colon + b;
    lemma_json_string_reads_back(entry.0, a);
    lemma_after_prefix(colon, b);
    lemma_json_string_reads_back(entry.1, rest);
    assert(manifest_item(entry) + rest =~= json_string(entry.0) + a);
}

/// The manifest document reads back to the manifest it was written from:
/// names and identifiers exactly as they were given, in order. So
/// different manifests have different documents.
pub proof fn lemma_manifest_reads_back(manifest: Seq<Pair>)
    ensures
        read_manifest(manifest_body(manifest)) == Some(manifest),
{
    let open = "{\"manifest\": { "@;
    let close = " } }"@;
    let lines = joined(manifest_items(manifest), ","@) + close;
    lemma_after_prefix(open, lines);
    assert(manifest_body(manifest) =~= open + lines);
    if manifest.len() == 0 {
        assert(manifest_items(manifest) =~= Seq::<Seq<char>>::empty());
        assert(lines =~= close);
        assert(manifest =~= Seq::<Pair>::empty());
    } else {
        assert(reads_back(manifest_item_writer(), manifest_item_reader())) by {
            assert forall|entry: Pair, rest: Seq<char>|
                (manifest_item_reader())(#[trigger] ((manifest_item_writer())(entry) + rest))
                    == Some((entry, rest)) by {
                lemma_manifest_item_reads_back(entry, rest);
            }
            assert forall|entry: Pair| (#[trigger] (manifest_item_writer())(entry)).len()
                >= 1 by {
                lemma_manifest_item_reads_back(entry, Seq::empty());
            }
        }
        lemma_joined_len(manifest_item_writer(), manifest);
        assert(lines.len() > close.len());
        lemma_list_reads_back(
            manifest_item_writer(),
            manifest_item_reader(),
            close,
            manifest,
            lines.len(),
        );
    }
}

/// One key of a rotation request: identifier and ciphertext, each as a
/// JSON string.
pub open spec fn rotation_item(record: Pair) -> Seq<char> {
    "{\"key_id\": "@ + json_string(record.0) + ", \"ciphertext\": "@ + json_string(record.1)
        + "}"@
}

/// How a key of a rotation request is written.
pub open spec fn rotation_item_writer() -> spec_fn(Pair) -> Seq<char> {
    |record: Pair| rotation_item(record)
}

/// The keys of a rotation request.
pub open spec fn rotation_items(records: Seq<Pair>) -> Seq<Seq<char>> {
    written(rotation_item_writer(), records)
}

/// The rotation request: the token as a JSON string and every re-wrapped
/// key, in order.
pub open spec fn rotation_body(token: Seq<char>, records: Seq<Pair>) -> Seq<char> {
    "{\"token\": "@ + json_string(token) + ", \"keys\": ["@ + joined(
        rotation_items(records),
        ","@,
    ) + "]}"@
}

/// Reads the ciphertext out of an upload request.
pub open spec fn read_key_upload(document: Seq<char>) -> Option<Seq<char>> {
    match after_prefix(document, "{\"ciphertext\": "@) {
        Some(rest) => match json_read_string(rest) {
            Some((ciphertext, end)) => if end == "}"@ {
                Some(ciphertext)
            } else {
                None
            },
            None => None,
        },
        None => None,
    }
}

/// An upload request reads back to the ciphertext it carries.
pub proof fn lemma_key_upload_reads_back(ciphertext: Seq<char>)
    ensures
        read_key_upload(key_upload_body(ciphertext)) == Some(ciphertext),
{
    let open = "{\"ciphertext\": "@;
    let rest = json_string(ciphertext) + "}"@;
    lemma_after_prefix(open, rest);
    lemma_json_string_reads_back(ciphertext, "}"@);
    assert(key_upload_body(ciphertext) =~= open + rest);
}

/// Reads one key of a rotation request at the start of `s`: the record,
/// and what follows it.
pub open spec fn read_rotation_item(s: Seq<char>) -> Option<(Pair, Seq<char>)> {
    match after_prefix(s, "{\"key_id\": "@) {
        Some(a) => match json_read_string(a) {
            Some((id, b)) => match after_prefix(b, ", \"ciphertext\": "@) {
                Some(c) => match json_read_string(c) {
                    Some((ciphertext, d)) => match after_prefix(d, "}"@) {
                        Some(rest) => Some(((id, ciphertext), rest)),
                        None => None,
                    },
                    None => None,
                },
                None => None,
            },
            None => None,
        },
        None => None,
    }
}

/// How a key of a rotation request is read.
pub open spec fn rotation_item_reader() -> spec_fn(Seq<char>) -> Option<(Pair, Seq<char>)> {
    |s: Seq<char>| read_rotation_item(s)
}

/// Reads a rotation request: its token and the records it holds, in order.
pub open spec fn read_rotation(document: Seq<char>) -> Option<(Seq<char>, Seq<Pair>)> {
    match after_prefix(document, "{\"token\": "@) {
        Some(a) => match json_read_string(a) {
            Some((token, b)) => match after_prefix(b, ", \"keys\": ["@) {
                Some(list) => if list == "]}"@ {
                    Some((token, Seq::empty()))
                } else {
                    match read_list(rotation_item_reader(), "]}"@, list, list.len()) {
                        Some(records) => Some((token, records)),
                        None => None,
                    }
                },
                None => None,
            },
            None => None,
        },
        None => None,
    }
}

/// A key of a rotation request reads back to its record, whatever
/// follows.
pub proof fn lemma_rotation_item_reads_back(record: Pair, rest: Seq<char>)
    ensures
        read_rotation_item(rotation_item(record) + rest) == Some((record, rest)),
        rotation_item(record).len() >= 1,
{
    let lead = "{\"key_id\": "@;
    let mid = ", \"ciphertext\": "@;
    let tail = "}"@;
    let d = tail + rest;
    let c = json_string(record.1) + d;
    let b = mid + c;
    let a = json_string(record.0) + b;
    lemma_after_prefix(lead, a);
    lemma_json_string_reads_back(record.0, b);
    lemma_after_prefix(mid, c);
    lemma_json_string_reads_back(record.1, d);
    lemma_after_prefix(tail, rest);
    assert(rotation_item(record) + rest =~= lead + a);
}

/// The rotation request reads back to the token and the records it was
/// written from: identifiers and ciphertexts exactly as they were, in
/// order.
pub proof fn lemma_rotation_reads_back(token: Seq<char>, records: Seq<Pair>)
    ensures
        read_rotation(rotation_body(token, records)) == Some((token, records)),
{
    let lead = "{\"token\": "@;
    let mid = ", \"keys\": ["@;
    let close = "]}"@;
    let list = joined(rotation_items(records), ","@) + close;
    let b = mid + list;
    let a = json_string(token) + b;
    lemma_after_prefix(lead, a);
    lemma_json_string_reads_back(token, b);
    lemma_after_prefix(mid, list);
    assert(rotation_body(token, records) =~= lead + a);
    if records.len() == 0 {
        assert(rotation_items(records) =~= Seq::<Seq<char>>::empty());
        assert(list =~= close);
        assert(records =~= Seq::<Pair>::empty());
    } else {
        assert(reads_back(rotation_item_writer(), rotation_item_reader())) by {
            assert forall|record: Pair, rest: Seq<char>|
                (rotation_item_reader())(#[trigger] ((rotation_item_writer())(record) + rest))
                    == Some((record, rest)) by {
                lemma_rotation_item_reads_back(record, rest);
            }
            assert forall|record: Pair| (#[trigger] (rotation_item_writer())(record)).len()
                >= 1 by {
                lemma_rotation_item_reads_back(record, Seq::empty());
            }
        }
        lemma_joined_len(rotation_item_writer(), records);
        assert(list.len() > close.len());
        lemma_list_reads_back(
            rotation_item_writer(),
            rotation_item_reader(),
            close,
            records,
            list.len(),
        );
    }
}

/// A prepared rotation: what the rotation endpoint is sent, and what the
/// vault takes over once the server has accepted it.
pub struct Rotation {
    token: String,
    hashed_passphrase: String,
    keys: Vec<KeyRecord>,
    payload: String,
    root_key: Vec<u8>,
}

impl Rotation {
    #[verifier::type_invariant]
    spec fn inv(&self) -> bool {
        distinct_keys(record_pairs(self.keys@))
    }

    /// The token that identifies this batch.
    pub closed spec fn token_text(&self) -> Seq<char> {
        self.token@
    }

    /// The hashed passphrase of the new credentials.
    pub closed spec fn hashed_text(&self) -> Seq<char> {
        self.hashed_passphrase@
    }

    /// The request for the rotation endpoint.
    pub closed spec fn payload_text(&self) -> Seq<char> {
        self.payload@
    }

    /// Every key of the vault, wrapped under the new root key.
    pub closed spec fn records(&self) -> Seq<Pair> {
        record_pairs(self.keys@)
    }

    /// The root key of the new credentials.
    pub closed spec fn new_root(&self) -> Seq<u8> {
        self.root_key@
    }

    /// The token that identifies this batch.
    pub fn token(&self) -> (r: &String)
        ensures
            r@ == self.token_text(),
    {
        &self.token
    }

    /// The hashed passphrase of the new credentials.
    pub fn hashed_passphrase(&self) -> (r: &String)
        ensures
            r@ == self.hashed_text(),
    {
        &self.hashed_passphrase
    }

    /// The request for the rotation endpoint.
    pub fn payload(&self) -> (r: &String)
        ensures
            r@ == self.payload_text(),
    {
        &self.payload
    }

    /// The re-wrapped keys. No identifier occurs twice.
    pub fn keys(&self) -> (r: &Vec<KeyRecord>)
        ensures
            record_pairs(r@) == self.records(),
            distinct_keys(self.records()),
    {
        proof {
            use_type_invariant(self);
        }
        &self.keys
    }
}

/// Every key opens under the root key.
pub open spec fn all_open(root_key: Seq<u8>, keys: Seq<Pair>) -> bool {
    forall|i: int| 0 <= i < keys.len() ==> opened_text((#[trigger] keys[i]).1, root_key) is Some
}

/// `after` holds the keys of `before` under the same identifiers, in the
/// same order, and each opens under the new root key to what it opened to
/// under the old one.
pub open spec fn rewrapped(
    old_root: Seq<u8>,
    new_root: Seq<u8>,
    before: Seq<Pair>,
    after: Seq<Pair>,
) -> bool {
    &&& after.len() == before.len()
    &&& forall|i: int|
        0 <= i < before.len() ==> {
            &&& (#[trigger] after[i]).0 == before[i].0
            &&& opened_text(before[i].1, old_root) is Some
            &&& opened_text(after[i].1, new_root) == opened_text(before[i].1, old_root)
        }
}

/// A key of the vault sealed again: what it opens to under the old root
/// key, sealed under the new one with the given nonce.
pub open spec fn resealed(old_root: Seq<u8>, new_root: Seq<u8>, record: Pair, nonce: Seq<u8>) -> Option<
    Seq<char>,
> {
    match opened_text(record.1, old_root) {
        Some(plaintext) => sealed_text(plaintext, new_root, nonce),
        None => None,
    }
}

/// There is a nonce for the token and one for each key, each of the right
/// length, and the cipher seals every key again.
pub open spec fn all_reseal(
    old_root: Seq<u8>,
    new_root: Seq<u8>,
    keys: Seq<Pair>,
    token_nonce: Seq<u8>,
    nonces: Seq<Vec<u8>>,
) -> bool {
    &&& token_nonce.len() == NONCE_LEN
    &&& nonces.len() == keys.len()
    &&& forall|i: int|
        0 <= i < keys.len() ==> resealed(old_root, new_root, #[trigger] keys[i], nonces[i]@)
            is Some
}

/// After a rotation every key is still there and still means the same:
/// what an identifier gave under the old root key, it gives under the new
/// one from the re-wrapped keys.
pub proof fn lemma_rotation_preserves_keys(
    old_root: Seq<u8>,
    new_root: Seq<u8>,
    before: Seq<Pair>,
    after: Seq<Pair>,
    id: Seq<char>,
)
    requires
        distinct_keys(before),
        rewrapped(old_root, new_root, before, after),
    ensures
        distinct_keys(after),
        key_material(Some(new_root), after, id) == key_material(Some(old_root), before, id),
        has_key(before, id) ==> key_material(Some(new_root), after, id) is Ok,
{
    assert forall|i: int, j: int|
        0 <= i < after.len() && 0 <= j < after.len() && i != j implies (#[trigger] after[i]).0 != (
    #[trigger] after[j]).0 by {
        assert(after[i].0 == before[i].0);
        assert(after[j].0 == before[j].0);
    }
    if has_key(before, id) {
        let at = choose|at: int| key_at(before, id, at);
        assert(after[at].0 == before[at].0);
        assert(key_at(after, id, at));
        lemma_value_at(before, at);
        lemma_value_at(after, at);
    } else if has_key(after, id) {
        let at = choose|at: int| key_at(after, id, at);
        assert(after[at].0 == before[at].0);
        assert(key_at(before, id, at));
    }
}

impl KeyStore {
    /// The root key, present while the vault is unlocked.
    pub closed spec fn root_key(&self) -> Option<Seq<u8>> {
        match self.inner.root_key {
            Some(key) => Some(key@),
            None => None,
        }
    }

    /// The wrapped keys: identifier and ciphertext, in order of arrival.
    pub closed spec fn keys(&self) -> Seq<Pair> {
        self.inner.keys.pairs()
    }

    /// The manifest: name and identifier, in order of arrival.
    pub closed spec fn manifest(&self) -> Seq<Pair> {
        self.inner.manifest.pairs()
    }

    /// A locked vault that holds nothing.
    pub fn new() -> (r: KeyStore)
        ensures
            r.root_key() is None,
            r.keys() == Seq::<Pair>::empty(),
            r.manifest() == Seq::<Pair>::empty(),
    {
        KeyStore { inner: KeyStoreInner { root_key: None, keys: Table::new(), manifest: Table::new() } }
    }

    /// Unlocks the vault: derives the root key of the credentials, keeps
    /// it, and returns the hashed passphrase.
    ///
    /// Where the derivation fails the vault stays as it was.
    pub fn open_sesame(&mut self, email: String, passphrase: String) -> (r: Result<
        String,
        VaultError,
    >)
        ensures
            final(self).keys() == old(self).keys(),
            final(self).manifest() == old(self).manifest(),
            match derived_keys(email@, passphrase@) {
                Some((root_key, hashed)) => {
                    &&& r matches Ok(out) && out@ == hashed
                    &&& final(self).root_key() == Some(root_key)
                },
                None => {
                    &&& r == Err::<String, VaultError>(VaultError::Derivation)
                    &&& final(self).root_key() == old(self).root_key()
                },
            },
    {
        match derive_keys(&email, &passphrase) {
            Ok((root_key, hashed)) => {
                self.inner.root_key = Some(root_key);
                Ok(hashed)
            },
            Err(_) => Err(VaultError::Derivation),
        }
    }

    /// The hashed passphrase of the credentials. The vault is not touched.
    pub fn get_hashed_passphrase(&self, email: String, passphrase: String) -> (r: Result<
        String,
        VaultError,
    >)
        ensures
            match derived_keys(email@, passphrase@) {
                Some((_, hashed)) => r matches Ok(out) && out@ == hashed,
                None => r == Err::<String, VaultError>(VaultError::Derivation),
            },
    {
        match derive_keys(&email, &passphrase) {
            Ok((_, hashed)) => Ok(hashed),
            Err(_) => Err(VaultError::Derivation),
        }
    }

    /// Whether the vault is locked.
    pub fn is_locked(&self) -> (r: bool)
        ensures
            r == (self.root_key() is None),
    {
        self.inner.root_key.is_none()
    }

    /// Seals a text under the root key, with a fresh nonce.
    pub fn encrypt_key(&self, plaintext: &String) -> (r: Result<String, VaultError>)
        ensures
            match self.root_key() {
                None => r == Err::<String, VaultError>(VaultError::Configuration),
                Some(key) => match r {
                    Ok(out) => opened_text(out@, key) == Some(plaintext@) && exists|
                        nonce: Seq<u8>,
                    | #[trigger] sealed_text(plaintext@, key, nonce) == Some(out@),
                    Err(e) => e == VaultError::Entropy || e == VaultError::Encryption,
                },
            },
    {
        match &self.inner.root_key {
            None => Err(VaultError::Configuration),
            Some(key) => encrypt_custom(plaintext, key.as_slice()),
        }
    }

    /// Opens a sealed text with the root key.
    pub fn decrypt_key(&self, ciphertext: &String) -> (r: Result<String, VaultError>)
        ensures
            text_is(r, opened_under(self.root_key(), ciphertext@)),
    {
        match &self.inner.root_key {
            None => Err(VaultError::Configuration),
            Some(key) => decrypt_custom(ciphertext, key.as_slice()),
        }
    }

    /// The plaintext of the key with the given identifier.
    ///
    /// `NotFound` where the vault holds no such key; else `Configuration`
    /// where it is locked; else `Decryption` where the stored ciphertext
    /// does not open under the root key.
    pub fn get_key(&self, id: String) -> (r: Result<String, VaultError>)
        ensures
            text_is(r, key_material(self.root_key(), self.keys(), id@)),
    {
        match self.inner.keys.get(&id) {
            None => Err(VaultError::NotFound),
            Some(ciphertext) => self.decrypt_key(ciphertext),
        }
    }

    /// The plaintext of the key with the given name.
    ///
    /// `NotFound` where the manifest has no such name, or names a key that
    /// the vault does not hold.
    pub fn get_named_key(&self, name: String) -> (r: Result<String, VaultError>)
        ensures
            text_is(
                r,
                named_key_material(self.root_key(), self.keys(), self.manifest(), name@),
            ),
    {
        match self.inner.manifest.get(&name) {
            None => Err(VaultError::NotFound),
            Some(id) => self.get_key(id.clone()),
        }
    }
    /// Takes in what the key server holds: every record and every manifest
    /// entry is put in turn, a later one replacing an earlier one with the
    /// same identifier or name.
    pub fn init(&mut self, keys: Vec<KeyRecord>, manifest: Vec<ManifestEntry>)
        ensures
            final(self).root_key() == old(self).root_key(),
            final(self).keys() == put_all(old(self).keys(), record_pairs(keys@)),
            final(self).manifest() == put_all(old(self).manifest(), manifest_pairs(manifest@)),
    {
        let ghost all_keys = record_pairs(keys@);
        let ghost all_names = manifest_pairs(manifest@);
        let mut i: usize = 0;
        while i < keys.len()
            invariant
                i <= keys.len(),
                all_keys == record_pairs(keys@),
                self.root_key() == old(self).root_key(),
                self.manifest() == old(self).manifest(),
                self.keys() == put_all(old(self).keys(), all_keys.take(i as int)),
            decreases keys.len() - i,
        {
            proof {
                assert(all_keys.take(i + 1).drop_last() =~= all_keys.take(i as int));
                assert(all_keys.take(i + 1).last() == keys@[i as int].pair());
            }
            self.inner.keys.insert(keys[i].key_id.clone(), keys[i].ciphertext.clone());
            i = i + 1;
        }
        assert(all_keys.take(keys.len() as int) =~= all_keys);
        let mut j: usize = 0;
        while j < manifest.len()
            invariant
                j <= manifest.len(),
                all_names == manifest_pairs(manifest@),
                self.root_key() == old(self).root_key(),
                self.keys() == put_all(old(self).keys(), all_keys),
                self.manifest() == put_all(old(self).manifest(), all_names.take(j as int)),
            decreases manifest.len() - j,
        {
            proof {
                assert(all_names.take(j + 1).drop_last() =~= all_names.take(j as int));
                assert(all_names.take(j + 1).last() == manifest@[j as int].pair());
            }
            self.inner.manifest.insert(manifest[j].name.clone(), manifest[j].key_id.clone());
            j = j + 1;
        }
        assert(all_names.take(manifest.len() as int) =~= all_names);
    }

    /// The manifest, entry by entry. No name occurs twice.
    pub fn get_manifest(&self) -> (r: Vec<ManifestEntry>)
        ensures
            manifest_pairs(r@) == self.manifest(),
            distinct_keys(self.manifest()),
    {
        let mut out: Vec<ManifestEntry> = Vec::new();
        let mut i: usize = 0;
        while i < self.inner.manifest.len()
            invariant
                i <= self.manifest().len(),
                out@.len() == i,
                forall|k: int| 0 <= k < i ==> (#[trigger] out@[k]).pair() == self.manifest()[k],
            decreases self.manifest().len() - i,
        {
            out.push(
                ManifestEntry {
                    name: self.inner.manifest.key(i).clone(),
                    key_id: self.inner.manifest.value(i).clone(),
                },
            );
            i = i + 1;
        }
        assert(manifest_pairs(out@) =~= self.manifest());
        out
    }

    /// The wrapped keys, record by record. No identifier occurs twice.
    pub fn get_keys(&self) -> (r: Vec<KeyRecord>)
        ensures
            record_pairs(r@) == self.keys(),
            distinct_keys(self.keys()),
    {
        let mut out: Vec<KeyRecord> = Vec::new();
        let mut i: usize = 0;
        while i < self.inner.keys.len()
            invariant
                i <= self.keys().len(),
                out@.len() == i,
                forall|k: int| 0 <= k < i ==> (#[trigger] out@[k]).pair() == self.keys()[k],
            decreases self.keys().len() - i,
        {
            out.push(
                KeyRecord {
                    key_id: self.inner.keys.key(i).clone(),
                    ciphertext: self.inner.keys.value(i).clone(),
                },
            );
            i = i + 1;
        }
        assert(record_pairs(out@) =~= self.keys());
        out
    }

    /// The upload request for given key material, sealed with a given
    /// nonce: the material is written in hexadecimal and sealed under the
    /// root key, and opens under it to that text again.
    pub fn key_upload(&self, material: &[u8], nonce: &[u8]) -> (r: Result<String, VaultError>)
        ensures
            match self.root_key() {
                None => r == Err::<String, VaultError>(VaultError::Configuration),
                Some(key) => match sealed_text(hex_text(material@), key, nonce@) {
                    Some(ciphertext) => {
                        &&& r matches Ok(body) && body@ == key_upload_body(ciphertext)
                            && read_key_upload(body@) == Some(ciphertext)
                        &&& opened_text(ciphertext, key) == Some(hex_text(material@))
                    },
                    None => r == Err::<String, VaultError>(VaultError::Encryption),
                },
            },
    {
        match &self.inner.root_key {
            None => Err(VaultError::Configuration),
            Some(key) => {
                let plaintext = hex_encode(material);
                match encrypt_with_nonce(&plaintext, key.as_slice(), nonce) {
                    Err(_) => Err(VaultError::Encryption),
                    Ok(ciphertext) => {
                        proof {
                            lemma_key_upload_reads_back(ciphertext@);
                        }
                        let mut body = String::from_str("{\"ciphertext\": ");
                        body.append(json_quote(ciphertext.as_str()).as_str());
                        body.append("}");
                        Ok(body)
                    },
                }
            },
        }
    }

    /// The upload request for a new key: fresh random key material, in
    /// hexadecimal, sealed under the root key with a fresh nonce. The
    /// ciphertext in it opens under the root key to that material.
    ///
    /// A locked vault asks for no random bytes and answers
    /// `Configuration`.
    pub fn generate_key(&self) -> (r: Result<String, VaultError>)
        ensures
            match self.root_key() {
                None => r == Err::<String, VaultError>(VaultError::Configuration),
                Some(key) => match r {
                    Ok(body) => exists|material: Seq<u8>, nonce: Seq<u8>|
                        {
                            &&& material.len() == KEY_LEN
                            &&& nonce.len() == NONCE_LEN
                            &&& #[trigger] sealed_text(hex_text(material), key, nonce) matches Some(
                                ciphertext,
                            ) && body@ == key_upload_body(ciphertext) && read_key_upload(body@)
                                == Some(ciphertext) && opened_text(ciphertext, key) == Some(
                                hex_text(material),
                            )
                        },
                    Err(e) => e == VaultError::Entropy || e == VaultError::Encryption,
                },
            },
    {
        if self.is_locked() {
            return Err(VaultError::Configuration);
        }
        let material = match gen_key() {
            Err(_) => {
                return Err(VaultError::Entropy);
            },
            Ok(material) => material,
        };
        let nonce = match gen_nonce() {
            Err(_) => {
                return Err(VaultError::Entropy);
            },
            Ok(nonce) => nonce,
        };
        let r = self.key_upload(material.as_slice(), nonce.as_slice());
        proof {
            let _ = sealed_text(hex_text(material@), self.root_key()->0, nonce@);
        }
        r
    }

    /// Keeps a key that the server accepted, under the identifier that the
    /// server gave it, and returns the identifier.
    pub fn record_key(&mut self, key_id: String, ciphertext: String) -> (r: String)
        ensures
            r@ == key_id@,
            final(self).root_key() == old(self).root_key(),
            final(self).manifest() == old(self).manifest(),
            final(self).keys() == put(old(self).keys(), key_id@, ciphertext@),
    {
        let r = key_id.clone();
        self.inner.keys.insert(key_id, ciphertext);
        r
    }

    /// The document that replaces the manifest on the key server. It
    /// reads back to the manifest as the vault holds it.
    pub fn manifest_document(&self) -> (r: String)
        ensures
            r@ == manifest_body(self.manifest()),
            read_manifest(r@) == Some(self.manifest()),
    {
        proof {
            lemma_manifest_reads_back(self.manifest());
        }
        let ghost items = manifest_items(self.manifest());
        let mut list = String::new();
        let mut i: usize = 0;
        while i < self.inner.manifest.len()
            invariant
                i <= self.manifest().len(),
                items == manifest_items(self.manifest()),
                list@ == joined(items.take(i as int), ","@),
            decreases self.manifest().len() - i,
        {
            let mut item = json_quote(self.inner.manifest.key(i).as_str());
            item.append(": ");
            item.append(json_quote(self.inner.manifest.value(i).as_str()).as_str());
            proof {
                lemma_joined_step(items, ","@, i as int);
                assert(item@ == items[i as int]);
                if i == 0 {
                    assert(list@ =~= Seq::<char>::empty());
                    assert(list@ + item@ =~= item@);
                }
            }
            join_push(&mut list, i == 0, ",", item.as_str());
            i = i + 1;
        }
        assert(items.take(items.len() as int) =~= items);
        let mut body = String::from_str("{\"manifest\": { ");
        body.append(list.as_str());
        body.append(" } }");
        body
    }

    /// Names a key: the manifest maps `name` to `key_id` from now on, and
    /// the result is the document that replaces the manifest on the key
    /// server. The document reads back to the manifest, the name exactly
    /// as it was given.
    ///
    /// A locked vault answers `Configuration` and keeps its manifest.
    pub fn create_named_key(&mut self, name: String, key_id: String) -> (r: Result<
        String,
        VaultError,
    >)
        ensures
            final(self).root_key() == old(self).root_key(),
            final(self).keys() == old(self).keys(),
            match old(self).root_key() {
                None => {
                    &&& r == Err::<String, VaultError>(VaultError::Configuration)
                    &&& final(self).manifest() == old(self).manifest()
                },
                Some(_) => {
                    &&& final(self).manifest() == put(old(self).manifest(), name@, key_id@)
                    &&& r matches Ok(body) && body@ == manifest_body(final(self).manifest())
                        && read_manifest(body@) == Some(final(self).manifest())
                },
            },
    {
        if self.is_locked() {
            return Err(VaultError::Configuration);
        }
        self.inner.manifest.insert(name, key_id);
        Ok(self.manifest_document())
    }

    /// Prepares the change to new credentials with given nonces: every
    /// key of the vault is opened under the root key and sealed again
    /// under the root key of the new credentials, key `i` with nonce `i`,
    /// and the batch is written up for the rotation endpoint under the
    /// token made of `token_nonce`. The vault itself is not changed.
    ///
    /// `Configuration` where the vault is locked; else `Derivation` where
    /// the new credentials cannot be hashed; else `Decryption` where some
    /// key does not open; else `Encryption` where a nonce is missing or of
    /// the wrong length, or the cipher refuses a key. On everything else
    /// the rotation is made, and it is a function of the arguments.
    pub fn rotation_with(
        &self,
        email: &String,
        passphrase: &String,
        token_nonce: &[u8],
        nonces: &Vec<Vec<u8>>,
    ) -> (r: Result<Rotation, VaultError>)
        ensures
            match self.root_key() {
                None => r matches Err(e) && e == VaultError::Configuration,
                Some(old_root) => match derived_keys(email@, passphrase@) {
                    None => r matches Err(e) && e == VaultError::Derivation,
                    Some((new_root, hashed)) => if !all_open(old_root, self.keys()) {
                        r matches Err(e) && e == VaultError::Decryption
                    } else if !all_reseal(old_root, new_root, self.keys(), token_nonce@, nonces@) {
                        r matches Err(e) && e == VaultError::Encryption
                    } else {
                        r matches Ok(rotation) && {
                            &&& distinct_keys(self.keys())
                            &&& rotation.new_root() == new_root
                            &&& rotation.hashed_text() == hashed
                            &&& rotation.token_text() == base64_text(token_nonce@)
                            &&& rotation.records().len() == self.keys().len()
                            &&& forall|i: int|
                                0 <= i < self.keys().len() ==> #[trigger] rotation.records()[i] == (
                                    self.keys()[i].0,
                                    resealed(old_root, new_root, self.keys()[i], nonces@[i]@)->0,
                                )
                            &&& rewrapped(old_root, new_root, self.keys(), rotation.records())
                            &&& rotation.payload_text() == rotation_body(
                                rotation.token_text(),
                                rotation.records(),
                            )
                            &&& read_rotation(rotation.payload_text()) == Some(
                                (rotation.token_text(), rotation.records()),
                            )
                        }
                    },
                },
            },
    {
        let old_root = match &self.inner.root_key {
            None => {
                return Err(VaultError::Configuration);
            },
            Some(key) => key,
        };
        let (new_root, hashed_passphrase) = match derive_keys(email, passphrase) {
            Err(_) => {
                return Err(VaultError::Derivation);
            },
            Ok(derived) => derived,
        };
        let count = self.inner.keys.len();
        let mut plaintexts: Vec<String> = Vec::new();
        let mut i: usize = 0;
        while i < count
            invariant
                i <= count,
                count == self.keys().len(),
                self.root_key() == Some(old_root@),
                derived_keys(email@, passphrase@) == Some((new_root@, hashed_passphrase@)),
                plaintexts@.len() == i,
                forall|k: int|
                    0 <= k < i ==> opened_text((#[trigger] self.keys()[k]).1, old_root@) == Some(
                        plaintexts@[k]@,
                    ),
            decreases count - i,
        {
            match decrypt_custom(self.inner.keys.value(i), old_root.as_slice()) {
                Err(_) => {
                    assert(!all_open(old_root@, self.keys())) by {
                        assert(opened_text(self.keys()[i as int].1, old_root@) is None);
                    }
                    return Err(VaultError::Decryption);
                },
                Ok(plaintext) => {
                    plaintexts.push(plaintext);
                },
            }
            i = i + 1;
        }
        assert(all_open(old_root@, self.keys())) by {
            assert forall|k: int| 0 <= k < self.keys().len() implies opened_text(
                (#[trigger] self.keys()[k]).1,
                old_root@,
            ) is Some by {
                assert(opened_text(self.keys()[k].1, old_root@) == Some(plaintexts@[k]@));
            }
        }
        if token_nonce.len() != NONCE_LEN || nonces.len() != count {
            return Err(VaultError::Encryption);
        }
        let mut keys: Vec<KeyRecord> = Vec::new();
        let mut list = String::new();
        let mut j: usize = 0;
        while j < count
            invariant
                j <= count,
                count == self.keys().len(),
                nonces@.len() == count,
                token_nonce@.len() == NONCE_LEN,
                self.root_key() == Some(old_root@),
                derived_keys(email@, passphrase@) == Some((new_root@, hashed_passphrase@)),
                all_open(old_root@, self.keys()),
                distinct_keys(self.keys()),
                plaintexts@.len() == count,
                forall|k: int|
                    0 <= k < count ==> opened_text((#[trigger] self.keys()[k]).1, old_root@)
                        == Some(plaintexts@[k]@),
                keys@.len() == j,
                forall|k: int|
                    0 <= k < j ==> {
                        &&& (#[trigger] keys@[k]).key_id@ == self.keys()[k].0
                        &&& resealed(old_root@, new_root@, self.keys()[k], nonces@[k]@) == Some(
                            keys@[k].ciphertext@,
                        )
                        &&& opened_text(keys@[k].ciphertext@, new_root@) == Some(plaintexts@[k]@)
                    },
                list@ == joined(rotation_items(record_pairs(keys@)), ","@),
            decreases count - j,
        {
            let ciphertext = match encrypt_with_nonce(
                &plaintexts[j],
                new_root.as_slice(),
                nonces[j].as_slice(),
            ) {
                Err(_) => {
                    assert(!all_reseal(
                        old_root@,
                        new_root@,
                        self.keys(),
                        token_nonce@,
                        nonces@,
                    )) by {
                        assert(resealed(
                            old_root@,
                            new_root@,
                            self.keys()[j as int],
                            nonces@[j as int]@,
                        ) is None);
                    }
                    return Err(VaultError::Encryption);
                },
                Ok(ciphertext) => ciphertext,
            };
            let key_id = self.inner.keys.key(j).clone();
            let item = concat5(
                "{\"key_id\": ",
                json_quote(key_id.as_str()).as_str(),
                ", \"ciphertext\": ",
                json_quote(ciphertext.as_str()).as_str(),
                "}",
            );
            let ghost before = rotation_items(record_pairs(keys@));
            keys.push(KeyRecord { key_id, ciphertext });
            proof {
                let after = rotation_items(record_pairs(keys@));
                assert(after.drop_last() =~= before);
                assert(after.last() == item@);
                if j == 0 {
                    assert(list@ =~= Seq::<char>::empty());
                    assert(list@ + item@ =~= item@);
                }
            }
            join_push(&mut list, j == 0, ",", item.as_str());
            j = j + 1;
        }
        let token = base64_encode(token_nonce);
        let payload = concat5(
            "{\"token\": ",
            json_quote(token.as_str()).as_str(),
            ", \"keys\": [",
            list.as_str(),
            "]}",
        );
        proof {
            let after = record_pairs(keys@);
            assert forall|k: int| 0 <= k < count implies {
                &&& (#[trigger] after[k]).0 == self.keys()[k].0
                &&& opened_text(self.keys()[k].1, old_root@) is Some
                &&& opened_text(after[k].1, new_root@) == opened_text(self.keys()[k].1, old_root@)
                &&& after[k] == (
                    self.keys()[k].0,
                    resealed(old_root@, new_root@, self.keys()[k], nonces@[k]@)->0,
                )
            } by {
                assert(after[k] == keys@[k].pair());
                assert(opened_text(self.keys()[k].1, old_root@) == Some(plaintexts@[k]@));
            }
            assert(all_reseal(old_root@, new_root@, self.keys(), token_nonce@, nonces@)) by {
                assert forall|k: int| 0 <= k < self.keys().len() implies resealed(
                    old_root@,
                    new_root@,
                    #[trigger] self.keys()[k],
                    nonces@[k]@,
                ) is Some by {
                    assert(keys@[k].key_id@ == self.keys()[k].0);
                }
            }
            lemma_rotation_reads_back(token@, after);
            assert(distinct_keys(after)) by {
                assert forall|a: int, b: int|
                    0 <= a < after.len() && 0 <= b < after.len() && a != b implies (
                #[trigger] after[a]).0 != (#[trigger] after[b]).0 by {
                    assert(after[a].0 == self.keys()[a].0);
                    assert(after[b].0 == self.keys()[b].0);
                }
            }
        }
        Ok(Rotation { token, hashed_passphrase, keys, payload, root_key: new_root })
    }

    /// Prepares the change to new credentials: draws a fresh nonce for
    /// the token and one for each key, and makes the rotation with them.
    /// The vault itself is not changed before `apply_rotation` takes the
    /// result over.
    ///
    /// `Configuration` where the vault is locked; else `Derivation` where
    /// the new credentials cannot be hashed; else `Decryption` where some
    /// key does not open. After that only the random source or the cipher
    /// can fail.
    pub fn rotate_keys(&self, email: String, passphrase: String) -> (r: Result<
        Rotation,
        VaultError,
    >)
        ensures
            match self.root_key() {
                None => r matches Err(e) && e == VaultError::Configuration,
                Some(old_root) => match derived_keys(email@, passphrase@) {
                    None => r matches Err(e) && e == VaultError::Derivation,
                    Some((new_root, hashed)) => if !all_open(old_root, self.keys()) {
                        r matches Err(e) && e == VaultError::Decryption
                    } else {
                        match r {
                            Ok(rotation) => {
                                &&& distinct_keys(self.keys())
                                &&& rotation.new_root() == new_root
                                &&& rotation.hashed_text() == hashed
                                &&& rewrapped(old_root, new_root, self.keys(), rotation.records())
                                &&& rotation.payload_text() == rotation_body(
                                    rotation.token_text(),
                                    rotation.records(),
                                )
                                &&& read_rotation(rotation.payload_text()) == Some(
                                    (rotation.token_text(), rotation.records()),
                                )
                                &&& exists|nonce: Seq<u8>|
                                    nonce.len() == NONCE_LEN && rotation.token_text()
                                        == #[trigger] base64_text(nonce)
                            },
                            Err(e) => e == VaultError::Entropy || e == VaultError::Encryption,
                        }
                    },
                },
            },
    {
        if self.is_locked() {
            return Err(VaultError::Configuration);
        }
        let drawn = match gen_nonce() {
            Err(_) => None,
            Ok(token_nonce) => match gen_nonces(self.inner.keys.len()) {
                Err(_) => None,
                Ok(nonces) => Some((token_nonce, nonces)),
            },
        };
        match drawn {
            Some((token_nonce, nonces)) => {
                let r = self.rotation_with(&email, &passphrase, token_nonce.as_slice(), &nonces);
                proof {
                    if r is Ok {
                        assert(r->Ok_0.token_text() == base64_text(token_nonce@));
                    }
                }
                r
            },
            None => {
                // without nonces nothing is sealed: what is left to tell is
                // whether the vault and the credentials were in order
                let none: Vec<u8> = Vec::new();
                let nonces: Vec<Vec<u8>> = Vec::new();
                match self.rotation_with(&email, &passphrase, none.as_slice(), &nonces) {
                    Err(VaultError::Encryption) => Err(VaultError::Entropy),
                    Err(e) => Err(e),
                    Ok(_) => Err(VaultError::Entropy),
                }
            },
        }
    }

    /// Takes a rotation over, once the server has accepted it: the vault
    /// holds the root key of the new credentials and the re-wrapped keys
    /// from now on. The manifest stays.
    pub fn apply_rotation(&mut self, rotation: Rotation)
        ensures
            final(self).root_key() == Some(rotation.new_root()),
            final(self).keys() == rotation.records(),
            final(self).manifest() == old(self).manifest(),
    {
        proof {
            use_type_invariant(&rotation);
        }
        let ghost all = rotation.records();
        let mut keys = Table::new();
        let mut i: usize = 0;
        while i < rotation.keys.len()
            invariant
                i <= rotation.keys.len(),
                all == record_pairs(rotation.keys@),
                distinct_keys(all),
                keys.pairs() == all.take(i as int),
            decreases rotation.keys.len() - i,
        {
            proof {
                let key = all[i as int].0;
                assert(!has_key(all.take(i as int), key)) by {
                    assert forall|at: int| !key_at(all.take(i as int), key, at) by {
                        if 0 <= at < i {
                            assert(all.take(i as int)[at] == all[at]);
                        }
                    }
                }
                assert(all.take(i as int).push(all[i as int]) =~= all.take(i + 1));
            }
            keys.insert(rotation.keys[i].key_id.clone(), rotation.keys[i].ciphertext.clone());
            i = i + 1;
        }
        assert(all.take(rotation.keys.len() as int) =~= all);
        self.inner.keys = keys;
        self.inner.root_key = Some(rotation.root_key);
    }
}

} // verus!
