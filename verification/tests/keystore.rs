use key_x::error::VaultError;
use key_x::keystore::{KeyRecord, KeyStore, ManifestEntry};

fn text(s: &str) -> String {
    s.to_string()
}

#[test]
fn test_key_x() {
    let mut key_x = KeyStore::new();
    key_x
        .open_sesame("hello@pixelcities.io".to_string(), "passphrase".to_string())
        .unwrap();

    let key = key_x.encrypt_key(&"secret".to_string());
    assert!(key.is_ok());
    let output = "Bas52beOECLMh+sr:ER+eJfhHdtE6qkUhrDlVfeiOqkoevw==".to_string();
    let decrypted = key_x.decrypt_key(&output).unwrap();

    assert_eq!("secret", decrypted);
}

#[test]
fn new_vault_is_locked_and_empty() {
    let vault = KeyStore::new();
    assert!(vault.is_locked());
    assert!(vault.get_manifest().is_empty());
    assert!(vault.get_keys().is_empty());
}

#[test]
fn unlock_yields_hashed_passphrase_and_unlocks() {
    let mut vault = KeyStore::new();
    let hashed = vault
        .open_sesame(text("hello@pixelcities.io"), text("passphrase"))
        .unwrap();
    assert!(!vault.is_locked());
    // 32 bytes in padded Base64
    assert_eq!(hashed.len(), 44);
    let again = vault
        .get_hashed_passphrase(text("hello@pixelcities.io"), text("passphrase"))
        .unwrap();
    assert_eq!(hashed, again);
}

#[test]
fn derivation_is_deterministic_across_vaults() {
    let mut a = KeyStore::new();
    let mut b = KeyStore::new();
    let ha = a.open_sesame(text("alice@example.org"), text("correct horse")).unwrap();
    let hb = b.open_sesame(text("alice@example.org"), text("correct horse")).unwrap();
    assert_eq!(ha, hb);
    let sealed = a.encrypt_key(&text("material")).unwrap();
    assert_eq!(b.decrypt_key(&sealed).unwrap(), "material");
}

#[test]
fn changed_credentials_change_both_values() {
    let mut a = KeyStore::new();
    let mut b = KeyStore::new();
    let mut c = KeyStore::new();
    let ha = a.open_sesame(text("alice@example.org"), text("passphrase-1")).unwrap();
    let hb = b.open_sesame(text("alice@example.org"), text("passphrase-2")).unwrap();
    let hc = c.open_sesame(text("bobby@example.org"), text("passphrase-1")).unwrap();
    assert_ne!(ha, hb);
    assert_ne!(ha, hc);
    let sealed = a.encrypt_key(&text("material")).unwrap();
    assert_eq!(b.decrypt_key(&sealed), Err(VaultError::Decryption));
    assert_eq!(c.decrypt_key(&sealed), Err(VaultError::Decryption));
}

#[test]
fn short_credentials_are_refused() {
    let mut vault = KeyStore::new();
    assert_eq!(
        vault.open_sesame(text("a@x.io"), text("passphrase")),
        Err(VaultError::Derivation)
    );
    assert!(vault.is_locked());
    assert_eq!(
        vault.get_hashed_passphrase(text("alice@example.org"), text("pw1")),
        Err(VaultError::Derivation)
    );
}

#[test]
fn locked_vault_refuses_to_seal_and_open() {
    let vault = KeyStore::new();
    assert_eq!(vault.encrypt_key(&text("secret")), Err(VaultError::Configuration));
    assert_eq!(
        vault.decrypt_key(&text("Bas52beOECLMh+sr:ER+eJfhHdtE6qkUhrDlVfeiOqkoevw==")),
        Err(VaultError::Configuration)
    );
    assert_eq!(vault.generate_key(), Err(VaultError::Configuration));
    assert_eq!(
        vault.key_upload(&[0u8; 32], &[0u8; 12]),
        Err(VaultError::Configuration)
    );
}

#[test]
fn tampered_ciphertext_is_refused() {
    let mut vault = KeyStore::new();
    vault.open_sesame(text("hello@pixelcities.io"), text("passphrase")).unwrap();
    for bad in [
        "Bas52beOECLMh+sr:ER+eJfhHdtE6qkUhrDlVfeiOqkoevg==",
        "Bas52beOECLMh+ss:ER+eJfhHdtE6qkUhrDlVfeiOqkoevw==",
        "Bas52beOECLMh+srER+eJfhHdtE6qkUhrDlVfeiOqkoevw==",
        "Bas52beOECLM:ER+eJfhHdtE6qkUhrDlVfeiOqkoevw==",
        "Bas52beOECLMh+sr:ER+eJfhHdtE6qkUhrDlVfeiOqkoevw==:",
        "Bas52beOECLMh+sr:",
        ":",
        "",
        "Bäs52beOECLMh+sr:ER+eJfhHdtE6qkUhrDlVfeiOqkoevw==",
    ] {
        assert_eq!(vault.decrypt_key(&text(bad)), Err(VaultError::Decryption), "{}", bad);
    }
}

#[test]
fn get_key_reports_missing_then_locked() {
    let mut vault = KeyStore::new();
    assert_eq!(vault.get_key(text("k1")), Err(VaultError::NotFound));
    assert_eq!(vault.get_named_key(text("db")), Err(VaultError::NotFound));
    vault.init(
        vec![KeyRecord {
            key_id: text("k1"),
            ciphertext: text("Bas52beOECLMh+sr:ER+eJfhHdtE6qkUhrDlVfeiOqkoevw=="),
        }],
        vec![
            ManifestEntry { name: text("db"), key_id: text("k1") },
            ManifestEntry { name: text("gone"), key_id: text("k9") },
        ],
    );
    assert_eq!(vault.get_key(text("k1")), Err(VaultError::Configuration));
    assert_eq!(vault.get_named_key(text("db")), Err(VaultError::Configuration));
    assert_eq!(vault.get_named_key(text("gone")), Err(VaultError::NotFound));
    vault.open_sesame(text("hello@pixelcities.io"), text("passphrase")).unwrap();
    assert_eq!(vault.get_key(text("k1")).unwrap(), "secret");
    assert_eq!(vault.get_named_key(text("db")).unwrap(), "secret");
    assert_eq!(vault.get_key(text("k2")), Err(VaultError::NotFound));
}

#[test]
fn init_lets_later_records_replace_earlier_ones() {
    let mut vault = KeyStore::new();
    vault.init(
        vec![
            KeyRecord { key_id: text("k1"), ciphertext: text("one") },
            KeyRecord { key_id: text("k2"), ciphertext: text("two") },
            KeyRecord { key_id: text("k1"), ciphertext: text("three") },
        ],
        vec![
            ManifestEntry { name: text("a"), key_id: text("k1") },
            ManifestEntry { name: text("a"), key_id: text("k2") },
        ],
    );
    let keys = vault.get_keys();
    assert_eq!(keys.len(), 2);
    assert_eq!(keys[0].key_id, "k1");
    assert_eq!(keys[0].ciphertext, "three");
    assert_eq!(keys[1].key_id, "k2");
    assert_eq!(keys[1].ciphertext, "two");
    let manifest = vault.get_manifest();
    assert_eq!(manifest.len(), 1);
    assert_eq!(manifest[0].name, "a");
    assert_eq!(manifest[0].key_id, "k2");
}

#[test]
fn key_upload_is_exact_for_given_material() {
    let mut vault = KeyStore::new();
    vault.open_sesame(text("hello@pixelcities.io"), text("passphrase")).unwrap();
    let material: Vec<u8> = (0u8..32).collect();
    let nonce = [7u8; 12];
    let body = vault.key_upload(&material, &nonce).unwrap();
    let again = vault.key_upload(&material, &nonce).unwrap();
    assert_eq!(body, again);
    let prefix = "{\"ciphertext\": \"";
    let suffix = "\"}";
    assert!(body.starts_with(prefix) && body.ends_with(suffix));
    let sealed = &body[prefix.len()..body.len() - suffix.len()];
    assert!(sealed.starts_with("BwcHBwcHBwcHBwcH:"));
    assert_eq!(
        vault.decrypt_key(&sealed.to_string()).unwrap(),
        "000102030405060708090a0b0c0d0e0f101112131415161718191a1b1c1d1e1f"
    );
    assert_eq!(vault.key_upload(&material, &[7u8; 11]), Err(VaultError::Encryption));
}

#[test]
fn generate_key_seals_hex_material() {
    let mut vault = KeyStore::new();
    vault.open_sesame(text("hello@pixelcities.io"), text("passphrase")).unwrap();
    let body = vault.generate_key().unwrap();
    let other = vault.generate_key().unwrap();
    assert_ne!(body, other);
    let sealed = &body["{\"ciphertext\": \"".len()..body.len() - 2];
    let material = vault.decrypt_key(&sealed.to_string()).unwrap();
    assert_eq!(material.len(), 64);
    assert!(material.bytes().all(|b| b.is_ascii_digit() || (b'a'..=b'f').contains(&b)));
}

#[test]
fn create_named_key_replaces_the_whole_manifest() {
    let mut vault = KeyStore::new();
    assert_eq!(vault.manifest_document(), "{\"manifest\": {  } }");
    vault.open_sesame(text("hello@pixelcities.io"), text("passphrase")).unwrap();
    let id = vault.record_key(text("k1"), text("c1"));
    assert_eq!(id, "k1");
    let body = vault.create_named_key(text("db"), id).unwrap();
    assert_eq!(body, "{\"manifest\": { \"db\": \"k1\" } }");
    vault.record_key(text("k2"), text("c2"));
    let body = vault.create_named_key(text("cache"), text("k2")).unwrap();
    assert_eq!(body, "{\"manifest\": { \"db\": \"k1\",\"cache\": \"k2\" } }");
    let body = vault.create_named_key(text("db"), text("k2")).unwrap();
    assert_eq!(body, "{\"manifest\": { \"db\": \"k2\",\"cache\": \"k2\" } }");
    let manifest = vault.get_manifest();
    assert_eq!(manifest.len(), 2);
    assert_eq!(manifest[0].name, "db");
    assert_eq!(manifest[0].key_id, "k2");
}

#[test]
fn rotation_keeps_every_key_readable() {
    let mut vault = KeyStore::new();
    vault.open_sesame(text("alice@example.org"), text("passphrase-1")).unwrap();
    let c1 = vault.encrypt_key(&text("first key")).unwrap();
    let c2 = vault.encrypt_key(&text("second key")).unwrap();
    vault.record_key(text("k1"), c1.clone());
    vault.record_key(text("k2"), c2.clone());

    let rotation = vault.rotate_keys(text("alice@example.org"), text("passphrase-2")).unwrap();
    assert_eq!(rotation.keys().len(), 2);
    assert_eq!(rotation.keys()[0].key_id, "k1");
    assert_eq!(rotation.keys()[1].key_id, "k2");
    assert_ne!(rotation.keys()[0].ciphertext, c1);
    assert_eq!(base64::decode(rotation.token()).unwrap().len(), 12);
    assert_eq!(
        rotation.payload(),
        &format!(
            "{{\"token\": \"{}\", \"keys\": [{{\"key_id\": \"k1\", \"ciphertext\": \"{}\"}},{{\"key_id\": \"k2\", \"ciphertext\": \"{}\"}}]}}",
            rotation.token(),
            rotation.keys()[0].ciphertext,
            rotation.keys()[1].ciphertext
        )
    );
    // until the rotation is applied the vault works under the old root key
    assert_eq!(vault.get_key(text("k1")).unwrap(), "first key");
    assert_eq!(vault.get_keys()[0].ciphertext, c1);

    let mut fresh = KeyStore::new();
    let hashed = fresh.open_sesame(text("alice@example.org"), text("passphrase-2")).unwrap();
    assert_eq!(&hashed, rotation.hashed_passphrase());
    fresh.init(
        vec![
            KeyRecord {
                key_id: text("k1"),
                ciphertext: rotation.keys()[0].ciphertext.clone(),
            },
            KeyRecord {
                key_id: text("k2"),
                ciphertext: rotation.keys()[1].ciphertext.clone(),
            },
        ],
        vec![],
    );
    assert_eq!(fresh.get_key(text("k1")).unwrap(), "first key");
    assert_eq!(fresh.get_key(text("k2")).unwrap(), "second key");
}

#[test]
fn applied_rotation_replaces_root_key_and_ciphertexts() {
    let mut vault = KeyStore::new();
    vault.open_sesame(text("alice@example.org"), text("passphrase-1")).unwrap();
    let c1 = vault.encrypt_key(&text("first key")).unwrap();
    let c2 = vault.encrypt_key(&text("second key")).unwrap();
    vault.record_key(text("k1"), c1.clone());
    vault.record_key(text("k2"), c2.clone());
    vault.create_named_key(text("db"), text("k1")).unwrap();

    let rotation = vault.rotate_keys(text("alice@example.org"), text("passphrase-2")).unwrap();
    let rewrapped: Vec<String> = rotation.keys().iter().map(|k| k.ciphertext.clone()).collect();
    vault.apply_rotation(rotation);

    assert!(!vault.is_locked());
    let keys = vault.get_keys();
    assert_eq!(keys.len(), 2);
    assert_eq!(keys[0].key_id, "k1");
    assert_eq!(keys[0].ciphertext, rewrapped[0]);
    assert_eq!(keys[1].key_id, "k2");
    assert_eq!(keys[1].ciphertext, rewrapped[1]);
    assert_eq!(vault.get_key(text("k1")).unwrap(), "first key");
    assert_eq!(vault.get_key(text("k2")).unwrap(), "second key");
    assert_eq!(vault.get_named_key(text("db")).unwrap(), "first key");
    // the old ciphertexts no longer open, the old root key is gone
    assert_eq!(vault.decrypt_key(&c1), Err(VaultError::Decryption));

    // what is sealed from now on is sealed under the new root key
    let sealed = vault.encrypt_key(&text("later")).unwrap();
    let mut fresh = KeyStore::new();
    fresh.open_sesame(text("alice@example.org"), text("passphrase-2")).unwrap();
    assert_eq!(fresh.decrypt_key(&sealed).unwrap(), "later");
    let mut stale = KeyStore::new();
    stale.open_sesame(text("alice@example.org"), text("passphrase-1")).unwrap();
    assert_eq!(stale.decrypt_key(&sealed), Err(VaultError::Decryption));
}

#[test]
fn locked_vault_names_no_key() {
    let mut vault = KeyStore::new();
    vault.init(vec![], vec![ManifestEntry { name: text("db"), key_id: text("k1") }]);
    assert_eq!(
        vault.create_named_key(text("cache"), text("k2")),
        Err(VaultError::Configuration)
    );
    assert_eq!(
        vault.create_named_key(text("db"), text("k2")),
        Err(VaultError::Configuration)
    );
    let manifest = vault.get_manifest();
    assert_eq!(manifest.len(), 1);
    assert_eq!(manifest[0].name, "db");
    assert_eq!(manifest[0].key_id, "k1");
}

#[test]
fn documents_escape_names_and_identifiers() {
    let mut tricky = KeyStore::new();
    tricky.open_sesame(text("hello@pixelcities.io"), text("passphrase")).unwrap();
    let body = tricky.create_named_key(text("a\": \"b\",\"c"), text("d")).unwrap();
    assert_eq!(body, "{\"manifest\": { \"a\\\": \\\"b\\\",\\\"c\": \"d\" } }");

    let mut plain = KeyStore::new();
    plain.open_sesame(text("hello@pixelcities.io"), text("passphrase")).unwrap();
    plain.create_named_key(text("a"), text("b")).unwrap();
    let other = plain.create_named_key(text("c"), text("d")).unwrap();
    assert_eq!(other, "{\"manifest\": { \"a\": \"b\",\"c\": \"d\" } }");
    assert_ne!(body, other);

    let mut odd = KeyStore::new();
    odd.open_sesame(text("hello@pixelcities.io"), text("passphrase")).unwrap();
    let body = odd.create_named_key(text("back\\slash\nline\u{1}ü"), text("k\t1")).unwrap();
    assert_eq!(
        body,
        "{\"manifest\": { \"back\\\\slash\\u000aline\\u0001ü\": \"k\\u00091\" } }"
    );
}

#[test]
fn rotation_with_given_nonces_is_exact() {
    let mut vault = KeyStore::new();
    vault.open_sesame(text("hello@pixelcities.io"), text("passphrase")).unwrap();
    vault.record_key(text("k1"), text("Bas52beOECLMh+sr:ER+eJfhHdtE6qkUhrDlVfeiOqkoevw=="));
    let email = text("hello@pixelcities.io");
    let passphrase = text("passphrase");
    let token_nonce = [1u8; 12];
    let nonce = base64::decode("Bas52beOECLMh+sr").unwrap();

    // same credentials and the same nonce: the very same ciphertext comes out
    let rotation =
        vault.rotation_with(&email, &passphrase, &token_nonce, &vec![nonce.clone()]).unwrap();
    assert_eq!(rotation.token(), "AQEBAQEBAQEBAQEB");
    assert_eq!(rotation.keys().len(), 1);
    assert_eq!(rotation.keys()[0].key_id, "k1");
    assert_eq!(
        rotation.keys()[0].ciphertext,
        "Bas52beOECLMh+sr:ER+eJfhHdtE6qkUhrDlVfeiOqkoevw=="
    );
    assert_eq!(
        rotation.payload(),
        "{\"token\": \"AQEBAQEBAQEBAQEB\", \"keys\": [{\"key_id\": \"k1\", \"ciphertext\": \"Bas52beOECLMh+sr:ER+eJfhHdtE6qkUhrDlVfeiOqkoevw==\"}]}"
    );
    let again =
        vault.rotation_with(&email, &passphrase, &token_nonce, &vec![nonce.clone()]).unwrap();
    assert_eq!(again.payload(), rotation.payload());
    assert_eq!(again.hashed_passphrase(), rotation.hashed_passphrase());

    // nonces that are missing or of the wrong length
    for (token, nonces) in [
        (vec![1u8; 11], vec![nonce.clone()]),
        (vec![1u8; 12], vec![]),
        (vec![1u8; 12], vec![nonce.clone(), nonce.clone()]),
        (vec![1u8; 12], vec![vec![0u8; 13]]),
    ] {
        assert!(matches!(
            vault.rotation_with(&email, &passphrase, &token, &nonces),
            Err(VaultError::Encryption)
        ));
    }

    // the earlier failures come first
    assert!(matches!(
        vault.rotation_with(&text("a@x.io"), &passphrase, &[], &vec![]),
        Err(VaultError::Derivation)
    ));
    assert!(matches!(
        KeyStore::new().rotation_with(&email, &passphrase, &token_nonce, &vec![]),
        Err(VaultError::Configuration)
    ));
    vault.record_key(text("k2"), text("junk"));
    assert!(matches!(
        vault.rotation_with(&email, &passphrase, &token_nonce, &vec![nonce.clone(), nonce]),
        Err(VaultError::Decryption)
    ));
}

#[test]
fn empty_vault_rotates_to_an_empty_batch() {
    let mut vault = KeyStore::new();
    vault.open_sesame(text("hello@pixelcities.io"), text("passphrase")).unwrap();
    let rotation = vault
        .rotation_with(&text("alice@example.org"), &text("passphrase-2"), &[2u8; 12], &vec![])
        .unwrap();
    assert_eq!(rotation.payload(), "{\"token\": \"AgICAgICAgICAgIC\", \"keys\": []}");
    assert!(rotation.keys().is_empty());
    let drawn = vault.rotate_keys(text("alice@example.org"), text("passphrase-2")).unwrap();
    assert_eq!(drawn.hashed_passphrase(), rotation.hashed_passphrase());
    assert!(drawn.keys().is_empty());
}

#[test]
fn rotation_failures_come_in_order() {
    let mut vault = KeyStore::new();
    vault.init(vec![KeyRecord { key_id: text("k1"), ciphertext: text("junk") }], vec![]);
    assert!(matches!(
        vault.rotate_keys(text("alice@example.org"), text("passphrase-2")),
        Err(VaultError::Configuration)
    ));
    vault.open_sesame(text("alice@example.org"), text("passphrase-1")).unwrap();
    assert!(matches!(
        vault.rotate_keys(text("a@x.io"), text("passphrase-2")),
        Err(VaultError::Derivation)
    ));
    assert!(matches!(
        vault.rotate_keys(text("alice@example.org"), text("passphrase-2")),
        Err(VaultError::Decryption)
    ));
}

#[test]
fn unlock_create_rotate_walkthrough() {
    let mut vault = KeyStore::new();
    let h1 = vault.open_sesame(text("alice@x.io"), text("passphrase1")).unwrap();
    let upload = vault.generate_key().unwrap();
    let sealed = upload["{\"ciphertext\": \"".len()..upload.len() - 2].to_string();
    let material = vault.decrypt_key(&sealed).unwrap();
    let id = vault.record_key(text("k1"), sealed);
    assert_eq!(id, "k1");
    let body = vault.create_named_key(text("db"), id).unwrap();
    assert_eq!(body, "{\"manifest\": { \"db\": \"k1\" } }");
    assert_eq!(vault.get_named_key(text("db")).unwrap(), material);

    let rotation = vault.rotate_keys(text("alice@x.io"), text("passphrase2")).unwrap();
    let h2 = rotation.hashed_passphrase().clone();
    assert_ne!(h2, h1);
    vault.apply_rotation(rotation);
    assert_eq!(vault.get_key(text("k1")).unwrap(), material);
    assert_eq!(vault.get_named_key(text("db")).unwrap(), material);

    // a vault opened afresh with the new credentials reads the same keys
    let mut next = KeyStore::new();
    assert_eq!(next.open_sesame(text("alice@x.io"), text("passphrase2")).unwrap(), h2);
    next.init(vault.get_keys(), vault.get_manifest());
    assert_eq!(next.get_key(text("k1")).unwrap(), material);
    assert_eq!(next.get_named_key(text("db")).unwrap(), material);
}
