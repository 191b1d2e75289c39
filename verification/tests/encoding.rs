use key_x::crypto::{
    decrypt_custom, encrypt_custom, encrypt_with_nonce, gen_key, gen_nonce, gen_nonces,
};
use key_x::derive::derive_keys;
use key_x::encoding::{concat5, decimal, join_push, json_quote, url_quote};
use key_x::error::VaultError;
use key_x::table::Table;
use key_x::wire::{
    first_bundle_id, make_bundle_payload, make_bundles_url, make_peer_bundle_url,
    make_peer_bundles_url, resolve_basepath,
};

fn text(s: &str) -> String {
    s.to_string()
}

#[test]
fn decimal_renders_without_leading_zeros() {
    assert_eq!(decimal(0), "0");
    assert_eq!(decimal(7), "7");
    assert_eq!(decimal(10), "10");
    assert_eq!(decimal(12345), "12345");
    assert_eq!(decimal(4_000_000_009), "4000000009");
    assert_eq!(decimal(u32::MAX), "4294967295");
}

#[test]
fn joining_puts_separators_between_items() {
    let mut out = String::new();
    join_push(&mut out, true, ",", "a");
    assert_eq!(out, "a");
    join_push(&mut out, false, ",", "b");
    join_push(&mut out, false, ", ", "c");
    assert_eq!(out, "a,b, c");
    assert_eq!(concat5("a", "", "b", "cd", "e"), "abcde");
}

#[test]
fn json_strings_escape_quotes_backslashes_and_controls() {
    assert_eq!(json_quote(""), "\"\"");
    assert_eq!(json_quote("plain k1 +/="), "\"plain k1 +/=\"");
    assert_eq!(json_quote("say \"hi\""), "\"say \\\"hi\\\"\"");
    assert_eq!(json_quote("a\\b"), "\"a\\\\b\"");
    assert_eq!(json_quote("\u{0}\n\r\t\u{1f} "), "\"\\u0000\\u000a\\u000d\\u0009\\u001f \"");
    assert_eq!(json_quote("ünï ✓ \u{7f}"), "\"ünï ✓ \u{7f}\"");
}

#[test]
fn path_segments_escape_what_would_split_the_path() {
    assert_eq!(url_quote(""), "");
    assert_eq!(url_quote("bob"), "bob");
    assert_eq!(url_quote("Bob-1_2.3~@x.io:9"), "Bob-1_2.3~@x.io:9");
    assert_eq!(url_quote("a/b?c#d e%f"), "a%2Fb%3Fc%23d%20e%25f");
    assert_eq!(url_quote("ü✓"), "%C3%BC%E2%9C%93");
    assert_eq!(url_quote("\u{0}\n+"), "%00%0A%2B");
    assert_eq!(
        make_peer_bundle_url("http://h:1", "../keys", 3),
        "http://h:1/protocol/bundles/..%2Fkeys/3"
    );
}

#[test]
fn bundle_numbering_continues_after_the_servers_last() {
    assert_eq!(first_bundle_id(None), Some(1));
    assert_eq!(first_bundle_id(Some(0)), Some(1));
    assert_eq!(first_bundle_id(Some(5)), Some(6));
    assert_eq!(first_bundle_id(Some(u32::MAX - 5)), Some(u32::MAX - 4));
    assert_eq!(first_bundle_id(Some(u32::MAX - 4)), None);
    assert_eq!(first_bundle_id(Some(u32::MAX)), None);
}

#[test]
fn addresses_and_payloads() {
    assert_eq!(make_bundles_url("http://h:1"), "http://h:1/protocol/bundles");
    assert_eq!(make_peer_bundles_url("http://h:1", "bob"), "http://h:1/protocol/bundles/bob");
    assert_eq!(
        make_peer_bundle_url("http://h:1", "bob", 120),
        "http://h:1/protocol/bundles/bob/120"
    );
    assert_eq!(
        make_bundle_payload(7, b"hello"),
        "{\"bundle_id\": 7, \"bundle\": \"aGVsbG8=\" }"
    );
}

#[test]
fn basepath_falls_back_to_configured_then_default() {
    assert_eq!(resolve_basepath(Some(text("http://a")), Some(text("http://b"))), "http://a");
    assert_eq!(resolve_basepath(None, Some(text("http://b"))), "http://b");
    assert_eq!(resolve_basepath(None, None), "http://localhost:5000");
}

#[test]
fn table_keeps_first_arrival_order_and_replaces_in_place() {
    let mut table = Table::new();
    assert_eq!(table.len(), 0);
    table.insert(text("a"), text("1"));
    table.insert(text("b"), text("2"));
    table.insert(text("a"), text("3"));
    assert_eq!(table.len(), 2);
    assert_eq!(table.key(0), "a");
    assert_eq!(table.value(0), "3");
    assert_eq!(table.key(1), "b");
    assert_eq!(table.get(&text("b")), Some(&text("2")));
    assert_eq!(table.get(&text("c")), None);
    assert_eq!(table.find(&text("b")), Some(1));
    assert_eq!(table.find(&text("")), None);
}

#[test]
fn seal_with_nonce_is_exact() {
    let root = derive_keys(&text("hello@pixelcities.io"), &text("passphrase")).unwrap().0;
    assert_eq!(root.len(), 32);
    let nonce = base64::decode("Bas52beOECLMh+sr").unwrap();
    assert_eq!(
        encrypt_with_nonce(&text("secret"), &root, &nonce).unwrap(),
        "Bas52beOECLMh+sr:ER+eJfhHdtE6qkUhrDlVfeiOqkoevw=="
    );
    assert_eq!(
        encrypt_with_nonce(&text("secret"), &root, &nonce[..11]),
        Err(VaultError::Encryption)
    );
    assert_eq!(
        encrypt_with_nonce(&text("secret"), &root[..31], &nonce),
        Err(VaultError::Encryption)
    );
}

#[test]
fn seal_and_open_round_trip() {
    let key = gen_key().unwrap();
    let other = gen_key().unwrap();
    assert_eq!(key.len(), 32);
    assert_ne!(key, other);
    for plain in ["", "secret", "with: colon", "ünïcödé ✓", "a\nb\"c"] {
        let sealed = encrypt_custom(&text(plain), &key).unwrap();
        assert_ne!(sealed, plain);
        assert_eq!(decrypt_custom(&sealed, &key).unwrap(), plain);
        assert_eq!(decrypt_custom(&sealed, &other), Err(VaultError::Decryption));
    }
    assert_eq!(encrypt_custom(&text("x"), &key[..16]), Err(VaultError::Encryption));
    assert_eq!(
        decrypt_custom(&text("Bas52beOECLMh+sr:ER+eJfhHdtE6qkUhrDlVfeiOqkoevw=="), &key[..16]),
        Err(VaultError::Decryption)
    );
}

#[test]
fn nonces_are_twelve_fresh_bytes() {
    let a = gen_nonce().unwrap();
    let b = gen_nonce().unwrap();
    assert_eq!(a.len(), 12);
    assert_eq!(b.len(), 12);
    assert_ne!(a, b);
    assert!(gen_nonces(0).unwrap().is_empty());
    let many = gen_nonces(3).unwrap();
    assert_eq!(many.len(), 3);
    assert!(many.iter().all(|n| n.len() == 12));
    assert_ne!(many[0], many[1]);
}

#[test]
fn derive_keys_matches_known_values_shape() {
    let (root, hashed) = derive_keys(&text("hello@pixelcities.io"), &text("passphrase")).unwrap();
    let (root2, hashed2) = derive_keys(&text("hello@pixelcities.io"), &text("passphrase")).unwrap();
    assert_eq!(root, root2);
    assert_eq!(hashed, hashed2);
    assert_eq!(base64::decode(&hashed).unwrap().len(), 32);
    assert_ne!(base64::decode(&hashed).unwrap(), root);
    assert_eq!(
        derive_keys(&text("seven77"), &text("passphrase")),
        Err(VaultError::Derivation)
    );
    let long = "x".repeat(49);
    assert_eq!(derive_keys(&long, &text("passphrase")), Err(VaultError::Derivation));
    assert!(derive_keys(&"x".repeat(48), &text("passphrase")).is_ok());
    assert!(derive_keys(&text("eight888"), &text("eight888")).is_ok());
}
