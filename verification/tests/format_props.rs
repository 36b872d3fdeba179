use sentra_fim::audit::{AuditEvent, AuditKind};
use sentra_fim::config::{default_debounce_ms, default_hash_alg};
use sentra_fim::{hash_bytes, hex_encode, resolve_alg, Digester, HashAlg};

#[test]
fn defaults_match_policy() {
    assert_eq!(default_hash_alg(), "blake3");
    assert_eq!(default_debounce_ms(), 250);
}

#[test]
fn algorithm_names_resolve_case_insensitively_with_fallback() {
    assert!(resolve_alg(&"sha256".to_string()) == HashAlg::Sha256);
    assert!(resolve_alg(&"SHA256".to_string()) == HashAlg::Sha256);
    assert!(resolve_alg(&"blake3".to_string()) == HashAlg::Blake3);
    // an unknown name falls back to the default instead of failing
    assert!(resolve_alg(&"blaek3".to_string()) == HashAlg::Blake3);
    assert!(resolve_alg(&"".to_string()) == HashAlg::Blake3);
}

#[test]
fn known_digest_vectors() {
    assert_eq!(
        hash_bytes(HashAlg::Sha256, b""),
        "e3b0c44298fc1c149afbf4c8996fb92427ae41e4649b934ca495991b7852b855"
    );
    assert_eq!(
        hash_bytes(HashAlg::Sha256, b"hello\n"),
        "5891b5b522d5df086d0ff0b110fbd9d21bb4fc7163af34d08286a2e846f6be03"
    );
    assert_eq!(
        hash_bytes(HashAlg::Blake3, b""),
        "af1349b9f5f9a1a6a0404dea36dcc9499bcb25c9adc112b7cc9a93cae41f3262"
    );
    // the two algorithms disagree on the same input
    assert_ne!(hash_bytes(HashAlg::Blake3, b"x"), hash_bytes(HashAlg::Sha256, b"x"));
}

#[test]
fn streaming_chunks_match_whole_buffer() {
    for alg in [HashAlg::Blake3, HashAlg::Sha256] {
        let whole = hash_bytes(alg, b"hello world, in two chunks");
        let mut d = Digester::new(alg);
        d.update(b"hello world, ");
        d.update(b"in two chunks");
        assert_eq!(d.finalize_hex(), whole);
        assert_eq!(whole.len(), 64);
    }
}

#[test]
fn hex_encoding_is_lowercase_two_digits_per_byte() {
    assert_eq!(hex_encode(&vec![]), "");
    assert_eq!(hex_encode(&vec![0u8, 1, 15, 16, 170, 255]), "00010f10aaff");
}

#[test]
fn audit_event_renders_exact_json() {
    let ev = AuditEvent {
        ts: 123,
        kind: AuditKind::Create,
        path: "a".to_string(),
        old_path: None,
        old_hash: None,
        new_hash: Some("ff".to_string()),
        size: Some(10),
    };
    assert_eq!(
        ev.to_json(),
        "{\"ts\":123,\"kind\":\"create\",\"path\":\"a\",\"new_hash\":\"ff\",\"size\":10}"
    );
}

#[test]
fn audit_event_renders_all_optional_fields() {
    let ev = AuditEvent {
        ts: -5,
        kind: AuditKind::Rename,
        path: "b".to_string(),
        old_path: Some("a".to_string()),
        old_hash: Some("00".to_string()),
        new_hash: Some("11".to_string()),
        size: Some(0),
    };
    assert_eq!(
        ev.to_json(),
        "{\"ts\":-5,\"kind\":\"rename\",\"path\":\"b\",\"old_path\":\"a\",\"old_hash\":\"00\",\"new_hash\":\"11\",\"size\":0}"
    );
}

#[test]
fn audit_event_escapes_path_characters() {
    let ev = AuditEvent {
        ts: 0,
        kind: AuditKind::Delete,
        path: "a\"b\\c\nd\te\u{1}f".to_string(),
        old_path: None,
        old_hash: None,
        new_hash: None,
        size: None,
    };
    assert_eq!(
        ev.to_json(),
        "{\"ts\":0,\"kind\":\"delete\",\"path\":\"a\\\"b\\\\c\\nd\\te\\u0001f\"}"
    );
}
