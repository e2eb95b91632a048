use base64::Engine;
use discord_privacy::cache::{CacheManager, CachedMessage, SEARCH_LIMIT};
use discord_privacy::crypto::Crypto;
use discord_privacy::json::{JsonNumber, JsonValue};
use discord_privacy::vault::{DiscordIdentity, EncryptionManager, FallbackManager, IdentityManager, KeyResolution, Vault, VaultState, CredentialManager};
use discord_privacy::error::AppError;

fn conv(v: &serde_json::Value) -> JsonValue {
    match v {
        serde_json::Value::Null => JsonValue::Null,
        serde_json::Value::Bool(b) => JsonValue::Bool(*b),
        serde_json::Value::Number(n) => {
            if let Some(u) = n.as_u64() {
                JsonValue::Number(JsonNumber::PosInt(u))
            } else if let Some(i) = n.as_i64() {
                JsonValue::Number(JsonNumber::NegInt(i))
            } else {
                JsonValue::Number(JsonNumber::Float(n.to_string()))
            }
        }
        serde_json::Value::String(s) => JsonValue::Str(s.clone()),
        serde_json::Value::Array(a) => JsonValue::Array(a.iter().map(conv).collect()),
        serde_json::Value::Object(m) => JsonValue::Object(m.iter().map(|(k, v)| (k.clone(), conv(v))).collect()),
    }
}

fn j(text: &str) -> JsonValue {
    conv(&serde_json::from_str::<serde_json::Value>(text).unwrap())
}

fn field<'a>(v: &'a JsonValue, key: &str) -> Option<&'a JsonValue> {
    match v {
        JsonValue::Object(es) => es.iter().find(|(k, _)| k == key).map(|(_, v)| v),
        _ => None,
    }
}

#[test]
fn encryption_round_trip() {
    let key = Crypto::generate_key();
    assert!(Crypto::key_is_usable(&key));
    let sealed = Crypto::encrypt(&key, "secret message").ok().unwrap();
    assert_ne!(sealed, "secret message");
    assert_eq!(Crypto::decrypt(&key, &sealed).ok().unwrap(), "secret message");
    let other = Crypto::generate_key();
    let e = Crypto::decrypt(&other, &sealed).err().unwrap();
    assert_eq!(e.error_code, "crypto_decrypt_failed");
    let short = Crypto::decrypt(&key, "AAAA").err().unwrap();
    assert_eq!(short.error_code, "crypto_decrypt_invalid_len");
}

#[test]
fn encrypting_twice_uses_fresh_nonces() {
    let key = Crypto::generate_key();
    let a = Crypto::encrypt(&key, "x").ok().unwrap();
    let b = Crypto::encrypt(&key, "x").ok().unwrap();
    assert_ne!(a, b);
}

#[test]
fn keys_that_cannot_be_used() {
    assert!(!Crypto::key_is_usable("AAAA"));
    assert!(Crypto::try_encrypt("AAAA", "x").is_none());
    assert!(Crypto::key_is_usable("not base64!"));
    let e = Crypto::encrypt("not base64!", "x").err().unwrap();
    assert_eq!(e.error_code, "decode_error");
}

#[test]
fn password_hash_verifies() {
    let h = Crypto::hash_password("hunter2").ok().unwrap();
    assert!(Crypto::verify_password("hunter2", &h));
    assert!(!Crypto::verify_password("hunter3", &h));
    let k1 = Crypto::derive_key("pw", "com.discordprivacy.vault.salt").ok().unwrap();
    let k2 = Crypto::derive_key("pw", "com.discordprivacy.vault.salt").ok().unwrap();
    assert_eq!(k1, k2);
}

#[test]
fn master_password_seals_and_unseals_the_vault_key() {
    let key = Crypto::generate_key();
    let sealed = EncryptionManager::seal_with_password("pw", &key).ok().unwrap();
    let back = EncryptionManager::unseal_with_password("pw", Some(sealed.hash.clone()), Some(sealed.encrypted_key.clone()));
    assert_eq!(back.ok().unwrap(), key);
    let wrong = EncryptionManager::unseal_with_password("pq", Some(sealed.hash.clone()), Some(sealed.encrypted_key.clone()))
        .err()
        .unwrap();
    assert_eq!(wrong.user_message, "Incorrect master password.");
    assert_eq!(wrong.error_code, "invalid_master_password");
    let none = EncryptionManager::unseal_with_password("pw", None, None).err().unwrap();
    assert_eq!(none.user_message, "No master password set.");
    let missing = EncryptionManager::unseal_with_password("pw", Some(sealed.hash), None).err().unwrap();
    assert_eq!(missing.user_message, "Vault key missing.");
}

#[test]
fn key_resolution_order() {
    assert!(matches!(EncryptionManager::resolve_key(Some("m".into()), true, None, None), KeyResolution::Found(k) if k == "m"));
    assert!(matches!(EncryptionManager::resolve_key(None, true, Some("k".into()), None), KeyResolution::Locked));
    assert!(matches!(EncryptionManager::resolve_key(None, false, None, Some("f".into())), KeyResolution::Found(k) if k == "f"));
    assert!(matches!(EncryptionManager::resolve_key(None, false, None, None), KeyResolution::Generate));
    assert_eq!(EncryptionManager::locked_error().error_code, "vault_locked");
}

#[test]
fn vault_lock_state() {
    let mut s = VaultState::new();
    assert!(s.is_locked(true));
    assert!(!s.is_locked(false));
    s.unlock("k".into());
    assert!(!s.is_locked(true));
    assert_eq!(s.key().as_deref(), Some("k"));
    s.master_password_changed(true, None);
    assert!(s.is_locked(true));
    s.master_password_changed(false, Some("plain".into()));
    assert_eq!(s.key().as_deref(), Some("plain"));
}

#[test]
fn identity_index_and_names() {
    assert_eq!(IdentityManager::account_key("42"), "account_42");
    let idx = vec!["1".to_string(), "2".to_string()];
    assert_eq!(IdentityManager::index_with(&idx, "2"), vec!["1", "2"]);
    assert_eq!(IdentityManager::index_with(&idx, "3"), vec!["1", "2", "3"]);
    let dup = vec!["1".to_string(), "2".to_string(), "1".to_string()];
    assert_eq!(IdentityManager::index_without(&dup, "1"), vec!["2"]);
    assert_eq!(FallbackManager::fallback_file_name("account_42"), "account_42.secure");
    let e = CredentialManager::lookup_error("client_id", AppError::new("x", "credentials_missing"));
    assert_eq!(e.user_message, "Credential 'client_id' not found. Please complete Setup.");
    assert_eq!(e.error_code, "vault_credentials_missing");
    let passthrough = CredentialManager::lookup_error("client_id", AppError::new("x", "keyring_error"));
    assert_eq!(passthrough.error_code, "keyring_error");
}

#[test]
fn finding_identities() {
    let ids = vec![
        DiscordIdentity { id: "1".into(), username: "a".into(), token: "t1".into(), is_oauth: false },
        DiscordIdentity { id: "2".into(), username: "b".into(), token: "t2".into(), is_oauth: true },
    ];
    assert_eq!(Vault::find_identity(&ids, "2").ok(), Some(1));
    let e = Vault::find_identity(&ids, "3").err().unwrap();
    assert_eq!(e.user_message, "Identity not found.");
    assert_eq!(Vault::no_active_session().error_code, "no_active_session");
    assert_eq!(
        Vault::wiped_credential_keys(),
        vec![
            "client_id",
            "client_secret",
            "proxy_url",
            "janitor_rules",
            "com.discordprivacy.util.master_hash",
            "com.discordprivacy.util.enc_key"
        ]
    );
}

#[test]
fn cache_rows_of_messages() {
    let msg = j(r#"{"id":"m1","channel_id":"c1","author":{"id":"u1"},"content":"Hi there","timestamp":"2024-01-01T00:00:00+00:00","attachments":[{"id":"a"}]}"#);
    let r = CacheManager::message_record(&msg);
    assert_eq!(r.id, "m1");
    assert_eq!(r.channel_id, "c1");
    assert_eq!(r.author_id, "u1");
    assert_eq!(r.content, "Hi there");
    assert_eq!(r.timestamp, 1704067200000);
    assert!(r.has_attachments);
    let bare = CacheManager::message_record(&j(r#"{"attachments":[]}"#));
    assert_eq!(bare.id, "");
    assert_eq!(bare.timestamp, 0);
    assert!(!bare.has_attachments);
    let key = Crypto::generate_key();
    let sealed = CacheManager::sealed_record(&msg, &key).ok().unwrap();
    assert_ne!(sealed.content, "Hi there");
    assert_eq!(CacheManager::readable_content(&key, &sealed.content), "Hi there");
    assert_eq!(CacheManager::readable_content(&key, "garbage"), "");
}

#[test]
fn cache_search_is_case_insensitive_and_capped() {
    assert!(CacheManager::matches_query("Hello World", "WORLD"));
    assert!(CacheManager::matches_query("anything", ""));
    assert!(!CacheManager::matches_query("abc", "abd"));
    let mut rows = Vec::new();
    for i in 0..1005u64 {
        rows.push((JsonValue::Number(JsonNumber::PosInt(i)), if i % 2 == 0 { "Match me".to_string() } else { "nope".to_string() }));
    }
    let few = CacheManager::select_matches(rows, "match");
    assert_eq!(few.len(), 503);
    assert!(matches!(few[1], JsonValue::Number(JsonNumber::PosInt(2))));
    let mut many = Vec::new();
    for i in 0..1500u64 {
        many.push((JsonValue::Number(JsonNumber::PosInt(i)), "x".to_string()));
    }
    let capped = CacheManager::select_matches(many, "");
    assert_eq!(capped.len(), SEARCH_LIMIT);
    assert!(matches!(capped[999], JsonValue::Number(JsonNumber::PosInt(999))));
}

#[test]
fn cached_message_json_fields() {
    let m = CachedMessage {
        id: "m".into(),
        channel_id: "c".into(),
        identity_id: "i".into(),
        author_id: "a".into(),
        content: "hey".into(),
        timestamp: -5,
        has_attachments: true,
    };
    let v = CacheManager::message_json(&m);
    assert!(matches!(field(&v, "content"), Some(JsonValue::Str(s)) if s == "hey"));
    assert!(matches!(field(&v, "timestamp"), Some(JsonValue::Number(JsonNumber::NegInt(-5)))));
    assert!(matches!(field(&v, "has_attachments"), Some(JsonValue::Bool(true))));
}

#[test]
fn key_derivation_needs_an_eight_byte_salt() {
    let e = Crypto::derive_key("pw", "1234567").err().unwrap();
    assert_eq!(e.error_code, "crypto_kdf_failed");
    let a = Crypto::derive_key("pw", "12345678").ok().unwrap();
    let b = Crypto::derive_key("pw", "12345678").ok().unwrap();
    assert_eq!(a, b);
    assert!(Crypto::hash_password("").is_ok());
}

#[test]
fn password_hashes_name_argon2id_and_malformed_ones_never_verify() {
    let h = Crypto::hash_password("pw").ok().unwrap();
    assert!(h.starts_with("$argon2id$"));
    assert!(Crypto::verify_password("pw", &h));
    assert!(!Crypto::verify_password("pw", "argon2id$v=19$nonsense"));
    assert!(!Crypto::verify_password("pw", ""));
    let e = Crypto::decrypt(&Crypto::generate_key(), "AAAA").err().unwrap();
    assert_eq!(e.user_message, "Decryption failed: invalid data length.");
}

#[test]
fn key_text_and_sealed_lengths() {
    let key = Crypto::generate_key();
    assert_eq!(key.len(), 44);
    let sealed = Crypto::encrypt(&key, "hello").ok().unwrap();
    let d = base64::engine::general_purpose::STANDARD.decode(&sealed).unwrap();
    assert_eq!(d.len(), 12 + 5 + 16);
}
