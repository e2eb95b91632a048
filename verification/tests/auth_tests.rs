use base64::Engine;
use discord_privacy::auth::{
    callback_from_pairs, is_browser_process, is_discord_process, is_ready_frame, oauth_callback, oauth_redirect_uri,
    rpc_authorize_payload, rpc_denied, rpc_reply, rpc_socket_url, rpc_token_form, token_from_exchange, AuthFailure,
    OAuthCallback, RpcReply,
};
use discord_privacy::json::{JsonNumber, JsonValue};
use discord_privacy::qr::{nonce_proof_frame, qr_heartbeat_frame, qr_step, QrSession, QrStep};
use rsa::pkcs8::{DecodePublicKey, EncodePrivateKey};
use rsa::traits::PublicKeyParts;
use sha2::Digest;

fn conv(v: &serde_json::Value) -> JsonValue {
    match v {
        serde_json::Value::Null => JsonValue::Null,
        serde_json::Value::Bool(b) => JsonValue::Bool(*b),
        serde_json::Value::Number(n) => {
            if let Some(u) = n.as_u64() {
                JsonValue::Number(JsonNumber::PosInt(u))
            } else if let Some(i) = n.as_i64() {
                JsonValue::Number(JsonNumber::NegInt(i))
            } else {
                JsonValue::Number(JsonNumber::Float(n.to_string()))
            }
        }
        serde_json::Value::String(s) => JsonValue::Str(s.clone()),
        serde_json::Value::Array(a) => JsonValue::Array(a.iter().map(conv).collect()),
        serde_json::Value::Object(m) => JsonValue::Object(m.iter().map(|(k, v)| (k.clone(), conv(v))).collect()),
    }
}

fn j(text: &str) -> JsonValue {
    conv(&serde_json::from_str::<serde_json::Value>(text).unwrap())
}

fn field<'a>(v: &'a JsonValue, key: &str) -> Option<&'a JsonValue> {
    match v {
        JsonValue::Object(es) => es.iter().find(|(k, _)| k == key).map(|(_, v)| v),
        _ => None,
    }
}

fn text(v: Option<&JsonValue>) -> Option<String> {
    match v {
        Some(JsonValue::Str(s)) => Some(s.clone()),
        _ => None,
    }
}

#[test]
fn oauth_redirect_with_matching_state_gives_the_code() {
    let req = "GET /?code=abc&state=xyz HTTP/1.1\r\nHost: 127.0.0.1\r\n\r\n";
    match oauth_callback(req, "xyz") {
        OAuthCallback::Code(c) => assert_eq!(c, "abc"),
        _ => panic!("expected a code"),
    }
}

#[test]
fn oauth_redirect_refusals() {
    assert!(matches!(oauth_callback("GET /?code=abc&state=bad HTTP/1.1\r\n", "xyz"), OAuthCallback::StateMismatch));
    assert!(matches!(oauth_callback("GET /?code=abc HTTP/1.1\r\n", "xyz"), OAuthCallback::StateMismatch));
    assert!(matches!(oauth_callback("GET /?state=xyz HTTP/1.1\r\n", "xyz"), OAuthCallback::NoCode));
    assert!(matches!(oauth_callback("", "xyz"), OAuthCallback::Unreadable));
    assert!(matches!(oauth_callback("GET\r\n", "xyz"), OAuthCallback::Unreadable));
}

#[test]
fn oauth_redirect_last_value_counts_and_is_decoded() {
    match oauth_callback("GET /?state=bad&state=xyz&code=a%2Fb HTTP/1.1\r\n", "xyz") {
        OAuthCallback::Code(c) => assert_eq!(c, "a/b"),
        _ => panic!("expected a code"),
    }
    let pairs = vec![("code".to_string(), "1".to_string()), ("state".to_string(), "s".to_string()), ("code".to_string(), "2".to_string())];
    match callback_from_pairs(&pairs, "s") {
        OAuthCallback::Code(c) => assert_eq!(c, "2"),
        _ => panic!(),
    }
}

#[test]
fn rpc_urls_and_payloads() {
    assert_eq!(rpc_socket_url(6463, "123"), "ws://127.0.0.1:6463/?v=1&client_id=123");
    assert_eq!(oauth_redirect_uri(53123), "http://127.0.0.1:53123");
    let p = rpc_authorize_payload("cid", "n1");
    assert_eq!(text(field(&p, "cmd")).as_deref(), Some("AUTHORIZE"));
    assert_eq!(text(field(&p, "nonce")).as_deref(), Some("n1"));
    let args = field(&p, "args").unwrap();
    assert_eq!(text(field(args, "client_id")).as_deref(), Some("cid"));
    assert_eq!(text(field(args, "prompt")).as_deref(), Some("consent"));
    match field(args, "scopes") {
        Some(JsonValue::Array(a)) => {
            assert_eq!(a.len(), 2);
            assert!(matches!(&a[0], JsonValue::Str(s) if s == "identify"));
            assert!(matches!(&a[1], JsonValue::Str(s) if s == "guilds"));
        }
        _ => panic!(),
    }
}

#[test]
fn rpc_frames_for_our_nonce() {
    assert!(is_ready_frame(&j(r#"{"cmd":"DISPATCH","evt":"READY"}"#)));
    assert!(!is_ready_frame(&j(r#"{"evt":"ERROR"}"#)));
    match rpc_reply(&j(r#"{"nonce":"n1","data":{"code":"C0DE"}}"#), "n1") {
        RpcReply::Code(c) => assert_eq!(c, "C0DE"),
        _ => panic!(),
    }
    match rpc_reply(&j(r#"{"nonce":"n1","data":{"code":"C0DE","message":"User denied"}}"#), "n1") {
        RpcReply::Denied(m) => assert_eq!(m, "User denied"),
        _ => panic!(),
    }
    assert!(matches!(rpc_reply(&j(r#"{"nonce":"n2","data":{"code":"C"}}"#), "n1"), RpcReply::Ignored));
    assert!(matches!(rpc_reply(&j(r#"{"nonce":"n1","data":{}}"#), "n1"), RpcReply::Ignored));
    assert_eq!(rpc_denied("nope").user_message, "RPC denied: nope");
}

#[test]
fn token_exchange_outcomes() {
    let ok = token_from_exchange(true, &j(r#"{"access_token":"T","token_type":"Bearer"}"#), "{}");
    assert_eq!(ok.ok().unwrap(), "T");
    let missing = token_from_exchange(true, &j(r#"{"token_type":"Bearer"}"#), "{}").err().unwrap();
    assert_eq!(missing.user_message, "Access token missing in response.");
    let failed = token_from_exchange(false, &j(r#"{"error":"invalid_grant"}"#), "{\"error\":\"invalid_grant\"}").err().unwrap();
    assert_eq!(failed.user_message, "Token exchange failed.");
    assert_eq!(failed.technical_details.as_deref(), Some("{\"error\":\"invalid_grant\"}"));
    let form = rpc_token_form("id", "secret", "code");
    assert_eq!(form[2], ("grant_type".to_string(), "authorization_code".to_string()));
    assert_eq!(form[4], ("redirect_uri".to_string(), "http://127.0.0.1".to_string()));
}

#[test]
fn failures_and_their_codes() {
    assert_eq!(AuthFailure::RpcTimeout.to_error().error_code, "rpc_timeout");
    assert_eq!(AuthFailure::RpcSocketClosed.to_error().error_code, "rpc_socket_closed");
    assert_eq!(
        AuthFailure::RpcNotDetected.to_error().user_message,
        "Discord desktop client not detected or RPC is disabled."
    );
    assert_eq!(AuthFailure::IdentityNotFound.to_error().user_message, "Identity not found.");
}

#[test]
fn process_names() {
    assert!(is_discord_process("Discord.exe"));
    assert!(is_discord_process("DiscordCanary"));
    assert!(!is_discord_process("steam"));
    assert!(is_browser_process("Google Chrome"));
    assert!(is_browser_process("Safari"));
    assert!(is_browser_process("msedge.exe"));
    assert!(!is_browser_process("explorer.exe"));
}

#[test]
fn qr_gateway_frames() {
    assert!(matches!(qr_step(&j(r#"{"op":"hello","heartbeat_interval":41250}"#)), QrStep::Hello { interval_ms: 41250 }));
    assert!(matches!(qr_step(&j(r#"{"op":"hello"}"#)), QrStep::Hello { interval_ms: 30000 }));
    match qr_step(&j(r#"{"op":"nonce_proof","encrypted_nonce":"QUJD"}"#)) {
        QrStep::NonceProof { encrypted_nonce } => assert_eq!(encrypted_nonce, "QUJD"),
        _ => panic!(),
    }
    match qr_step(&j(r#"{"op":"fingerprint","fingerprint":"fp1"}"#)) {
        QrStep::ShowCode { url } => assert_eq!(url, "https://discord.com/ra/fp1"),
        _ => panic!(),
    }
    assert!(matches!(qr_step(&j(r#"{"op":"fingerprint"}"#)), QrStep::Ignore));
    assert!(matches!(qr_step(&j(r#"{"op":"pending_remote_init"}"#)), QrStep::Scanned));
    match qr_step(&j(r#"{"op":"finish"}"#)) {
        QrStep::Finish { encrypted_token } => assert_eq!(encrypted_token, ""),
        _ => panic!(),
    }
    assert!(matches!(qr_step(&j(r#"{"op":"weird"}"#)), QrStep::Ignore));
    assert!(matches!(qr_step(&j(r#"{}"#)), QrStep::Ignore));
    assert_eq!(text(field(&qr_heartbeat_frame(), "op")).as_deref(), Some("heartbeat"));
}

#[test]
fn nonce_proof_is_unpadded_url_safe_sha256() {
    let f = nonce_proof_frame(b"hello");
    let digest = sha2::Sha256::digest(b"hello");
    let expected = base64::engine::general_purpose::URL_SAFE_NO_PAD.encode(digest);
    assert_eq!(text(field(&f, "proof")), Some(expected));
    assert_eq!(text(field(&f, "op")).as_deref(), Some("nonce_proof"));
}

#[test]
fn qr_session_decrypts_what_its_public_key_encrypts() {
    let session = QrSession::new().ok().unwrap();
    {
        let der = base64::engine::general_purpose::STANDARD.decode(session.public_key()).unwrap();
        let public = rsa::RsaPublicKey::from_public_key_der(&der).unwrap();
        assert_eq!(public.size() * 8, 2048);
    }
    let der = base64::engine::general_purpose::STANDARD.decode(session.public_key()).unwrap();
    let public = rsa::RsaPublicKey::from_public_key_der(&der).unwrap();
    let mut rng = rand::thread_rng();
    let nonce = public.encrypt(&mut rng, rsa::Pkcs1v15Encrypt, b"nonce-bytes").unwrap();
    let nonce_b64 = base64::engine::general_purpose::STANDARD.encode(nonce);
    let answer = session.answer_nonce(&nonce_b64).unwrap();
    let digest = sha2::Sha256::digest(b"nonce-bytes");
    let expected = base64::engine::general_purpose::URL_SAFE_NO_PAD.encode(digest);
    assert_eq!(text(field(&answer, "proof")), Some(expected));
    let token = public.encrypt(&mut rng, rsa::Pkcs1v15Encrypt, b"tok.en").unwrap();
    let token_b64 = base64::engine::general_purpose::STANDARD.encode(token);
    assert_eq!(session.decrypt_token(&token_b64).as_deref(), Some("tok.en"));
    assert!(session.decrypt_token("%%%").is_none());
    let garbage = base64::engine::general_purpose::STANDARD.encode([7u8; 16]);
    assert!(session.answer_nonce(&garbage).is_none());
    assert!(session.decrypt_token(&garbage).is_none());
    let init = session.init_frame("client");
    assert_eq!(text(field(&init, "op")).as_deref(), Some("init"));
    assert_eq!(text(field(&init, "client_id")).as_deref(), Some("client"));
    assert_eq!(text(field(&init, "encoded_public_key")).as_deref(), Some(session.public_key()));
}

#[test]
fn oauth_authorize_page_asks_for_identify_and_guilds() {
    let u = discord_privacy::auth::oauth_authorize_url("123", "st ate", "chal", "http://127.0.0.1:5000").ok().unwrap();
    let parsed = url::Url::parse(&u).unwrap();
    assert_eq!(parsed.host_str(), Some("discord.com"));
    assert_eq!(parsed.path(), "/oauth2/authorize");
    let pairs: Vec<(String, String)> = parsed.query_pairs().into_owned().collect();
    let expect = [
        ("response_type", "code"),
        ("client_id", "123"),
        ("state", "st ate"),
        ("code_challenge", "chal"),
        ("code_challenge_method", "S256"),
        ("redirect_uri", "http://127.0.0.1:5000"),
        ("scope", "identify guilds"),
    ];
    let expect: Vec<(String, String)> = expect.iter().map(|(k, v)| (k.to_string(), v.to_string())).collect();
    assert_eq!(pairs, expect);
}

#[test]
fn session_of_a_given_key_shows_its_public_half() {
    let mut rng = rand::thread_rng();
    let key = rsa::RsaPrivateKey::new(&mut rng, 1024).unwrap();
    let der = key.to_pkcs8_der().unwrap().as_bytes().to_vec();
    let session = QrSession::from_key_der(der).ok().unwrap();
    let shown = base64::engine::general_purpose::STANDARD.decode(session.public_key()).unwrap();
    let public = rsa::RsaPublicKey::from_public_key_der(&shown).unwrap();
    assert_eq!(public, rsa::RsaPublicKey::from(&key));
    let e = QrSession::from_key_der(vec![1, 2, 3]).err().unwrap();
    assert_eq!(e.user_message, "Public key encoding failed.");
}
