//! The remote-auth (QR code) handshake: what each frame of the gateway asks
//! for, and the answers and the token that come out of the RSA key that the
//! session holds.
use vstd::prelude::*;
use crate::json::{lemma_key_index_unique, JsonValue, field, str_of, u64_of, field_str, field_u64, str_or, field_str_or};
use crate::error::AppError;
use crate::text::{chars_eq_str, append_chars, string_from_chars};
use crate::codec::{encode_base64, decode_base64, base64_decoded, base64_standard, encode_base64_url_no_pad, base64_url_no_pad, sha256, sha256_digest};
use crate::auth::{AuthFailure, auth_failure_message};
use rsa::pkcs8::{DecodePrivateKey, EncodePrivateKey, EncodePublicKey};

verus! {

/// The SPKI DER encoding of the public half of an RSA private key given in
/// PKCS#8 DER, when the key parses and the encoding succeeds.
pub uninterp spec fn rsa_public_key_der(private_der: Seq<u8>) -> Option<Seq<u8>>;

/// The PKCS#1 v1.5 plaintext of a ciphertext under an RSA private key given
/// in PKCS#8 DER, when the key parses and the ciphertext decrypts.
pub uninterp spec fn rsa_pkcs1v15_decrypted(private_der: Seq<u8>, ciphertext: Seq<u8>) -> Option<Seq<u8>>;

/// The size in bits of the modulus of an RSA private key given in PKCS#8
/// DER, when the key parses.
pub uninterp spec fn rsa_der_key_bits(der: Seq<u8>) -> Option<nat>;

/// `RsaPrivateKey::new(&mut rand::thread_rng(), bits)` from rsa, the key
/// then written by `to_pkcs8_der`: a fresh random key in PKCS#8 DER, or
/// nothing when generation or encoding fails. Its modulus has exactly `bits`
/// bits: generation retries until it does. Nothing else is promised of the
/// bytes.
#[verifier::external_body]
fn generate_rsa_key_der(bits: usize) -> (r: Option<Vec<u8>>)
    ensures
        r is Some ==> rsa_der_key_bits(r->Some_0@) == Some(bits as nat),
{
    let mut rng = rand::thread_rng();
    let key = rsa::RsaPrivateKey::new(&mut rng, bits).ok()?;
    key.to_pkcs8_der().ok().map(|d| d.as_bytes().to_vec())
}

/// `RsaPrivateKey::from_pkcs8_der` then `RsaPublicKey::from(&key)` and
/// `to_public_key_der` from rsa: the SPKI DER of the key's public half. The
/// result is named; it depends on the key's bytes alone.
#[verifier::external_body]
fn public_key_der(private_der: &[u8]) -> (r: Option<Vec<u8>>)
    ensures
        r is Some == rsa_public_key_der(private_der@) is Some,
        r is Some ==> r->Some_0@ == rsa_public_key_der(private_der@).unwrap(),
{
    let key = rsa::RsaPrivateKey::from_pkcs8_der(private_der).ok()?;
    rsa::RsaPublicKey::from(&key).to_public_key_der().ok().map(|d| d.as_bytes().to_vec())
}

/// `RsaPrivateKey::from_pkcs8_der` then `decrypt(Pkcs1v15Encrypt, ciphertext)`
/// from rsa. `decrypt` uses no blinding generator, so the result depends on
/// the key's bytes and the ciphertext alone; it is named.
#[verifier::external_body]
fn rsa_decrypt(private_der: &[u8], ciphertext: &[u8]) -> (r: Option<Vec<u8>>)
    ensures
        r is Some == rsa_pkcs1v15_decrypted(private_der@, ciphertext@) is Some,
        r is Some ==> r->Some_0@ == rsa_pkcs1v15_decrypted(private_der@, ciphertext@).unwrap(),
{
    let key = rsa::RsaPrivateKey::from_pkcs8_der(private_der).ok()?;
    key.decrypt(rsa::Pkcs1v15Encrypt, ciphertext).ok()
}

/// `String::from_utf8_lossy` from std: valid UTF-8 is decoded as it is;
/// what the replacement characters of invalid input look like is not
/// described.
#[verifier::external_body]
fn utf8_lossy(bytes: &[u8]) -> (r: String)
    ensures
        vstd::utf8::valid_utf8(bytes@) ==> r@ == vstd::utf8::decode_utf8(bytes@),
{
    String::from_utf8_lossy(bytes).into_owned()
}

/// The gateway of the remote-auth handshake.
pub const QR_GATEWAY_URL: &'static str = "wss://remote-auth-gateway.discord.gg/?v=2";

/// The heartbeat interval used until the gateway gives one, in milliseconds.
pub const DEFAULT_HEARTBEAT_MS: u64 = 30000;

/// The size of the session's RSA key in bits.
pub const RSA_KEY_BITS: usize = 2048;

/// What a frame of the gateway asks of the session.
pub enum QrStep {
    /// `hello`: beat at this interval and send the `init` frame.
    Hello { interval_ms: u64 },
    /// `nonce_proof`: decrypt the nonce and prove it.
    NonceProof { encrypted_nonce: String },
    /// `fingerprint`: show the QR code of this URL.
    ShowCode { url: String },
    /// `pending_remote_init`: a phone scanned the code.
    Scanned,
    /// `finish`: decrypt the token, sign in, and stop.
    Finish { encrypted_token: String },
    /// Anything else.
    Ignore,
}

/// Whether a step is what a frame of the gateway asks.
pub open spec fn qr_step_matches(frame: JsonValue, s: QrStep) -> bool {
    let op = str_or(frame, "op"@, "unknown"@);
    if op == "hello"@ {
        s == QrStep::Hello {
            interval_ms: match u64_of(field(frame, "heartbeat_interval"@)) {
                Some(n) => n,
                None => 30000,
            },
        }
    } else if op == "nonce_proof"@ {
        s matches QrStep::NonceProof { encrypted_nonce } && encrypted_nonce@ == str_or(
            frame,
            "encrypted_nonce"@,
            ""@,
        )
    } else if op == "fingerprint"@ {
        match str_of(field(frame, "fingerprint"@)) {
            Some(fp) => s matches QrStep::ShowCode { url } && url@ == "https://discord.com/ra/"@ + fp,
            None => s is Ignore,
        }
    } else if op == "pending_remote_init"@ {
        s is Scanned
    } else if op == "finish"@ {
        s matches QrStep::Finish { encrypted_token } && encrypted_token@ == str_or(
            frame,
            "encrypted_token"@,
            ""@,
        )
    } else {
        s is Ignore
    }
}

/// What a frame of the gateway asks of the session.
pub fn qr_step(frame: &JsonValue) -> (r: QrStep)
    ensures
        qr_step_matches(*frame, r),
{
    let op = field_str_or(frame, "op", "unknown");
    if chars_eq_str(op.as_slice(), "hello") {
        let interval_ms = match field_u64(frame, "heartbeat_interval") {
            Some(n) => n,
            None => DEFAULT_HEARTBEAT_MS,
        };
        QrStep::Hello { interval_ms }
    } else if chars_eq_str(op.as_slice(), "nonce_proof") {
        let n = field_str_or(frame, "encrypted_nonce", "");
        QrStep::NonceProof { encrypted_nonce: string_from_chars(n.as_slice()) }
    } else if chars_eq_str(op.as_slice(), "fingerprint") {
        match field_str(frame, "fingerprint") {
            Some(fp) => {
                let mut url = String::from_str("https://discord.com/ra/");
                append_chars(&mut url, fp.as_slice());
                QrStep::ShowCode { url }
            },
            None => QrStep::Ignore,
        }
    } else if chars_eq_str(op.as_slice(), "pending_remote_init") {
        QrStep::Scanned
    } else if chars_eq_str(op.as_slice(), "finish") {
        let t = field_str_or(frame, "encrypted_token", "");
        QrStep::Finish { encrypted_token: string_from_chars(t.as_slice()) }
    } else {
        QrStep::Ignore
    }
}

/// The frame `{ "op": op }` with a second field, when one is given.
fn op_frame(op: &str, extra: Option<(&str, String)>) -> (r: JsonValue)
    ensures
        str_of(field(r, "op"@)) == Some(op@),
        extra matches Some((k, v)) ==> (k@ != "op"@ ==> str_of(field(r, k@)) == Some(v@)),
{
    let mut entries = vec![(String::from_str("op"), JsonValue::Str(String::from_str(op)))];
    proof {
        lemma_key_index_unique(entries@, "op"@, 0);
    }
    match extra {
        Some((k, v)) => {
            entries.push((String::from_str(k), JsonValue::Str(v)));
            proof {
                lemma_key_index_unique(entries@, "op"@, 0);
                if k@ != "op"@ {
                    lemma_key_index_unique(entries@, k@, 1);
                }
            }
        },
        None => {},
    }
    JsonValue::Object(entries)
}

/// The heartbeat frame.
pub fn qr_heartbeat_frame() -> (r: JsonValue)
    ensures
        str_of(field(r, "op"@)) == Some("heartbeat"@),
{
    op_frame("heartbeat", None)
}

/// The proof of a decrypted nonce: its SHA-256 digest in unpadded URL-safe
/// base64.
pub open spec fn nonce_proof_of(nonce: Seq<u8>) -> Seq<char> {
    base64_url_no_pad(sha256(nonce))
}

/// The frame that proves a decrypted nonce.
pub fn nonce_proof_frame(nonce: &[u8]) -> (r: JsonValue)
    ensures
        str_of(field(r, "op"@)) == Some("nonce_proof"@),
        str_of(field(r, "proof"@)) == Some(nonce_proof_of(nonce@)),
{
    let digest = sha256_digest(nonce);
    let proof_text = encode_base64_url_no_pad(digest.as_slice());
    proof {
        reveal_strlit("proof");
        reveal_strlit("op");
        assert("proof"@.len() != "op"@.len());
    }
    op_frame("nonce_proof", Some(("proof", proof_text)))
}

/// A remote-auth session: its RSA private key in PKCS#8 DER and the public
/// half in base64.
pub struct QrSession {
    key_der: Vec<u8>,
    public_key_base64: String,
}

impl QrSession {
    /// The session's private key in PKCS#8 DER.
    pub closed spec fn key_bytes(&self) -> Seq<u8> {
        self.key_der@
    }

    /// What a base64 ciphertext of the gateway decrypts to under the
    /// session's key: nothing when it does not decode or decrypt.
    pub open spec fn decrypted(&self, encrypted: Seq<char>) -> Option<Seq<u8>> {
        match base64_decoded(encrypted) {
            Some(ciphertext) => rsa_pkcs1v15_decrypted(self.key_bytes(), ciphertext),
            None => None,
        }
    }

    /// The public half of the session's key, in standard base64.
    pub closed spec fn public_key_text(&self) -> Seq<char> {
        self.public_key_base64@
    }

    /// The public half of the session's key, in standard base64.
    pub fn public_key(&self) -> (r: &str)
        ensures
            r@ == self.public_key_text(),
    {
        self.public_key_base64.as_str()
    }

    /// The session of a private key given in PKCS#8 DER: it shows the
    /// base64 of the key's public half, or fails when that half cannot be
    /// had from the bytes.
    pub fn from_key_der(key_der: Vec<u8>) -> (r: Result<QrSession, AppError>)
        ensures
            r is Ok == (rsa_public_key_der(key_der@) is Some),
            r matches Ok(s) ==> s.key_bytes() == key_der@ && s.public_key_text() == base64_standard(
                rsa_public_key_der(key_der@).unwrap(),
            ),
            r matches Err(e) ==> e.user_message@ == auth_failure_message(AuthFailure::PublicKeyEncodingFailed),
    {
        let der = match public_key_der(key_der.as_slice()) {
            Some(d) => d,
            None => return Err(AuthFailure::PublicKeyEncodingFailed.to_error()),
        };
        let public_key_base64 = encode_base64(der.as_slice());
        Ok(QrSession { key_der, public_key_base64 })
    }

    /// A session with a fresh 2048-bit key, or the failure to make one. The
    /// public key it shows is the public half of its private key. The
    /// encoding error comes only for a generated key whose public half
    /// cannot be had.
    pub fn new() -> (r: Result<QrSession, AppError>)
        ensures
            r matches Ok(s) ==> rsa_public_key_der(s.key_bytes()) is Some && s.public_key_text()
                == base64_standard(rsa_public_key_der(s.key_bytes()).unwrap()),
            r matches Ok(s) ==> rsa_der_key_bits(s.key_bytes()) == Some(RSA_KEY_BITS as nat),
            r matches Err(e) ==> e.user_message@ == auth_failure_message(
                AuthFailure::RsaGenerationFailed,
            ) || e.user_message@ == auth_failure_message(AuthFailure::PublicKeyEncodingFailed),
            r matches Err(e) && e.user_message@ == auth_failure_message(AuthFailure::PublicKeyEncodingFailed)
                ==> exists|k: Seq<u8>|
                rsa_der_key_bits(k) == Some(RSA_KEY_BITS as nat) && #[trigger] rsa_public_key_der(k) is None,
    {
        let key_der = match generate_rsa_key_der(RSA_KEY_BITS) {
            Some(k) => k,
            None => {
                proof {
                    reveal_strlit("RSA generation failed.");
                    reveal_strlit("Public key encoding failed.");
                    assert("RSA generation failed."@.len() != "Public key encoding failed."@.len());
                }
                return Err(AuthFailure::RsaGenerationFailed.to_error());
            },
        };
        let ghost k = key_der@;
        let r = Self::from_key_der(key_der);
        proof {
            if r is Err {
                assert(rsa_public_key_der(k) is None);
            }
        }
        r
    }

    /// The `init` frame: the public key and the client id.
    pub fn init_frame(&self, client_id: &str) -> (r: JsonValue)
        ensures
            str_of(field(r, "op"@)) == Some("init"@),
            str_of(field(r, "encoded_public_key"@)) == Some(self.public_key_text()),
            str_of(field(r, "client_id"@)) == Some(client_id@),
    {
        let entries = vec![
            (String::from_str("op"), JsonValue::Str(String::from_str("init"))),
            (String::from_str("encoded_public_key"), JsonValue::Str(self.public_key_base64.clone())),
            (String::from_str("client_id"), JsonValue::Str(String::from_str(client_id))),
        ];
        proof {
            reveal_strlit("op");
            reveal_strlit("encoded_public_key");
            reveal_strlit("client_id");
            assert("op"@.len() != "encoded_public_key"@.len());
            assert("op"@.len() != "client_id"@.len());
            assert("encoded_public_key"@.len() != "client_id"@.len());
            lemma_key_index_unique(entries@, "op"@, 0);
            lemma_key_index_unique(entries@, "encoded_public_key"@, 1);
            lemma_key_index_unique(entries@, "client_id"@, 2);
        }
        JsonValue::Object(entries)
    }

    fn decrypt_base64(&self, encrypted: &str) -> (r: Option<Vec<u8>>)
        ensures
            r is Some == self.decrypted(encrypted@) is Some,
            r is Some ==> r->Some_0@ == self.decrypted(encrypted@).unwrap(),
    {
        match decode_base64(encrypted) {
            Ok(bytes) => rsa_decrypt(self.key_der.as_slice(), bytes.as_slice()),
            Err(_) => None,
        }
    }

    /// The answer to a `nonce_proof` frame: the proof of the decrypted
    /// nonce, or nothing when the nonce does not decode or decrypt.
    pub fn answer_nonce(&self, encrypted_nonce: &str) -> (r: Option<JsonValue>)
        ensures
            r is Some == self.decrypted(encrypted_nonce@) is Some,
            r matches Some(f) ==> str_of(field(f, "op"@)) == Some("nonce_proof"@) && str_of(field(f, "proof"@))
                == Some(nonce_proof_of(self.decrypted(encrypted_nonce@).unwrap())),
    {
        match self.decrypt_base64(encrypted_nonce) {
            Some(nonce) => Some(nonce_proof_frame(nonce.as_slice())),
            None => None,
        }
    }

    /// The token of a `finish` frame: the decrypted bytes read as UTF-8
    /// (invalid sequences replaced), or nothing when it does not decode or
    /// decrypt.
    pub fn decrypt_token(&self, encrypted_token: &str) -> (r: Option<String>)
        ensures
            r is Some == self.decrypted(encrypted_token@) is Some,
            r matches Some(t) ==> (vstd::utf8::valid_utf8(self.decrypted(encrypted_token@).unwrap()) ==> t@
                == vstd::utf8::decode_utf8(self.decrypted(encrypted_token@).unwrap())),
    {
        match self.decrypt_base64(encrypted_token) {
            Some(bytes) => Some(utf8_lossy(bytes.as_slice())),
            None => None,
        }
    }
}

} // verus!
