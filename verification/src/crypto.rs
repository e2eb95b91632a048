//! Cryptographic utility for secure data handling: AES-256-GCM encryption
//! with the nonce carried in front of the ciphertext, Argon2id key
//! derivation and password hashing.
use vstd::prelude::*;
use aes_gcm::aead::{Aead, KeyInit};
use rand_core::RngCore;
use argon2::password_hash::{PasswordHash, PasswordHasher, PasswordVerifier, SaltString};
use crate::text::has_prefix;
use crate::codec::{encode_base64, decode_base64, base64_standard, base64_decoded, string_from_utf8};
use crate::error::{AppError, FailureSource, failure_code, failure_message};

verus! {

broadcast use vstd::utf8::group_utf8_lib;

/// The length of an AES-GCM nonce.
pub const NONCE_LEN: usize = 12;

/// The longest plaintext, in bytes, that AES-256-GCM encrypts (2^36).
pub const AES_GCM_MAX_PLAINTEXT: u64 = 0x10_0000_0000;

/// The longest password, and the longest salt, in bytes, that Argon2 takes.
pub const ARGON2_MAX_INPUT: u64 = 0xFFFF_FFFF;

/// The shortest salt, in bytes, that Argon2 takes.
pub const ARGON2_MIN_SALT: u64 = 8;

/// The ciphertext (with its tag) that AES-256-GCM produces for this key, nonce and plaintext.
pub uninterp spec fn aes_gcm_sealed(key: Seq<u8>, nonce: Seq<u8>, plaintext: Seq<u8>) -> Seq<u8>;

/// The plaintext that AES-256-GCM recovers from a ciphertext, when its tag checks out.
pub uninterp spec fn aes_gcm_opened(key: Seq<u8>, nonce: Seq<u8>, ciphertext: Seq<u8>) -> Option<Seq<u8>>;

/// The memory cost (KiB), time cost and parallelism of key derivation.
pub const ARGON2_M_COST: u32 = 65536;
/// The time cost (passes) of key derivation.
pub const ARGON2_T_COST: u32 = 3;
/// The parallelism (lanes) of key derivation.
pub const ARGON2_P_COST: u32 = 4;

/// The 32-byte key that Argon2id (version 0x13) derives from a password and
/// salt with the given memory cost, time cost and parallelism, when it can.
pub uninterp spec fn argon2id_derived(password: Seq<u8>, salt: Seq<u8>, m_cost: nat, t_cost: nat, p_cost: nat) -> Option<
    Seq<u8>,
>;

/// The 32-byte key that key derivation (Argon2id, m=65536, t=3, p=4) gives
/// for a password and salt, when it can.
pub open spec fn argon2_derived(password: Seq<u8>, salt: Seq<u8>) -> Option<Seq<u8>> {
    argon2id_derived(password, salt, ARGON2_M_COST as nat, ARGON2_T_COST as nat, ARGON2_P_COST as nat)
}

/// Whether a password matches a PHC-format Argon2 hash string.
pub uninterp spec fn argon2_matches(password: Seq<u8>, hash: Seq<char>) -> bool;

/// `OsRng::fill_bytes` (rand_core via aes-gcm): `n` bytes from the operating
/// system's generator. Nothing is promised of their values.
#[verifier::external_body]
pub(crate) fn os_random_bytes(n: usize) -> (r: Vec<u8>)
    ensures
        r@.len() == n,
{
    let mut v = vec![0u8; n];
    aes_gcm::aead::OsRng.fill_bytes(&mut v);
    v
}

/// `Aes256Gcm::encrypt`: seals the plaintext under the key and nonce. The
/// result is named; opening it with the same key and nonce gives back the
/// plaintext, as AES-GCM guarantees. It fails exactly for a plaintext longer
/// than 2^36 bytes (the crate's `P_MAX`; there is no associated data). The
/// ciphertext is as long as the plaintext, followed by the 16-byte tag
/// (`encrypt_in_place` appends it). The error's text is not described.
#[verifier::external_body]
fn aes_gcm_seal(key: &[u8], nonce: &[u8], plaintext: &[u8]) -> (r: Result<Vec<u8>, String>)
    requires
        key@.len() == 32,
        nonce@.len() == 12,
    ensures
        r is Ok == (plaintext@.len() <= AES_GCM_MAX_PLAINTEXT),
        r is Ok ==> r->Ok_0@ == aes_gcm_sealed(key@, nonce@, plaintext@),
        r is Ok ==> r->Ok_0@.len() == plaintext@.len() + 16,
        r is Ok ==> aes_gcm_opened(key@, nonce@, r->Ok_0@) == Some(plaintext@),
{
    let cipher = aes_gcm::Aes256Gcm::new(aes_gcm::Key::<aes_gcm::Aes256Gcm>::from_slice(key));
    cipher.encrypt(aes_gcm::Nonce::from_slice(nonce), plaintext).map_err(|e| e.to_string())
}

/// `Aes256Gcm::decrypt`: the plaintext when the tag checks out. The error's
/// text is not described.
#[verifier::external_body]
fn aes_gcm_open(key: &[u8], nonce: &[u8], ciphertext: &[u8]) -> (r: Result<Vec<u8>, String>)
    requires
        key@.len() == 32,
        nonce@.len() == 12,
    ensures
        r is Ok == aes_gcm_opened(key@, nonce@, ciphertext@) is Some,
        r is Ok ==> r->Ok_0@ == aes_gcm_opened(key@, nonce@, ciphertext@).unwrap(),
{
    let cipher = aes_gcm::Aes256Gcm::new(aes_gcm::Key::<aes_gcm::Aes256Gcm>::from_slice(key));
    cipher.decrypt(aes_gcm::Nonce::from_slice(nonce), ciphertext).map_err(|e| e.to_string())
}

/// `Params::new(m_cost, t_cost, p_cost, Some(32))`, then
/// `Argon2::new(Argon2id, V0x13, params).hash_password_into`: a 32-byte key.
/// The result is named; it depends on the password, the salt and the three
/// costs alone. The costs admitted are those `Params::new` accepts (and at
/// most 64 MiB of memory), so that step does not fail. It succeeds exactly
/// for a password of at most `MAX_PWD_LEN` bytes and a salt of
/// `MIN_SALT_LEN` to `MAX_SALT_LEN` bytes (the checks of `verify_inputs`).
/// The error's text is not described.
#[verifier::external_body]
fn argon2_hash_into(password: &[u8], salt: &[u8], m_cost: u32, t_cost: u32, p_cost: u32) -> (r: Result<[u8; 32], String>)
    requires
        8 <= m_cost <= 65536,
        8 * p_cost <= m_cost,
        1 <= t_cost,
        1 <= p_cost <= 0xFF_FFFF,
    ensures
        r is Ok == (password@.len() <= ARGON2_MAX_INPUT && ARGON2_MIN_SALT <= salt@.len() <= ARGON2_MAX_INPUT),
        r is Ok == argon2id_derived(password@, salt@, m_cost as nat, t_cost as nat, p_cost as nat) is Some,
        r is Ok ==> r->Ok_0@ == argon2id_derived(password@, salt@, m_cost as nat, t_cost as nat, p_cost as nat).unwrap(),
{
    let params = argon2::Params::new(m_cost, t_cost, p_cost, Some(32)).map_err(|e| e.to_string())?;
    let hasher = argon2::Argon2::new(argon2::Algorithm::Argon2id, argon2::Version::V0x13, params);
    let mut key = [0u8; 32];
    hasher.hash_password_into(password, salt, &mut key).map(|_| key).map_err(|e| e.to_string())
}

/// `PasswordHash::new` then `Argon2::verify_password`: whether the password
/// matches the hash string (false when the string is not a valid hash; a
/// PHC string starts with `$`, `PasswordHash::parse` refuses any other).
#[verifier::external_body]
fn argon2_verify(password: &[u8], hash: &str) -> (r: bool)
    ensures
        r == argon2_matches(password@, hash@),
        !phc_shaped(hash@) ==> !r,
{
    match PasswordHash::new(hash) {
        Ok(parsed) => argon2::Argon2::default().verify_password(password, &parsed).is_ok(),
        Err(_) => false,
    }
}

/// `SaltString::generate` then `Argon2::hash_password`: a PHC hash string of
/// the password with a fresh random salt. The hash matches the password, as
/// the argon2 crate documents, and it names the algorithm first
/// (`$argon2id$`, as `PasswordHash`'s `Display` writes it). With the generated 16-byte salt it succeeds
/// exactly for a password of at most `MAX_PWD_LEN` bytes. The error's text is not
/// described.
#[verifier::external_body]
fn argon2_hash_password(password: &[u8]) -> (r: Result<String, String>)
    ensures
        r is Ok == (password@.len() <= ARGON2_MAX_INPUT),
        r is Ok ==> argon2_matches(password@, r->Ok_0@),
        r is Ok ==> has_prefix(r->Ok_0@, "$argon2id$"@),
{
    let salt = SaltString::generate(&mut aes_gcm::aead::OsRng);
    argon2::Argon2::default().hash_password(password, &salt).map(|h| h.to_string()).map_err(
        |e| e.to_string(),
    )
}

/// Whether a sealed text decodes to exactly the nonce, the plaintext's
/// length of ciphertext and the 16-byte tag.
pub open spec fn sealed_length(sealed: Seq<char>, plaintext: Seq<char>) -> bool {
    base64_decoded(sealed) is Some && base64_decoded(sealed).unwrap().len() == NONCE_LEN
        + vstd::utf8::encode_utf8(plaintext).len() + 16
}

/// Whether a text has the shape of a PHC hash string: it starts with `$`.
pub open spec fn phc_shaped(hash: Seq<char>) -> bool {
    hash.len() > 0 && hash[0] == '$'
}

/// A hash that `hash_password` issues for a password starts with the `$` of
/// a PHC string, and `verify_password` accepts that password against it.
pub proof fn lemma_issued_hash_verifies(password: Seq<char>, hash: Seq<char>)
    requires
        argon2_matches(vstd::utf8::encode_utf8(password), hash),
        has_prefix(hash, "$argon2id$"@),
    ensures
        phc_shaped(hash),
        argon2_matches(vstd::utf8::encode_utf8(password), hash),
{
    reveal_strlit("$argon2id$");
    assert(hash[0] == "$argon2id$"@[0]);
}

/// Whether AES-256-GCM encrypts a text: its UTF-8 bytes are at most 2^36.
pub open spec fn encryptable(plaintext: Seq<char>) -> bool {
    vstd::utf8::encode_utf8(plaintext).len() <= AES_GCM_MAX_PLAINTEXT
}

/// Whether Argon2 takes a password: its UTF-8 bytes are at most `MAX_PWD_LEN`.
pub open spec fn hashable_password(password: Seq<char>) -> bool {
    vstd::utf8::encode_utf8(password).len() <= ARGON2_MAX_INPUT
}

/// Whether Argon2 takes a salt: its UTF-8 bytes are between `MIN_SALT_LEN` and `MAX_SALT_LEN`.
pub open spec fn usable_salt(salt: Seq<char>) -> bool {
    ARGON2_MIN_SALT <= vstd::utf8::encode_utf8(salt).len() <= ARGON2_MAX_INPUT
}

/// How decrypting a base64 `[nonce][ciphertext]` text with a key turns out:
/// the plaintext, or the error code of the step that fails.
pub open spec fn decrypt_outcome(key: Seq<u8>, text: Seq<char>) -> Result<Seq<char>, Seq<char>> {
    match base64_decoded(text) {
        None => Err(failure_code(FailureSource::Decode)),
        Some(data) => if data.len() < NONCE_LEN {
            Err("crypto_decrypt_invalid_len"@)
        } else {
            match aes_gcm_opened(key, data.take(NONCE_LEN as int), data.skip(NONCE_LEN as int)) {
                None => Err("crypto_decrypt_failed"@),
                Some(plain) => if vstd::utf8::valid_utf8(plain) {
                    Ok(vstd::utf8::decode_utf8(plain))
                } else {
                    Err(failure_code(FailureSource::Utf8))
                },
            }
        },
    }
}

/// The base64 text that encryption with this key and nonce produces.
pub open spec fn encrypted_text(key: Seq<u8>, nonce: Seq<u8>, plaintext: Seq<char>) -> Seq<char> {
    base64_standard(nonce + aes_gcm_sealed(key, nonce, vstd::utf8::encode_utf8(plaintext)))
}

/// The key that a base64 key text stands for, when it decodes to 32 bytes.
pub open spec fn usable_key(key_base64: Seq<char>) -> bool {
    base64_decoded(key_base64) is Some ==> base64_decoded(key_base64).unwrap().len() == 32
}

/// The message shown for each error code of decryption.
pub open spec fn decrypt_error_message(code: Seq<char>) -> Seq<char> {
    if code == failure_code(FailureSource::Decode) {
        failure_message(FailureSource::Decode)
    } else if code == "crypto_decrypt_invalid_len"@ {
        "Decryption failed: invalid data length."@
    } else if code == "crypto_decrypt_failed"@ {
        "Decryption failed."@
    } else {
        failure_message(FailureSource::Utf8)
    }
}

/// Whether a result carries this outcome: the plaintext, or an error with
/// this code and its message.
pub open spec fn matches_outcome(r: Result<String, AppError>, o: Result<Seq<char>, Seq<char>>) -> bool {
    match o {
        Ok(p) => r is Ok && r->Ok_0@ == p,
        Err(code) => r is Err && r->Err_0.error_code@ == code && r->Err_0.user_message@ == decrypt_error_message(
            code,
        ),
    }
}

/// Forensic-grade cryptographic utility for secure data handling.
pub struct Crypto;

impl Crypto {
    /// Generates a new random 256-bit AES key, base64-encoded.
    pub fn generate_key() -> (r: String)
        ensures
            exists|bytes: Seq<u8>| bytes.len() == 32 && r@ == base64_standard(bytes),
            base64_decoded(r@) is Some && base64_decoded(r@).unwrap().len() == 32,
            r@.len() == 44,
    {
        let key_bytes = os_random_bytes(32);
        encode_base64(key_bytes.as_slice())
    }

    /// Derives a 256-bit key from a password and salt with Argon2id
    /// (m=65536 KiB, t=3, p=4); the same inputs always give the same key.
    pub fn derive_key(password: &str, salt: &str) -> (r: Result<[u8; 32], AppError>)
        ensures
            argon2_derived(vstd::utf8::encode_utf8(password@), vstd::utf8::encode_utf8(salt@)) is Some ==> r is Ok
                && r->Ok_0@ == argon2_derived(vstd::utf8::encode_utf8(password@), vstd::utf8::encode_utf8(salt@)).unwrap(),
            argon2_derived(vstd::utf8::encode_utf8(password@), vstd::utf8::encode_utf8(salt@)) is None ==> r is Err
                && r->Err_0.user_message@ == "Key derivation failed."@
                && r->Err_0.error_code@ == "crypto_kdf_failed"@,
            r is Ok == (hashable_password(password@) && usable_salt(salt@)),
    {
        match argon2_hash_into(password.as_bytes(), salt.as_bytes(), ARGON2_M_COST, ARGON2_T_COST, ARGON2_P_COST) {
            Ok(k) => Ok(k),
            Err(e) => Err(crypto_error("Key derivation failed.", "crypto_kdf_failed", Some(e))),
        }
    }

    /// Verifies a plaintext password against a stored Argon2 hash.
    pub fn verify_password(password: &str, hash: &str) -> (r: bool)
        ensures
            r == argon2_matches(vstd::utf8::encode_utf8(password@), hash@),
            !phc_shaped(hash@) ==> !r,
    {
        argon2_verify(password.as_bytes(), hash)
    }

    /// Hashes a password for storage with a fresh random salt; the hash
    /// verifies against the password.
    pub fn hash_password(password: &str) -> (r: Result<String, AppError>)
        ensures
            r is Ok == hashable_password(password@),
            r is Ok ==> argon2_matches(vstd::utf8::encode_utf8(password@), r->Ok_0@),
            r is Ok ==> has_prefix(r->Ok_0@, "$argon2id$"@),
            r is Err ==> r->Err_0.user_message@ == "Password hashing failed."@
                && r->Err_0.error_code@ == "crypto_hash_failed"@,
    {
        match argon2_hash_password(password.as_bytes()) {
            Ok(h) => Ok(h),
            Err(e) => Err(crypto_error("Password hashing failed.", "crypto_hash_failed", Some(e))),
        }
    }

    /// Encrypts plaintext with AES-256-GCM under a base64 key. The result is
    /// the base64 text of [nonce][ciphertext], and it decrypts back to the
    /// plaintext under the same key.
    pub fn encrypt(key_base64: &str, plaintext: &str) -> (r: Result<String, AppError>)
        requires
            usable_key(key_base64@),
        ensures
            base64_decoded(key_base64@) is None ==> r is Err && r->Err_0.error_code@ == failure_code(
                FailureSource::Decode,
            ) && r->Err_0.user_message@ == failure_message(FailureSource::Decode),
            r is Ok ==> decrypt_outcome(base64_decoded(key_base64@).unwrap(), r->Ok_0@) == Ok::<
                Seq<char>,
                Seq<char>,
            >(plaintext@),
            r is Ok ==> exists|nonce: Seq<u8>|
                nonce.len() == NONCE_LEN && r->Ok_0@ == encrypted_text(
                    base64_decoded(key_base64@).unwrap(),
                    nonce,
                    plaintext@,
                ),
            r is Err && base64_decoded(key_base64@) is Some ==> r->Err_0.error_code@
                == "crypto_encrypt_failed"@ && r->Err_0.user_message@ == "Encryption failed."@,
            base64_decoded(key_base64@) is Some ==> (r is Ok == encryptable(plaintext@)),
            r is Ok ==> sealed_length(r->Ok_0@, plaintext@),
    {
        let key_bytes = match decode_base64(key_base64) {
            Ok(k) => k,
            Err(e) => {
                return Err(AppError::from_failure(FailureSource::Decode, Some(e)));
            },
        };
        seal_with(key_bytes.as_slice(), plaintext)
    }

    /// Encrypts plaintext with AES-256-GCM under a raw 32-byte key; the
    /// result decrypts back to the plaintext under the same key.
    pub fn encrypt_raw(key: &[u8; 32], plaintext: &str) -> (r: Result<String, AppError>)
        ensures
            r is Ok ==> decrypt_outcome(key@, r->Ok_0@) == Ok::<Seq<char>, Seq<char>>(plaintext@),
            r is Ok ==> exists|nonce: Seq<u8>|
                nonce.len() == NONCE_LEN && r->Ok_0@ == encrypted_text(key@, nonce, plaintext@),
            r is Err ==> r->Err_0.error_code@ == "crypto_encrypt_failed"@ && r->Err_0.user_message@
                == "Encryption failed."@,
            r is Ok == encryptable(plaintext@),
            r is Ok ==> sealed_length(r->Ok_0@, plaintext@),
    {
        seal_with(key.as_slice(), plaintext)
    }

    /// Decrypts a base64 text produced by `encrypt`.
    pub fn decrypt(key_base64: &str, ciphertext_base64: &str) -> (r: Result<String, AppError>)
        requires
            usable_key(key_base64@),
        ensures
            base64_decoded(key_base64@) is None ==> r is Err && r->Err_0.error_code@ == failure_code(
                FailureSource::Decode,
            ) && r->Err_0.user_message@ == failure_message(FailureSource::Decode),
            base64_decoded(key_base64@) is Some ==> matches_outcome(
                r,
                decrypt_outcome(base64_decoded(key_base64@).unwrap(), ciphertext_base64@),
            ),
    {
        let key_bytes = match decode_base64(key_base64) {
            Ok(k) => k,
            Err(e) => {
                return Err(AppError::from_failure(FailureSource::Decode, Some(e)));
            },
        };
        open_with(key_bytes.as_slice(), ciphertext_base64)
    }

    /// Decrypts a base64 text produced by `encrypt_raw` with a raw 32-byte key.
    pub fn decrypt_raw(key: &[u8; 32], ciphertext_base64: &str) -> (r: Result<String, AppError>)
        ensures
            matches_outcome(r, decrypt_outcome(key@, ciphertext_base64@)),
    {
        open_with(key.as_slice(), ciphertext_base64)
    }

    /// Whether a base64 key can be used by `encrypt` and `decrypt`.
    pub fn key_is_usable(key_base64: &str) -> (r: bool)
        ensures
            r == usable_key(key_base64@),
    {
        match decode_base64(key_base64) {
            Ok(k) => k.len() == 32,
            Err(_) => true,
        }
    }

    /// `encrypt` for any key text: nothing when the key does not decode to
    /// 32 bytes (where `encrypt` cannot be used).
    pub fn try_encrypt(key_base64: &str, plaintext: &str) -> (r: Option<Result<String, AppError>>)
        ensures
            r is None == !usable_key(key_base64@),
            r is Some ==> (r->Some_0 is Ok ==> decrypt_outcome(
                base64_decoded(key_base64@).unwrap(),
                r->Some_0->Ok_0@,
            ) == Ok::<Seq<char>, Seq<char>>(plaintext@)),
    {
        if Self::key_is_usable(key_base64) {
            Some(Self::encrypt(key_base64, plaintext))
        } else {
            None
        }
    }

    /// `decrypt` for any key text: nothing when the key does not decode to
    /// 32 bytes (where `decrypt` cannot be used).
    pub fn try_decrypt(key_base64: &str, ciphertext_base64: &str) -> (r: Option<Result<String, AppError>>)
        ensures
            r is None == !usable_key(key_base64@),
            r is Some && base64_decoded(key_base64@) is Some ==> matches_outcome(
                r->Some_0,
                decrypt_outcome(base64_decoded(key_base64@).unwrap(), ciphertext_base64@),
            ),
    {
        if Self::key_is_usable(key_base64) {
            Some(Self::decrypt(key_base64, ciphertext_base64))
        } else {
            None
        }
    }
}

/// An error of the cryptographic layer.
fn crypto_error(message: &str, code: &str, details: Option<String>) -> (r: AppError)
    ensures
        r.user_message@ == message@,
        r.error_code@ == code@,
        r.technical_details == details,
{
    let mut e = AppError::new(message, code);
    e.technical_details = details;
    e
}

/// Seals `plaintext` under a 32-byte key with a fresh nonce: base64 of [nonce][ciphertext].
fn seal_with(key: &[u8], plaintext: &str) -> (r: Result<String, AppError>)
    requires
        key@.len() == 32,
    ensures
        r is Ok ==> decrypt_outcome(key@, r->Ok_0@) == Ok::<Seq<char>, Seq<char>>(plaintext@),
        r is Ok ==> exists|nonce: Seq<u8>|
            nonce.len() == NONCE_LEN && r->Ok_0@ == encrypted_text(key@, nonce, plaintext@),
        r is Err ==> r->Err_0.error_code@ == "crypto_encrypt_failed"@ && r->Err_0.user_message@
            == "Encryption failed."@,
        r is Ok == encryptable(plaintext@),
        r is Ok ==> sealed_length(r->Ok_0@, plaintext@),
{
    let nonce = os_random_bytes(NONCE_LEN);
    let pt = plaintext.as_bytes();
    let ct = match aes_gcm_seal(key, nonce.as_slice(), pt) {
        Ok(c) => c,
        Err(e) => {
            return Err(crypto_error("Encryption failed.", "crypto_encrypt_failed", Some(e)));
        },
    };
    let mut result: Vec<u8> = Vec::new();
    let mut i: usize = 0;
    while i < nonce.len()
        invariant
            i <= nonce@.len(),
            result@ == nonce@.take(i as int),
        decreases nonce@.len() - i,
    {
        result.push(nonce[i]);
        assert(nonce@.take(i as int).push(nonce@[i as int]) == nonce@.take(i as int + 1));
        i += 1;
    }
    assert(nonce@.take(nonce@.len() as int) == nonce@);
    let mut j: usize = 0;
    while j < ct.len()
        invariant
            j <= ct@.len(),
            result@ == nonce@ + ct@.take(j as int),
        decreases ct@.len() - j,
    {
        result.push(ct[j]);
        assert(ct@.take(j as int).push(ct@[j as int]) == ct@.take(j as int + 1));
        assert((nonce@ + ct@.take(j as int)).push(ct@[j as int]) == nonce@ + ct@.take(j as int + 1));
        j += 1;
    }
    assert(ct@.take(ct@.len() as int) == ct@);
    let text = encode_base64(result.as_slice());
    proof {
        let data = nonce@ + ct@;
        assert(data.take(NONCE_LEN as int) == nonce@);
        assert(data.skip(NONCE_LEN as int) == ct@);
        assert(pt@ == vstd::utf8::encode_utf8(plaintext@));
    }
    Ok(text)
}

/// Opens base64 [nonce][ciphertext] text under a 32-byte key.
fn open_with(key: &[u8], ciphertext_base64: &str) -> (r: Result<String, AppError>)
    requires
        key@.len() == 32,
    ensures
        matches_outcome(r, decrypt_outcome(key@, ciphertext_base64@)),
{
    proof {
        reveal_strlit("decode_error");
        reveal_strlit("crypto_decrypt_invalid_len");
        reveal_strlit("crypto_decrypt_failed");
        assert("crypto_decrypt_invalid_len"@.len() != "decode_error"@.len());
        assert("crypto_decrypt_failed"@.len() != "decode_error"@.len());
        assert("crypto_decrypt_failed"@.len() != "crypto_decrypt_invalid_len"@.len());
        reveal_strlit("utf8_error");
        assert("utf8_error"@.len() != "decode_error"@.len());
        assert("utf8_error"@.len() != "crypto_decrypt_invalid_len"@.len());
        assert("utf8_error"@.len() != "crypto_decrypt_failed"@.len());
    }
    let decoded = match decode_base64(ciphertext_base64) {
        Ok(d) => d,
        Err(e) => {
            return Err(AppError::from_failure(FailureSource::Decode, Some(e)));
        },
    };
    if decoded.len() < NONCE_LEN {
        return Err(crypto_error("Decryption failed: invalid data length.", "crypto_decrypt_invalid_len", None));
    }
    let mut nonce: Vec<u8> = Vec::new();
    let mut body: Vec<u8> = Vec::new();
    let mut i: usize = 0;
    while i < decoded.len()
        invariant
            NONCE_LEN <= decoded@.len(),
            i <= decoded@.len(),
            i <= NONCE_LEN ==> nonce@ == decoded@.take(i as int) && body@.len() == 0,
            i > NONCE_LEN ==> nonce@ == decoded@.take(NONCE_LEN as int) && body@ == decoded@.subrange(
                NONCE_LEN as int,
                i as int,
            ),
        decreases decoded@.len() - i,
    {
        if i < NONCE_LEN {
            nonce.push(decoded[i]);
            assert(decoded@.take(i as int).push(decoded@[i as int]) == decoded@.take(i as int + 1));
        } else {
            body.push(decoded[i]);
            assert(decoded@.subrange(NONCE_LEN as int, i as int).push(decoded@[i as int])
                == decoded@.subrange(NONCE_LEN as int, i as int + 1));
        }
        i += 1;
    }
    assert(decoded@.subrange(NONCE_LEN as int, decoded@.len() as int) == decoded@.skip(NONCE_LEN as int));
    if decoded.len() == NONCE_LEN {
        assert(body@ == decoded@.skip(NONCE_LEN as int));
    }
    let plain = match aes_gcm_open(key, nonce.as_slice(), body.as_slice()) {
        Ok(p) => p,
        Err(e) => {
            return Err(crypto_error("Decryption failed.", "crypto_decrypt_failed", Some(e)));
        },
    };
    match string_from_utf8(plain) {
        Ok(s) => Ok(s),
        Err(e) => Err(AppError::from_failure(FailureSource::Utf8, Some(e))),
    }
}

} // verus!
