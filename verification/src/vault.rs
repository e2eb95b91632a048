//! The vault's rules: how identities and credentials are named in secure
//! storage, how the identity index is kept, how the vault key is found or
//! made, and how a master password seals and unseals the vault key.
use vstd::prelude::*;
use crate::crypto::{Crypto, argon2_matches, argon2_derived, decrypt_outcome, encrypted_text, NONCE_LEN, encryptable, hashable_password, usable_salt};
use crate::error::AppError;
use crate::janitor::RULES_KEY;
use crate::text::{concat2, concat3, string_views};

verus! {

/// Represents a validated Discord user identity stored in the Vault.
pub struct DiscordIdentity {
    /// Discord User ID (Snowflake).
    pub id: String,
    /// Discord username.
    pub username: String,
    /// Discord API token (User Token or OAuth2 Access Token).
    pub token: String,
    /// Whether the token was obtained via OAuth2.
    pub is_oauth: bool,
}

/// The storage key of an identity.
pub open spec fn account_key_of(id: Seq<char>) -> Seq<char> {
    "account_"@ + id
}

/// The file name of a value's encrypted fallback copy.
pub open spec fn fallback_file_of(key: Seq<char>) -> Seq<char> {
    key + ".secure"@
}

/// The index after an identity is saved: unchanged if it lists the id, else the id appended.
pub open spec fn index_with_spec(index: Seq<Seq<char>>, id: Seq<char>) -> Seq<Seq<char>> {
    if index.contains(id) { index } else { index.push(id) }
}

/// The index after an identity is removed: every entry for the id dropped.
pub open spec fn index_without_spec(index: Seq<Seq<char>>, id: Seq<char>) -> Seq<Seq<char>> {
    index.filter(|x: Seq<char>| x != id)
}

/// The salt from which the master-password key is derived.
pub const MASTER_SALT: &'static str = "com.discordprivacy.vault.salt";

/// The keychain service of all entries.
pub const SERVICE_NAME: &'static str = "com.discordprivacy.util";
/// The entry of the vault key.
pub const ENCRYPTION_KEY_SERVICE_NAME: &'static str = "com.discordprivacy.util.enc_key";
/// The entry of the master password hash.
pub const MASTER_HASH_SERVICE_NAME: &'static str = "com.discordprivacy.util.master_hash";
/// The entry that names the active account.
pub const ACTIVE_ACCOUNT_KEY: &'static str = "active_account";
/// The entry that lists the stored identities.
pub const IDENTITY_INDEX_KEY: &'static str = "identity_index";

pub struct IdentityManager;

impl IdentityManager {
    /// The storage key of an identity: `account_{id}`.
    pub fn account_key(id: &str) -> (r: String)
        ensures
            r@ == account_key_of(id@),
    {
        concat2("account_", id)
    }

    /// The index after saving the identity `id`.
    pub fn index_with(index: &Vec<String>, id: &str) -> (r: Vec<String>)
        ensures
            string_views(r@) == index_with_spec(string_views(index@), id@),
    {
        let key = String::from_str(id);
        let mut out: Vec<String> = Vec::new();
        let mut found = false;
        let mut i: usize = 0;
        while i < index.len()
            invariant
                i <= index@.len(),
                key@ == id@,
                string_views(out@) == string_views(index@).take(i as int),
                found == string_views(index@).take(i as int).contains(id@),
            decreases index@.len() - i,
        {
            let ghost before = string_views(index@).take(i as int);
            if index[i] == key {
                found = true;
            }
            out.push(index[i].clone());
            proof {
                let after = string_views(index@).take(i + 1);
                assert(after == before.push(index@[i as int]@));
                assert(string_views(out@) == after);
                if after.contains(id@) {
                    let k = choose|k: int| 0 <= k < after.len() && after[k] == id@;
                    if k < i {
                        assert(before[k] == id@);
                    }
                }
                if before.contains(id@) {
                    let k = choose|k: int| 0 <= k < before.len() && before[k] == id@;
                    assert(after[k] == id@);
                }
                if index@[i as int]@ == id@ {
                    assert(after[i as int] == id@);
                }
            }
            i += 1;
        }
        assert(string_views(index@).take(i as int) == string_views(index@));
        if !found {
            out.push(key);
        }
        out
    }

    /// The index after removing the identity `id`.
    pub fn index_without(index: &Vec<String>, id: &str) -> (r: Vec<String>)
        ensures
            string_views(r@) == index_without_spec(string_views(index@), id@),
    {
        let key = String::from_str(id);
        let mut out: Vec<String> = Vec::new();
        let mut i: usize = 0;
        while i < index.len()
            invariant
                i <= index@.len(),
                key@ == id@,
                string_views(out@) == index_without_spec(string_views(index@).take(i as int), id@),
            decreases index@.len() - i,
        {
            let ghost before = string_views(index@).take(i as int);
            proof {
                let after = string_views(index@).take(i + 1);
                assert(after.drop_last() == before);
                assert(after.last() == index@[i as int]@);
                assert(index_without_spec(after, id@) == if index@[i as int]@ != id@ {
                    index_without_spec(before, id@).push(index@[i as int]@)
                } else {
                    index_without_spec(before, id@)
                }) by {
                    reveal(Seq::filter);
                }
            }
            if !(index[i] == key) {
                out.push(index[i].clone());
            }
            i += 1;
        }
        assert(string_views(index@).take(i as int) == string_views(index@));
        out
    }

    /// The token of an identity and whether it is an OAuth token.
    pub fn active_token(identity: DiscordIdentity) -> (r: (String, bool))
        ensures
            r.0 == identity.token,
            r.1 == identity.is_oauth,
    {
        (identity.token, identity.is_oauth)
    }
}

pub struct FallbackManager;

impl FallbackManager {
    /// The file name of a value's encrypted fallback copy: `{key}.secure`.
    pub fn fallback_file_name(key: &str) -> (r: String)
        ensures
            r@ == fallback_file_of(key@),
    {
        concat2(key, ".secure")
    }

    /// The error for a value that neither the keychain nor the fallback file holds.
    pub fn missing_error() -> (r: AppError)
        ensures
            r.user_message@ == "Credential not found in local storage."@,
            r.error_code@ == "credentials_missing"@,
            r.technical_details is None,
    {
        AppError::new("Credential not found in local storage.", "credentials_missing")
    }
}

/// The message for a credential that setup has not stored.
pub open spec fn missing_credential_message(key: Seq<char>) -> Seq<char> {
    "Credential '"@ + key + "' not found. Please complete Setup."@
}

pub struct CredentialManager;

impl CredentialManager {
    /// The error that a failed credential lookup reports: a missing value
    /// becomes a request to complete setup; any other error passes through.
    pub fn lookup_error(key: &str, err: AppError) -> (r: AppError)
        ensures
            err.error_code@ == "credentials_missing"@ ==> {
                &&& r.user_message@ == missing_credential_message(key@)
                &&& r.error_code@ == "vault_credentials_missing"@
                &&& r.technical_details == err.technical_details
            },
            err.error_code@ != "credentials_missing"@ ==> r == err,
    {
        let missing = String::from_str("credentials_missing");
        if err.error_code == missing {
            let mut e = AppError::new("", "vault_credentials_missing");
            e.user_message = concat3("Credential '", key, "' not found. Please complete Setup.");
            e.technical_details = err.technical_details;
            e
        } else {
            err
        }
    }
}

/// Where the vault key comes from.
pub enum KeyResolution {
    /// The key is already unlocked in memory, or stored in the clear.
    Found(String),
    /// No key exists yet: a fresh one is to be made and stored.
    Generate,
    /// A master password protects the key and it has not been given.
    Locked,
}

/// Whether a resolution is the one that the vault's rules give for these lookups.
pub open spec fn resolution_matches(
    r: KeyResolution,
    in_memory: Option<Seq<char>>,
    has_master_password: bool,
    keychain: Option<Seq<char>>,
    fallback_file: Option<Seq<char>>,
) -> bool {
    match in_memory {
        Some(k) => r matches KeyResolution::Found(f) && f@ == k,
        None => if has_master_password {
            r is Locked
        } else {
            match keychain {
                Some(k) => r matches KeyResolution::Found(f) && f@ == k,
                None => match fallback_file {
                    Some(k) => r matches KeyResolution::Found(f) && f@ == k,
                    None => r is Generate,
                },
            }
        },
    }
}

/// The vault is locked until unlocked.
pub open spec fn locked_message() -> Seq<char> {
    "Vault is locked. Master password required."@
}

/// Why unsealing a vault key fails.
pub ghost enum UnsealFailure {
    NoMasterPassword,
    WrongPassword,
    KeyMissing,
    DerivationFailed,
    /// Decrypting the sealed key failed with this error code.
    Decrypt(Seq<char>),
}

/// The outcome of unsealing a vault key with a password.
pub open spec fn unseal_outcome(
    password: Seq<char>,
    hash: Option<Seq<char>>,
    encrypted_key: Option<Seq<char>>,
) -> Result<Seq<char>, UnsealFailure> {
    match hash {
        None => Err(UnsealFailure::NoMasterPassword),
        Some(h) => if !argon2_matches(vstd::utf8::encode_utf8(password), h) {
            Err(UnsealFailure::WrongPassword)
        } else {
            match encrypted_key {
                None => Err(UnsealFailure::KeyMissing),
                Some(ek) => match argon2_derived(
                    vstd::utf8::encode_utf8(password),
                    vstd::utf8::encode_utf8(MASTER_SALT@),
                ) {
                    None => Err(UnsealFailure::DerivationFailed),
                    Some(dk) => match decrypt_outcome(dk, ek) {
                        Ok(k) => Ok(k),
                        Err(code) => Err(UnsealFailure::Decrypt(code)),
                    },
                },
            }
        },
    }
}

/// Whether an unsealing result reports this outcome.
pub open spec fn unseal_matches(r: Result<String, AppError>, o: Result<Seq<char>, UnsealFailure>) -> bool {
    match o {
        Ok(k) => r is Ok && r->Ok_0@ == k,
        Err(UnsealFailure::NoMasterPassword) => r is Err && r->Err_0.user_message@ == "No master password set."@,
        Err(UnsealFailure::WrongPassword) => r is Err && r->Err_0.user_message@ == "Incorrect master password."@
            && r->Err_0.error_code@ == "invalid_master_password"@,
        Err(UnsealFailure::KeyMissing) => r is Err && r->Err_0.user_message@ == "Vault key missing."@,
        Err(UnsealFailure::DerivationFailed) => r is Err && r->Err_0.user_message@ == "Key derivation failed."@
            && r->Err_0.error_code@ == "crypto_kdf_failed"@,
        Err(UnsealFailure::Decrypt(code)) => r is Err && r->Err_0.error_code@ == code,
    }
}

/// Each character takes one to four bytes in UTF-8.
proof fn lemma_utf8_len_bounds(chars: Seq<char>)
    ensures
        chars.len() <= vstd::utf8::encode_utf8(chars).len() <= 4 * chars.len(),
    decreases chars.len(),
{
    if chars.len() > 0 {
        lemma_utf8_len_bounds(chars.drop_first());
    }
}

/// The salt of the master password is one Argon2 takes.
proof fn lemma_master_salt_usable()
    ensures
        usable_salt(MASTER_SALT@),
{
    reveal_strlit("com.discordprivacy.vault.salt");
    lemma_utf8_len_bounds(MASTER_SALT@);
}

/// The hash and sealed key that a master password produces for a vault key.
pub struct SealedKey {
    pub hash: String,
    pub encrypted_key: String,
}

pub struct EncryptionManager;

impl EncryptionManager {
    /// Decides where the vault key comes from, given what memory, the
    /// keychain and the fallback file hold and whether a master password is set.
    pub fn resolve_key(
        in_memory: Option<String>,
        has_master_password: bool,
        keychain: Option<String>,
        fallback_file: Option<String>,
    ) -> (r: KeyResolution)
        ensures
            resolution_matches(
                r,
                crate::limiter::opt_view(in_memory),
                has_master_password,
                crate::limiter::opt_view(keychain),
                crate::limiter::opt_view(fallback_file),
            ),
    {
        match in_memory {
            Some(k) => KeyResolution::Found(k),
            None => if has_master_password {
                KeyResolution::Locked
            } else {
                match keychain {
                    Some(k) => KeyResolution::Found(k),
                    None => match fallback_file {
                        Some(k) => KeyResolution::Found(k),
                        None => KeyResolution::Generate,
                    },
                }
            },
        }
    }

    /// The error for a locked vault.
    pub fn locked_error() -> (r: AppError)
        ensures
            r.user_message@ == locked_message(),
            r.error_code@ == "vault_locked"@,
    {
        AppError::new("Vault is locked. Master password required.", "vault_locked")
    }

    /// Seals the vault key under a master password: its Argon2 hash, and the
    /// vault key encrypted under the key derived from it. Unsealing the result
    /// with the same password gives back the vault key. It succeeds exactly
    /// when Argon2 takes the password and AES-GCM the key.
    pub fn seal_with_password(password: &str, current_key: &str) -> (r: Result<SealedKey, AppError>)
        ensures
            r is Ok == (hashable_password(password@) && encryptable(current_key@)),
            r is Ok ==> unseal_outcome(
                password@,
                Some(r->Ok_0.hash@),
                Some(r->Ok_0.encrypted_key@),
            ) == Ok::<Seq<char>, UnsealFailure>(current_key@),
            r is Ok ==> argon2_matches(vstd::utf8::encode_utf8(password@), r->Ok_0.hash@),
            r is Ok ==> exists|nonce: Seq<u8>|
                nonce.len() == NONCE_LEN && r->Ok_0.encrypted_key@ == encrypted_text(
                    argon2_derived(
                        vstd::utf8::encode_utf8(password@),
                        vstd::utf8::encode_utf8(MASTER_SALT@),
                    ).unwrap(),
                    nonce,
                    current_key@,
                ),
    {
        proof {
            lemma_master_salt_usable();
        }
        let hash = Crypto::hash_password(password)?;
        let derived = Crypto::derive_key(password, MASTER_SALT)?;
        let encrypted_key = Crypto::encrypt_raw(&derived, current_key)?;
        Ok(SealedKey { hash, encrypted_key })
    }

    /// Verifies the master password and returns the decrypted vault key.
    pub fn unseal_with_password(
        password: &str,
        hash: Option<String>,
        encrypted_key: Option<String>,
    ) -> (r: Result<String, AppError>)
        ensures
            unseal_matches(
                r,
                unseal_outcome(password@, crate::limiter::opt_view(hash), crate::limiter::opt_view(encrypted_key)),
            ),
    {
        let h = match hash {
            Some(h) => h,
            None => {
                return Err(AppError::message("No master password set."));
            },
        };
        if !Crypto::verify_password(password, h.as_str()) {
            return Err(AppError::new("Incorrect master password.", "invalid_master_password"));
        }
        let ek = match encrypted_key {
            Some(k) => k,
            None => {
                return Err(AppError::message("Vault key missing."));
            },
        };
        let derived = Crypto::derive_key(password, MASTER_SALT)?;
        Crypto::decrypt_raw(&derived, ek.as_str())
    }
}

/// The vault: identities and credentials in secure storage.
pub struct Vault;

/// Every entry the vault stores besides the identities and the
/// active-account and index entries: the OAuth application's id and secret,
/// the proxy, the janitor's rules, the master password's hash and the vault
/// key. A full wipe removes them all.
pub open spec fn wiped_credentials() -> Seq<Seq<char>> {
    seq![
        "client_id"@,
        "client_secret"@,
        "proxy_url"@,
        RULES_KEY@,
        MASTER_HASH_SERVICE_NAME@,
        ENCRYPTION_KEY_SERVICE_NAME@,
    ]
}

impl Vault {
    /// The error when no identity is active.
    pub fn no_active_session() -> (r: AppError)
        ensures
            r.user_message@ == "No active session found. Please login."@,
            r.error_code@ == "no_active_session"@,
    {
        AppError::new("No active session found. Please login.", "no_active_session")
    }

    /// The entries that a full wipe removes, besides the identities and the
    /// active-account and index entries: every credential and setting the
    /// vault stores, the master password and the vault key among them.
    pub fn wiped_credential_keys() -> (r: Vec<&'static str>)
        ensures
            r@.len() == wiped_credentials().len(),
            forall|i: int| 0 <= i < r@.len() ==> (#[trigger] r@[i])@ == wiped_credentials()[i],
    {
        vec!["client_id", "client_secret", "proxy_url", RULES_KEY, MASTER_HASH_SERVICE_NAME, ENCRYPTION_KEY_SERVICE_NAME]
    }

    /// The identity of a list with an id, or the error that it is not there.
    pub fn find_identity(identities: &Vec<DiscordIdentity>, id: &str) -> (r: Result<usize, AppError>)
        ensures
            r matches Ok(i) ==> i < identities@.len() && identities@[i as int].id@ == id@ && forall|j: int|
                0 <= j < i ==> identities@[j].id@ != id@,
            r is Err <==> forall|j: int| 0 <= j < identities@.len() ==> identities@[j].id@ != id@,
            r matches Err(e) ==> e.user_message@ == "Identity not found."@,
    {
        let key = String::from_str(id);
        let mut i: usize = 0;
        while i < identities.len()
            invariant
                i <= identities@.len(),
                key@ == id@,
                forall|j: int| 0 <= j < i ==> identities@[j].id@ != id@,
            decreases identities@.len() - i,
        {
            if identities[i].id == key {
                return Ok(i);
            }
            i += 1;
        }
        Err(AppError::new("Identity not found.", ""))
    }
}

/// The vault key held in memory while the application runs.
pub struct VaultState {
    encryption_key: Option<String>,
}

impl VaultState {
    /// The key held, if any.
    pub closed spec fn held_key(&self) -> Option<Seq<char>> {
        crate::limiter::opt_view(self.encryption_key)
    }

    /// Nothing held: the state at start.
    pub fn new() -> (r: VaultState)
        ensures
            r.held_key() is None,
    {
        VaultState { encryption_key: None }
    }

    /// The key held, if any.
    pub fn key(&self) -> (r: Option<String>)
        ensures
            crate::limiter::opt_view(r) == self.held_key(),
    {
        match &self.encryption_key {
            Some(k) => Some(k.clone()),
            None => None,
        }
    }

    /// Whether the vault is locked: a master password is set and its key is
    /// not held.
    pub fn is_locked(&self, has_master_password: bool) -> (r: bool)
        ensures
            r == (has_master_password && self.held_key() is None),
    {
        has_master_password && self.encryption_key.is_none()
    }

    /// After the master password was set or cleared: a new password locks
    /// the vault until it is given; clearing it holds the key that is now
    /// stored in the clear.
    pub fn master_password_changed(&mut self, password_set: bool, plain_key: Option<String>)
        ensures
            password_set ==> final(self).held_key() is None,
            !password_set ==> final(self).held_key() == crate::limiter::opt_view(plain_key),
    {
        if password_set {
            self.encryption_key = None;
        } else {
            self.encryption_key = plain_key;
        }
    }

    /// Holds the key that the master password unsealed.
    pub fn unlock(&mut self, key: String)
        ensures
            final(self).held_key() == Some(key@),
    {
        self.encryption_key = Some(key);
    }
}

} // verus!
