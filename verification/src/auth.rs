//! Signing in: the token a user pastes, the OAuth redirect that comes back
//! to the local listener, the local client's RPC handshake and the remote
//! QR handshake, and the process checks behind the client status.
use vstd::prelude::*;
use crate::json::{lemma_key_index_unique, JsonValue, field, field2, str_of, field_str, field2_str, array_of};
use crate::error::{AppError, FailureSource, failure_code};
use crate::text::{chars_of, append_str, append_chars, append_decimal, decimal, string_from_chars, contains_seq, contains_chars, before_first, prefix_before, chars_eq_str};
use crate::words::{Trimmed, trim_of, trim_chars, strip_prefix_all, strip_prefix_repeated, nth_word, second_word, ascii_lower, to_ascii_lower};
use crate::actions::single_field;
use crate::limiter::opt_view;
use crate::codec::{encode_base64_url_no_pad, base64_url_no_pad, sha256, sha256_digest};
use vstd::string::StringSliceAdditionalSpecFns;

verus! {

/// The OAuth2 client configuration.
pub struct OAuthConfig {
    pub client_id: String,
    pub client_secret: Option<String>,
    pub scopes: Vec<String>,
    pub redirect_uri: String,
}

/// What the tool found of the Discord client on this machine.
pub struct DiscordStatus {
    pub is_running: bool,
    pub rpc_available: bool,
    pub browser_detected: bool,
    pub active_pid: Option<u32>,
    pub detected_port: Option<u16>,
    pub installation_path: Option<String>,
}

/// The user's profile as `/users/@me` returns it.
pub struct DiscordUser {
    pub id: String,
    pub username: String,
    pub discriminator: String,
    pub avatar: Option<String>,
    pub email: Option<String>,
    pub mfa_enabled: bool,
    pub flags: u64,
    pub verified: bool,
}

/// A token as the tool stores it: without surrounding white space, without
/// leading "Bearer " prefixes, without surrounding double quotes.
pub open spec fn normalized_token(token: Seq<char>) -> Seq<char> {
    trim_of(strip_prefix_all(trim_of(token, Trimmed::WhiteSpace), "Bearer "@), Trimmed::Char('"'))
}

/// The token as the tool stores it: trimmed, every leading "Bearer " taken
/// off, then the surrounding double quotes taken off.
pub fn normalize_token(token: &str) -> (r: String)
    ensures
        r@ == normalized_token(token@),
{
    let cs = chars_of(token);
    let t = trim_chars(cs.as_slice(), Trimmed::WhiteSpace);
    let bearer = chars_of("Bearer ");
    let s = strip_prefix_repeated(t.as_slice(), bearer.as_slice());
    let q = trim_chars(s.as_slice(), Trimmed::Char('"'));
    string_from_chars(q.as_slice())
}

/// The query pairs of a URL as `url::Url::parse` and `query_pairs` decode
/// them, in order; none when the URL does not parse.
pub uninterp spec fn url_query_pairs(url: Seq<char>) -> Option<Seq<(Seq<char>, Seq<char>)>>;

/// The views of a list of string pairs.
pub open spec fn pair_views(v: Seq<(String, String)>) -> Seq<(Seq<char>, Seq<char>)> {
    v.map_values(|p: (String, String)| (p.0@, p.1@))
}

/// `url::Url::parse(url)` and its `query_pairs()`, decoded: the result is
/// named, and depends on the text alone.
#[verifier::external_body]
fn query_pairs(url: &str) -> (r: Option<Vec<(String, String)>>)
    ensures
        match r {
            Some(v) => url_query_pairs(url@) == Some(pair_views(v@)),
            None => url_query_pairs(url@) is None,
        },
{
    match url::Url::parse(url) {
        Ok(u) => Some(u.query_pairs().into_owned().collect()),
        Err(_) => None,
    }
}

/// The URL that `url::Url::parse_with_params` makes of a base URL and query
/// pairs (the pairs form-urlencoded and appended in order); none when the
/// base does not parse.
pub uninterp spec fn url_with_query(base: Seq<char>, pairs: Seq<(Seq<char>, Seq<char>)>) -> Option<Seq<char>>;

/// `url::Url::parse_with_params(base, pairs)` from url, as text. The result
/// is named, and depends on the base and the pairs alone.
#[verifier::external_body]
fn parse_with_params(base: &str, pairs: &Vec<(String, String)>) -> (r: Option<String>)
    ensures
        match r {
            Some(u) => url_with_query(base@, pair_views(pairs@)) == Some(u@),
            None => url_with_query(base@, pair_views(pairs@)) is None,
        },
{
    url::Url::parse_with_params(base, pairs.iter()).ok().map(String::from)
}

/// The page where the user authorizes the application.
pub const OAUTH_AUTHORIZE_URL: &'static str = "https://discord.com/oauth2/authorize";

/// The query of the authorization page: a code with a PKCE (S256)
/// challenge, the CSRF state, the local redirect and the `identify` and
/// `guilds` scopes.
pub open spec fn authorize_params(
    client_id: Seq<char>,
    state: Seq<char>,
    challenge: Seq<char>,
    redirect_uri: Seq<char>,
) -> Seq<(Seq<char>, Seq<char>)> {
    seq![
        ("response_type"@, "code"@),
        ("client_id"@, client_id),
        ("state"@, state),
        ("code_challenge"@, challenge),
        ("code_challenge_method"@, "S256"@),
        ("redirect_uri"@, redirect_uri),
        ("scope"@, "identify guilds"@),
    ]
}

/// The authorization page to open in the browser, or the parse error.
pub fn oauth_authorize_url(client_id: &str, state: &str, challenge: &str, redirect_uri: &str) -> (r: Result<
    String,
    AppError,
>)
    ensures
        match url_with_query(OAUTH_AUTHORIZE_URL@, authorize_params(client_id@, state@, challenge@, redirect_uri@)) {
            Some(u) => r is Ok && r->Ok_0@ == u,
            None => r is Err && r->Err_0.error_code@ == failure_code(FailureSource::Parse),
        },
{
    let pairs = vec![
        (String::from_str("response_type"), String::from_str("code")),
        (String::from_str("client_id"), String::from_str(client_id)),
        (String::from_str("state"), String::from_str(state)),
        (String::from_str("code_challenge"), String::from_str(challenge)),
        (String::from_str("code_challenge_method"), String::from_str("S256")),
        (String::from_str("redirect_uri"), String::from_str(redirect_uri)),
        (String::from_str("scope"), String::from_str("identify guilds")),
    ];
    assert(pair_views(pairs@) =~= authorize_params(client_id@, state@, challenge@, redirect_uri@));
    match parse_with_params(OAUTH_AUTHORIZE_URL, &pairs) {
        Some(u) => Ok(u),
        None => Err(AppError::from_failure(FailureSource::Parse, None)),
    }
}

/// The value of the last pair with a key, as collecting the pairs into a
/// map keeps it.
pub open spec fn last_value_of(pairs: Seq<(Seq<char>, Seq<char>)>, key: Seq<char>) -> Option<Seq<char>>
    decreases pairs.len(),
{
    if pairs.len() == 0 {
        None
    } else if pairs.last().0 == key {
        Some(pairs.last().1)
    } else {
        last_value_of(pairs.drop_last(), key)
    }
}

fn last_value(pairs: &Vec<(String, String)>, key: &str) -> (r: Option<String>)
    ensures
        match r {
            Some(v) => last_value_of(pair_views(pairs@), key@) == Some(v@),
            None => last_value_of(pair_views(pairs@), key@) is None,
        },
{
    let mut i = pairs.len();
    let k = String::from_str(key);
    assert(pairs@.take(pairs@.len() as int) == pairs@);
    while i > 0
        invariant
            i <= pairs@.len(),
            k@ == key@,
            last_value_of(pair_views(pairs@), key@) == last_value_of(pair_views(pairs@.take(i as int)), key@),
        decreases i,
    {
        assert(pair_views(pairs@.take(i as int)).last() == (pairs@[i - 1].0@, pairs@[i - 1].1@));
        if pairs[i - 1].0 == k {
            return Some(pairs[i - 1].1.clone());
        }
        assert(pair_views(pairs@.take(i as int)).drop_last() =~= pair_views(pairs@.take(i - 1)));
        i -= 1;
    }
    None
}

/// What the redirect to the local listener brought back.
pub enum OAuthCallback {
    /// The state matched and an authorization code came with it.
    Code(String),
    /// The state matched but no code came.
    NoCode,
    /// The state is missing or does not match: the redirect is refused.
    StateMismatch,
    /// The request names no URL that parses.
    Unreadable,
}

/// Whether an outcome is the one that the query pairs bring.
pub open spec fn callback_matches(pairs: Seq<(Seq<char>, Seq<char>)>, csrf: Seq<char>, c: OAuthCallback) -> bool {
    if last_value_of(pairs, "state"@) == Some(csrf) {
        match last_value_of(pairs, "code"@) {
            Some(code) => c matches OAuthCallback::Code(got) && got@ == code,
            None => c is NoCode,
        }
    } else {
        c is StateMismatch
    }
}

/// What the query pairs of a redirect bring: the code when the state is the
/// one that was sent (the last value of each key counts).
pub fn callback_from_pairs(pairs: &Vec<(String, String)>, csrf: &str) -> (r: OAuthCallback)
    ensures
        callback_matches(pair_views(pairs@), csrf@, r),
{
    let state = last_value(pairs, "state");
    let state_ok = match &state {
        Some(s) => {
            let cs = chars_of(s.as_str());
            chars_eq_str(cs.as_slice(), csrf)
        },
        None => false,
    };
    if state_ok {
        match last_value(pairs, "code") {
            Some(c) => OAuthCallback::Code(c),
            None => OAuthCallback::NoCode,
        }
    } else {
        OAuthCallback::StateMismatch
    }
}

/// The path that an HTTP request asks for: the second word of its first line.
pub open spec fn request_path(request: Seq<char>) -> Option<Seq<char>> {
    nth_word(before_first(request, '\n'), 1)
}

/// What a redirect request to the local listener brings, for the state
/// that was sent. The path is read as a URL of `http://127.0.0.1`.
pub fn oauth_callback(request: &str, csrf: &str) -> (r: OAuthCallback)
    ensures
        match request_path(request@) {
            None => r is Unreadable,
            Some(path) => match url_query_pairs("http://127.0.0.1"@ + path) {
                None => r is Unreadable,
                Some(pairs) => callback_matches(pairs, csrf@, r),
            },
        },
{
    let cs = chars_of(request);
    let line = prefix_before(cs.as_slice(), '\n');
    match second_word(line.as_slice()) {
        None => OAuthCallback::Unreadable,
        Some(path) => {
            let mut url = String::from_str("http://127.0.0.1");
            append_chars(&mut url, path.as_slice());
            match query_pairs(url.as_str()) {
                None => OAuthCallback::Unreadable,
                Some(pairs) => callback_from_pairs(&pairs, csrf),
            }
        },
    }
}

/// The answer the local listener sends to the browser.
pub const OAUTH_CALLBACK_RESPONSE: &'static str = "HTTP/1.1 200 OK
Content-Type: text/html

<html><body style='font-family:sans-serif; text-align:center; padding-top:100px; background:#0a0a0a; color:white;'><h1>Handshake Successful</h1><p>Auth signature verified. You can return to the application.</p></body></html>";

/// The redirect URI of the local listener on a port.
pub fn oauth_redirect_uri(port: u16) -> (r: String)
    ensures
        r@ == "http://127.0.0.1:"@ + decimal(port as nat),
{
    let mut s = String::from_str("http://127.0.0.1:");
    append_decimal(&mut s, port as u64);
    s
}

/// The first port the local Discord client's RPC server may listen on.
pub const RPC_PORT_FIRST: u16 = 6463;
/// The last port the local Discord client's RPC server may listen on.
pub const RPC_PORT_LAST: u16 = 6472;

/// The RPC socket URL of the local client on a port.
pub fn rpc_socket_url(port: u16, client_id: &str) -> (r: String)
    ensures
        r@ == "ws://127.0.0.1:"@ + decimal(port as nat) + "/?v=1&client_id="@ + client_id@,
{
    let mut s = String::from_str("ws://127.0.0.1:");
    append_decimal(&mut s, port as u64);
    append_str(&mut s, "/?v=1&client_id=");
    append_str(&mut s, client_id);
    s
}

/// Whether a frame of the RPC socket is the client's READY event.
pub fn is_ready_frame(frame: &JsonValue) -> (r: bool)
    ensures
        r == (str_of(field(*frame, "evt"@)) == Some("READY"@)),
{
    match field_str(frame, "evt") {
        Some(e) => chars_eq_str(e.as_slice(), "READY"),
        None => false,
    }
}

/// The AUTHORIZE command that asks the local client for the user's consent
/// to the `identify` and `guilds` scopes.
pub fn rpc_authorize_payload(client_id: &str, nonce: &str) -> (r: JsonValue)
    ensures
        str_of(field(r, "cmd"@)) == Some("AUTHORIZE"@),
        str_of(field2(r, "args"@, "client_id"@)) == Some(client_id@),
        str_of(field2(r, "args"@, "prompt"@)) == Some("consent"@),
        str_of(field(r, "nonce"@)) == Some(nonce@),
        array_of(field2(r, "args"@, "scopes"@)) matches Some(items) && items.len() == 2 && str_of(Some(items[0]))
            == Some("identify"@) && str_of(Some(items[1])) == Some("guilds"@),
{
    let scopes = JsonValue::Array(
        vec![JsonValue::Str(String::from_str("identify")), JsonValue::Str(String::from_str("guilds"))],
    );
    let args_entries = vec![
        (String::from_str("client_id"), JsonValue::Str(String::from_str(client_id))),
        (String::from_str("scopes"), scopes),
        (String::from_str("prompt"), JsonValue::Str(String::from_str("consent"))),
    ];
    proof {
        reveal_strlit("client_id");
        reveal_strlit("scopes");
        reveal_strlit("prompt");
        lemma_key_index_unique(args_entries@, "client_id"@, 0);
        assert("client_id"@.len() != "prompt"@.len());
        assert("scopes"@[0] != "prompt"@[0]);
        assert("client_id"@.len() != "scopes"@.len());
        lemma_key_index_unique(args_entries@, "prompt"@, 2);
        lemma_key_index_unique(args_entries@, "scopes"@, 1);
    }
    let args = JsonValue::Object(args_entries);
    let entries = vec![
        (String::from_str("cmd"), JsonValue::Str(String::from_str("AUTHORIZE"))),
        (String::from_str("args"), args),
        (String::from_str("nonce"), JsonValue::Str(String::from_str(nonce))),
    ];
    proof {
        reveal_strlit("cmd");
        reveal_strlit("args");
        reveal_strlit("nonce");
        lemma_key_index_unique(entries@, "cmd"@, 0);
        assert("cmd"@.len() != "args"@.len());
        assert("cmd"@.len() != "nonce"@.len());
        assert("args"@.len() != "nonce"@.len());
        lemma_key_index_unique(entries@, "args"@, 1);
        lemma_key_index_unique(entries@, "nonce"@, 2);
    }
    JsonValue::Object(entries)
}

/// What a frame of the RPC socket answers to the AUTHORIZE command.
pub enum RpcReply {
    /// Not the answer to our command.
    Ignored,
    /// The user or the client refused, with this message.
    Denied(String),
    /// The user consented; the authorization code.
    Code(String),
}

/// Whether a reply is what a frame answers for our nonce: a message means
/// a refusal, else a code means consent.
pub open spec fn rpc_reply_matches(frame: JsonValue, nonce: Seq<char>, r: RpcReply) -> bool {
    if str_of(field(frame, "nonce"@)) == Some(nonce) {
        match str_of(field2(frame, "data"@, "message"@)) {
            Some(m) => r matches RpcReply::Denied(got) && got@ == m,
            None => match str_of(field2(frame, "data"@, "code"@)) {
                Some(c) => r matches RpcReply::Code(got) && got@ == c,
                None => r is Ignored,
            },
        }
    } else {
        r is Ignored
    }
}

/// What a frame of the RPC socket answers to the AUTHORIZE command with
/// this nonce.
pub fn rpc_reply(frame: &JsonValue, nonce: &str) -> (r: RpcReply)
    ensures
        rpc_reply_matches(*frame, nonce@, r),
{
    let ours = match field_str(frame, "nonce") {
        Some(n) => chars_eq_str(n.as_slice(), nonce),
        None => false,
    };
    if !ours {
        return RpcReply::Ignored;
    }
    match field2_str(frame, "data", "message") {
        Some(m) => RpcReply::Denied(string_from_chars(m.as_slice())),
        None => match field2_str(frame, "data", "code") {
            Some(c) => RpcReply::Code(string_from_chars(c.as_slice())),
            None => RpcReply::Ignored,
        },
    }
}

/// The failures of signing in that the tool reports.
#[derive(PartialEq, Eq, Structural, Clone, Copy)]
pub enum AuthFailure {
    RpcNotDetected,
    RpcTimeout,
    RpcSocketClosed,
    RpcConsentTimeout,
    AccessTokenMissing,
    RsaGenerationFailed,
    PublicKeyEncodingFailed,
    OAuthTimeout,
    OAuthExchangeFailed,
    IdentityNotFound,
}

/// The message of a failure.
pub open spec fn auth_failure_message(f: AuthFailure) -> Seq<char> {
    match f {
        AuthFailure::RpcNotDetected => "Discord desktop client not detected or RPC is disabled."@,
        AuthFailure::RpcTimeout => "Connection timed out"@,
        AuthFailure::RpcSocketClosed => "Socket closed prematurely"@,
        AuthFailure::RpcConsentTimeout => "RPC authorization timed out. Please check Discord for the consent prompt."@,
        AuthFailure::AccessTokenMissing => "Access token missing in response."@,
        AuthFailure::RsaGenerationFailed => "RSA generation failed."@,
        AuthFailure::PublicKeyEncodingFailed => "Public key encoding failed."@,
        AuthFailure::OAuthTimeout => "Authorization timed out."@,
        AuthFailure::OAuthExchangeFailed => "Exchange protocol failure."@,
        AuthFailure::IdentityNotFound => "Identity not found."@,
    }
}

/// The code of a failure (empty for most).
pub open spec fn auth_failure_code(f: AuthFailure) -> Seq<char> {
    match f {
        AuthFailure::RpcTimeout => "rpc_timeout"@,
        AuthFailure::RpcSocketClosed => "rpc_socket_closed"@,
        _ => ""@,
    }
}

impl AuthFailure {
    /// The error the tool reports for the failure.
    pub fn to_error(self) -> (r: AppError)
        ensures
            r.user_message@ == auth_failure_message(self),
            r.error_code@ == auth_failure_code(self),
            r.discord_code is None,
            r.semantic_error is None,
            r.technical_details is None,
    {
        match self {
            AuthFailure::RpcNotDetected => AppError::new(
                "Discord desktop client not detected or RPC is disabled.",
                "",
            ),
            AuthFailure::RpcTimeout => AppError::new("Connection timed out", "rpc_timeout"),
            AuthFailure::RpcSocketClosed => AppError::new(
                "Socket closed prematurely",
                "rpc_socket_closed",
            ),
            AuthFailure::RpcConsentTimeout => AppError::new(
                "RPC authorization timed out. Please check Discord for the consent prompt.",
                "",
            ),
            AuthFailure::AccessTokenMissing => AppError::new("Access token missing in response.", ""),
            AuthFailure::RsaGenerationFailed => AppError::new("RSA generation failed.", ""),
            AuthFailure::PublicKeyEncodingFailed => AppError::new("Public key encoding failed.", ""),
            AuthFailure::OAuthTimeout => AppError::new("Authorization timed out.", ""),
            AuthFailure::OAuthExchangeFailed => AppError::new("Exchange protocol failure.", ""),
            AuthFailure::IdentityNotFound => AppError::new("Identity not found.", ""),
        }
    }
}

/// The error for a refusal of the local client: "RPC denied: " and its message.
pub fn rpc_denied(message: &str) -> (r: AppError)
    ensures
        r.user_message@ == "RPC denied: "@ + message@,
        r.error_code@ == ""@,
        r.technical_details is None,
{
    let mut m = String::from_str("RPC denied: ");
    append_str(&mut m, message);
    AppError::new(m.as_str(), "")
}

/// The access token of a token exchange: the refusal with the response's
/// text when the exchange failed, else the response's `access_token`.
pub fn token_from_exchange(succeeded: bool, response: &JsonValue, rendered: &str) -> (r: Result<String, AppError>)
    ensures
        !succeeded ==> (r matches Err(e) && e.user_message@ == "Token exchange failed."@
            && e.error_code@ == ""@ && opt_view(e.technical_details) == Some(rendered@)),
        succeeded ==> match str_of(field(*response, "access_token"@)) {
            Some(t) => r matches Ok(got) && got@ == t,
            None => r matches Err(e) && e.user_message@ == auth_failure_message(
                AuthFailure::AccessTokenMissing,
            ) && e.error_code@ == ""@,
        },
{
    if !succeeded {
        let mut e = AppError::new("Token exchange failed.", "");
        e.technical_details = Some(String::from_str(rendered));
        return Err(e);
    }
    match field_str(response, "access_token") {
        Some(t) => Ok(string_from_chars(t.as_slice())),
        None => Err(AuthFailure::AccessTokenMissing.to_error()),
    }
}

/// The form of the token exchange for an authorization code from the local
/// client.
pub fn rpc_token_form(client_id: &str, client_secret: &str, code: &str) -> (r: Vec<(String, String)>)
    ensures
        pair_views(r@) == seq![
            ("client_id"@, client_id@),
            ("client_secret"@, client_secret@),
            ("grant_type"@, "authorization_code"@),
            ("code"@, code@),
            ("redirect_uri"@, "http://127.0.0.1"@),
        ],
{
    let r = vec![
        (String::from_str("client_id"), String::from_str(client_id)),
        (String::from_str("client_secret"), String::from_str(client_secret)),
        (String::from_str("grant_type"), String::from_str("authorization_code")),
        (String::from_str("code"), String::from_str(code)),
        (String::from_str("redirect_uri"), String::from_str("http://127.0.0.1")),
    ];
    assert(pair_views(r@) =~= seq![
        ("client_id"@, client_id@),
        ("client_secret"@, client_secret@),
        ("grant_type"@, "authorization_code"@),
        ("code"@, code@),
        ("redirect_uri"@, "http://127.0.0.1"@),
    ]);
    r
}

/// Whether a process is the Discord client (stable, PTB or Canary), by its
/// name in ASCII lower case.
pub open spec fn is_discord_process_name(name: Seq<char>) -> bool {
    let n = ascii_lower(name);
    contains_seq(n, "discord"@) || contains_seq(n, "discordptb"@) || contains_seq(n, "discordcanary"@)
}

/// Whether a process is the Discord client, by its name.
pub fn is_discord_process(name: &str) -> (r: bool)
    ensures
        r == is_discord_process_name(name@),
{
    let n = to_ascii_lower(name);
    let c = chars_of(n.as_str());
    let a = chars_of("discord");
    let b = chars_of("discordptb");
    let d = chars_of("discordcanary");
    contains_chars(c.as_slice(), a.as_slice()) || contains_chars(c.as_slice(), b.as_slice())
        || contains_chars(c.as_slice(), d.as_slice())
}

/// The names of the browsers whose processes the status looks for.
pub open spec fn browser_names() -> Seq<Seq<char>> {
    seq!["chrome"@, "firefox"@, "msedge"@, "brave"@, "safari"@, "opera"@]
}

/// Whether a process is a browser, by its name in ASCII lower case.
pub open spec fn is_browser_process_name(name: Seq<char>) -> bool {
    exists|i: int| 0 <= i < browser_names().len() && contains_seq(ascii_lower(name), #[trigger] browser_names()[i])
}

/// Whether a process is a browser, by its name.
pub fn is_browser_process(name: &str) -> (r: bool)
    ensures
        r == is_browser_process_name(name@),
{
    let n = to_ascii_lower(name);
    let c = chars_of(n.as_str());
    let names: [&str; 6] = ["chrome", "firefox", "msedge", "brave", "safari", "opera"];
    let mut i: usize = 0;
    while i < 6
        invariant
            i <= 6,
            c@ == ascii_lower(name@),
            names@.len() == 6,
            forall|k: int| 0 <= k < 6 ==> (#[trigger] names@[k])@ == browser_names()[k],
            forall|k: int| 0 <= k < i ==> !contains_seq(c@, browser_names()[k]),
        decreases 6 - i,
    {
        let b = chars_of(names[i]);
        if contains_chars(c.as_slice(), b.as_slice()) {
            assert(contains_seq(ascii_lower(name@), browser_names()[i as int]));
            return true;
        }
        i += 1;
    }
    false
}

/// A fresh PKCE code verifier: 32 random bytes in unpadded URL-safe base64.
pub fn pkce_verifier() -> (r: String)
    ensures
        exists|bytes: Seq<u8>| bytes.len() == 32 && r@ == base64_url_no_pad(bytes),
{
    let bytes = crate::crypto::os_random_bytes(32);
    encode_base64_url_no_pad(bytes.as_slice())
}

/// The S256 PKCE challenge of a verifier: the SHA-256 of its bytes in
/// unpadded URL-safe base64.
pub fn pkce_challenge(verifier: &str) -> (r: String)
    ensures
        r@ == base64_url_no_pad(sha256(verifier.spec_bytes())),
{
    let digest = sha256_digest(verifier.as_bytes());
    encode_base64_url_no_pad(digest.as_slice())
}

} // verus!
