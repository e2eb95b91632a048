//! Forensic helpers: redaction of logs, detection of personal data in the
//! cache, decoy traffic, secure deletion, encrypted backups, the integrity
//! stamp of exports and the checks of the Discord client's installation.
use vstd::prelude::*;
use crate::json::{JsonValue, str_or, field_str_or};
use crate::error::AppError;
use crate::crypto::{Crypto, usable_key, decrypt_outcome, encryptable};
use crate::codec::{base64_decoded, sha256, sha256_digest, hex_of, to_hex};
use crate::text::{string_views, chars_of, string_from_chars, append_str, append_signed_decimal, signed_decimal, contains_seq, str_contains, has_prefix, starts_with_chars};
use crate::actions::HttpMethod;
use crate::limiter::opt_view;
use vstd::string::StringSliceAdditionalSpecFns;

verus! {

/// What replacing every match of a regular expression in a text gives, as
/// `regex::Regex::new(pattern)` and `replace_all` compute it; none when the
/// pattern does not compile.
pub uninterp spec fn regex_replaced(pattern: Seq<char>, text: Seq<char>, replacement: Seq<char>) -> Option<Seq<char>>;

/// Whether a regular expression matches somewhere in a text, as
/// `regex::Regex::new(pattern)` and `is_match` decide it; none when the
/// pattern does not compile.
pub uninterp spec fn regex_found(pattern: Seq<char>, text: Seq<char>) -> Option<bool>;

/// The first capture group of the first match of a regular expression in a
/// text, as `regex::Regex::new(pattern)` and `captures` find it; none when
/// the pattern does not compile.
pub uninterp spec fn regex_first_group(pattern: Seq<char>, text: Seq<char>) -> Option<Option<Seq<char>>>;

/// `Regex::new(pattern)` then `replace_all(text, replacement)` from regex.
/// The result is named and depends on the three texts alone.
#[verifier::external_body]
fn regex_replace_all(pattern: &str, text: &str, replacement: &str) -> (r: Option<String>)
    ensures
        opt_view(r) == regex_replaced(pattern@, text@, replacement@),
{
    match regex::Regex::new(pattern) {
        Ok(re) => Some(re.replace_all(text, replacement).into_owned()),
        Err(_) => None,
    }
}

/// `Regex::new(pattern)` then `is_match(text)` from regex. The result is
/// named and depends on the two texts alone.
#[verifier::external_body]
fn regex_is_match(pattern: &str, text: &str) -> (r: Option<bool>)
    ensures
        r == regex_found(pattern@, text@),
{
    match regex::Regex::new(pattern) {
        Ok(re) => Some(re.is_match(text)),
        Err(_) => None,
    }
}

/// `Regex::new(pattern)` then the first group of `captures(text)` from
/// regex. The result is named and depends on the two texts alone.
#[verifier::external_body]
fn regex_capture(pattern: &str, text: &str) -> (r: Option<Option<String>>)
    ensures
        match r {
            Some(g) => regex_first_group(pattern@, text@) == Some(opt_view(g)),
            None => regex_first_group(pattern@, text@) is None,
        },
{
    match regex::Regex::new(pattern) {
        Ok(re) => Some(re.captures(text).and_then(|c| c.get(1)).map(|m| m.as_str().to_string())),
        Err(_) => None,
    }
}

/// What redaction puts in place of a secret.
pub const REDACTION: &'static str = "[REDACTED]";

/// The patterns of secrets that the log redacts, in the order they are
/// applied: Discord tokens, MFA tokens, e-mail addresses, IPv4 addresses
/// and proxy credentials.
pub open spec fn redaction_patterns() -> Seq<Seq<char>> {
    seq![
        "[a-zA-Z0-9_-]{24}\\.[a-zA-Z0-9_-]{6}\\.[a-zA-Z0-9_-]{27,38}"@,
        "mfa\\.[a-zA-Z0-9_-]{84}"@,
        "[a-zA-Z0-9._%+-]+@[a-zA-Z0-9.-]+\\.[a-zA-Z]{2,}"@,
        "\\b(?:\\d{1,3}\\.){3}\\d{1,3}\\b"@,
        "(?i)(socks5|http|https)://[^:]+:[^@]+@"@,
    ]
}

/// A text with every match of the patterns replaced, one pattern after the
/// other (a pattern that does not compile leaves the text as it is).
pub open spec fn redacted_by(text: Seq<char>, patterns: Seq<Seq<char>>) -> Seq<char>
    decreases patterns.len(),
{
    if patterns.len() == 0 {
        text
    } else {
        let t = redacted_by(text, patterns.drop_last());
        match regex_replaced(patterns.last(), t, "[REDACTED]"@) {
            Some(u) => u,
            None => t,
        }
    }
}

/// The application's log.
pub struct Logger;

impl Logger {
    /// The message with tokens, e-mail addresses, IP addresses and proxy
    /// credentials replaced by "[REDACTED]".
    pub fn redact(message: &str) -> (r: String)
        ensures
            r@ == redacted_by(message@, redaction_patterns()),
    {
        let pats: [&str; 5] = [
            "[a-zA-Z0-9_-]{24}\\.[a-zA-Z0-9_-]{6}\\.[a-zA-Z0-9_-]{27,38}",
            "mfa\\.[a-zA-Z0-9_-]{84}",
            "[a-zA-Z0-9._%+-]+@[a-zA-Z0-9.-]+\\.[a-zA-Z]{2,}",
            "\\b(?:\\d{1,3}\\.){3}\\d{1,3}\\b",
            "(?i)(socks5|http|https)://[^:]+:[^@]+@",
        ];
        let mut text = String::from_str(message);
        let mut i: usize = 0;
        assert(redaction_patterns().take(0) == Seq::<Seq<char>>::empty());
        while i < 5
            invariant
                i <= 5,
                pats@.len() == 5,
                forall|k: int| 0 <= k < 5 ==> (#[trigger] pats@[k])@ == redaction_patterns()[k],
                text@ == redacted_by(message@, redaction_patterns().take(i as int)),
            decreases 5 - i,
        {
            proof {
                assert(redaction_patterns().take(i + 1).drop_last() == redaction_patterns().take(i as int));
                assert(redaction_patterns().take(i + 1).last() == redaction_patterns()[i as int]);
            }
            match regex_replace_all(pats[i], text.as_str(), REDACTION) {
                Some(u) => {
                    text = u;
                },
                None => {},
            }
            i += 1;
        }
        assert(redaction_patterns().take(5) == redaction_patterns());
        text
    }
}

/// A message of the cache in which personal data was found.
pub struct PIIResult {
    pub message_id: String,
    pub channel_id: String,
    pub detected_types: Vec<String>,
    pub snippet: String,
}

/// The detector of personal data in cached messages.
pub struct PIIClassifier;

/// The kinds of personal data the detector knows, with their patterns.
pub open spec fn pii_patterns() -> Seq<(Seq<char>, Seq<char>)> {
    seq![
        ("Email"@, "[a-zA-Z0-9._%+-]+@[a-zA-Z0-9.-]+\\.[a-zA-Z]{2,}"@),
        ("Credit Card"@, "\\b(?:\\d[ -]*?){13,16}\\b"@),
        ("IPv4"@, "\\b(?:\\d{1,3}\\.){3}\\d{1,3}\\b"@),
        ("SSN (US)"@, "\\b\\d{3}-\\d{2}-\\d{4}\\b"@),
        ("Discord Token"@, "[a-zA-Z0-9_-]{24}\\.[a-zA-Z0-9_-]{6}\\.[a-zA-Z0-9_-]{27,38}"@),
        ("BTC Wallet"@, "\\b[13][a-km-zA-HJ-NP-Z1-9]{25,34}\\b"@),
        ("ETH Wallet"@, "\\b0x[a-fA-F0-9]{40}\\b"@),
    ]
}

/// The kinds of personal data whose pattern matches a text, in order.
pub open spec fn pii_kinds_in(text: Seq<char>, kinds: Seq<(Seq<char>, Seq<char>)>) -> Seq<Seq<char>>
    decreases kinds.len(),
{
    if kinds.len() == 0 {
        Seq::empty()
    } else {
        let prev = pii_kinds_in(text, kinds.drop_last());
        if regex_found(kinds.last().1, text) == Some(true) {
            prev.push(kinds.last().0)
        } else {
            prev
        }
    }
}

proof fn lemma_kinds_only(text: Seq<char>, kinds: Seq<(Seq<char>, Seq<char>)>)
    ensures
        forall|i: int|
            0 <= i < pii_kinds_in(text, kinds).len() ==> exists|a: int|
                0 <= a < kinds.len() && #[trigger] pii_kinds_in(text, kinds)[i] == kinds[a].0,
    decreases kinds.len(),
{
    if kinds.len() > 0 {
        let init = kinds.drop_last();
        lemma_kinds_only(text, init);
        let prev = pii_kinds_in(text, init);
        let r = pii_kinds_in(text, kinds);
        assert forall|i: int| 0 <= i < r.len() implies exists|a: int|
            0 <= a < kinds.len() && #[trigger] r[i] == kinds[a].0 by {
            if i < prev.len() {
                assert(r[i] == prev[i]);
                let a = choose|a: int| 0 <= a < init.len() && #[trigger] prev[i] == init[a].0;
                assert(kinds[a] == init[a]);
            } else {
                assert(r[i] == kinds[kinds.len() - 1].0);
            }
        }
    }
}

proof fn lemma_kind_found(text: Seq<char>, kinds: Seq<(Seq<char>, Seq<char>)>, j: int)
    requires
        0 <= j < kinds.len(),
        forall|a: int, b: int| 0 <= a < b < kinds.len() ==> (#[trigger] kinds[a]).0 != (#[trigger] kinds[b]).0,
    ensures
        pii_kinds_in(text, kinds).contains(kinds[j].0) <==> regex_found(kinds[j].1, text) == Some(true),
    decreases kinds.len(),
{
    let init = kinds.drop_last();
    let last = kinds[kinds.len() - 1];
    assert(kinds.last() == last);
    let prev = pii_kinds_in(text, init);
    let r = pii_kinds_in(text, kinds);
    assert(forall|a: int, b: int| 0 <= a < b < init.len() ==> (#[trigger] init[a]).0 != (#[trigger] init[b]).0) by {
        assert forall|a: int, b: int| 0 <= a < b < init.len() implies (#[trigger] init[a]).0 != (
        #[trigger] init[b]).0 by {
            assert(init[a] == kinds[a] && init[b] == kinds[b]);
        }
    }
    let name = kinds[j].0;
    if j < kinds.len() - 1 {
        lemma_kind_found(text, init, j);
        assert(init[j] == kinds[j]);
        assert(last.0 != name);
        if regex_found(last.1, text) == Some(true) {
            assert(r == prev.push(last.0));
            if r.contains(name) {
                let u = choose|u: int| 0 <= u < r.len() && r[u] == name;
                assert(u < prev.len());
                assert(prev[u] == name);
            }
            if prev.contains(name) {
                let u = choose|u: int| 0 <= u < prev.len() && prev[u] == name;
                assert(r[u] == name);
            }
        }
    } else {
        lemma_kinds_only(text, init);
        assert(!prev.contains(name)) by {
            if prev.contains(name) {
                let u = choose|u: int| 0 <= u < prev.len() && prev[u] == name;
                let a = choose|a: int| 0 <= a < init.len() && #[trigger] prev[u] == init[a].0;
                assert(init[a] == kinds[a]);
            }
        }
        if regex_found(last.1, text) == Some(true) {
            assert(r == prev.push(last.0));
            assert(r[prev.len() as int] == name);
        }
    }
}

/// The personal-data detector knows seven kinds, each found by its own
/// pattern: a text is reported to hold a kind exactly when that kind's
/// pattern matches it, and nothing but these seven kinds is ever reported.
pub proof fn lemma_pii_kinds(text: Seq<char>)
    ensures
        ({
            let r = pii_kinds_in(text, pii_patterns());
            &&& r.contains("Email"@) <==> regex_found("[a-zA-Z0-9._%+-]+@[a-zA-Z0-9.-]+\\.[a-zA-Z]{2,}"@, text)
                == Some(true)
            &&& r.contains("Credit Card"@) <==> regex_found("\\b(?:\\d[ -]*?){13,16}\\b"@, text) == Some(true)
            &&& r.contains("IPv4"@) <==> regex_found("\\b(?:\\d{1,3}\\.){3}\\d{1,3}\\b"@, text) == Some(true)
            &&& r.contains("SSN (US)"@) <==> regex_found("\\b\\d{3}-\\d{2}-\\d{4}\\b"@, text) == Some(true)
            &&& r.contains("Discord Token"@) <==> regex_found(
                "[a-zA-Z0-9_-]{24}\\.[a-zA-Z0-9_-]{6}\\.[a-zA-Z0-9_-]{27,38}"@,
                text,
            ) == Some(true)
            &&& r.contains("BTC Wallet"@) <==> regex_found("\\b[13][a-km-zA-HJ-NP-Z1-9]{25,34}\\b"@, text)
                == Some(true)
            &&& r.contains("ETH Wallet"@) <==> regex_found("\\b0x[a-fA-F0-9]{40}\\b"@, text) == Some(true)
            &&& forall|i: int|
                0 <= i < r.len() ==> #[trigger] r[i] == "Email"@ || r[i] == "Credit Card"@ || r[i] == "IPv4"@
                    || r[i] == "SSN (US)"@ || r[i] == "Discord Token"@ || r[i] == "BTC Wallet"@ || r[i]
                    == "ETH Wallet"@
        }),
{
    let p = pii_patterns();
    reveal_strlit("Email");
    reveal_strlit("Credit Card");
    reveal_strlit("IPv4");
    reveal_strlit("SSN (US)");
    reveal_strlit("Discord Token");
    reveal_strlit("BTC Wallet");
    reveal_strlit("ETH Wallet");
    assert(p[0].0 == "Email"@);
    assert(p[1].0 == "Credit Card"@);
    assert(p[2].0 == "IPv4"@);
    assert(p[3].0 == "SSN (US)"@);
    assert(p[4].0 == "Discord Token"@);
    assert(p[5].0 == "BTC Wallet"@);
    assert(p[6].0 == "ETH Wallet"@);
    assert forall|a: int, b: int| 0 <= a < b < p.len() implies (#[trigger] p[a]).0 != (#[trigger] p[b]).0 by {
        if a == 0 && b == 1 { assert(p[a].0.len() != p[b].0.len()); }
        if a == 0 && b == 2 { assert(p[a].0.len() != p[b].0.len()); }
        if a == 0 && b == 3 { assert(p[a].0.len() != p[b].0.len()); }
        if a == 0 && b == 4 { assert(p[a].0.len() != p[b].0.len()); }
        if a == 0 && b == 5 { assert(p[a].0.len() != p[b].0.len()); }
        if a == 0 && b == 6 { assert(p[a].0.len() != p[b].0.len()); }
        if a == 1 && b == 2 { assert(p[a].0.len() != p[b].0.len()); }
        if a == 1 && b == 3 { assert(p[a].0.len() != p[b].0.len()); }
        if a == 1 && b == 4 { assert(p[a].0.len() != p[b].0.len()); }
        if a == 1 && b == 5 { assert(p[a].0.len() != p[b].0.len()); }
        if a == 1 && b == 6 { assert(p[a].0.len() != p[b].0.len()); }
        if a == 2 && b == 3 { assert(p[a].0.len() != p[b].0.len()); }
        if a == 2 && b == 4 { assert(p[a].0.len() != p[b].0.len()); }
        if a == 2 && b == 5 { assert(p[a].0.len() != p[b].0.len()); }
        if a == 2 && b == 6 { assert(p[a].0.len() != p[b].0.len()); }
        if a == 3 && b == 4 { assert(p[a].0.len() != p[b].0.len()); }
        if a == 3 && b == 5 { assert(p[a].0.len() != p[b].0.len()); }
        if a == 3 && b == 6 { assert(p[a].0.len() != p[b].0.len()); }
        if a == 4 && b == 5 { assert(p[a].0.len() != p[b].0.len()); }
        if a == 4 && b == 6 { assert(p[a].0.len() != p[b].0.len()); }
        if a == 5 && b == 6 { assert(p[a].0[0] != p[b].0[0]); }
    }
    lemma_kind_found(text, p, 0);
    lemma_kind_found(text, p, 1);
    lemma_kind_found(text, p, 2);
    lemma_kind_found(text, p, 3);
    lemma_kind_found(text, p, 4);
    lemma_kind_found(text, p, 5);
    lemma_kind_found(text, p, 6);
    lemma_kinds_only(text, p);
    let r = pii_kinds_in(text, p);
    assert forall|i: int| 0 <= i < r.len() implies #[trigger] r[i] == "Email"@ || r[i] == "Credit Card"@ || r[i]
        == "IPv4"@ || r[i] == "SSN (US)"@ || r[i] == "Discord Token"@ || r[i] == "BTC Wallet"@ || r[i]
        == "ETH Wallet"@ by {
        let a = choose|a: int| 0 <= a < p.len() && #[trigger] r[i] == p[a].0;
    }
}

/// The first `n` characters of a text (all of it when shorter).
pub open spec fn first_chars(s: Seq<char>, n: nat) -> Seq<char> {
    if s.len() <= n {
        s
    } else {
        s.take(n as int)
    }
}

/// The length of the snippet kept of a message.
pub const SNIPPET_LEN: usize = 100;

impl PIIClassifier {
    /// The kinds of personal data found in a text, in the detector's order.
    pub fn detect(text: &str) -> (r: Vec<String>)
        ensures
            string_views(r@) == pii_kinds_in(text@, pii_patterns()),
    {
        let kinds: [(&str, &str); 7] = [
            ("Email", "[a-zA-Z0-9._%+-]+@[a-zA-Z0-9.-]+\\.[a-zA-Z]{2,}"),
            ("Credit Card", "\\b(?:\\d[ -]*?){13,16}\\b"),
            ("IPv4", "\\b(?:\\d{1,3}\\.){3}\\d{1,3}\\b"),
            ("SSN (US)", "\\b\\d{3}-\\d{2}-\\d{4}\\b"),
            ("Discord Token", "[a-zA-Z0-9_-]{24}\\.[a-zA-Z0-9_-]{6}\\.[a-zA-Z0-9_-]{27,38}"),
            ("BTC Wallet", "\\b[13][a-km-zA-HJ-NP-Z1-9]{25,34}\\b"),
            ("ETH Wallet", "\\b0x[a-fA-F0-9]{40}\\b"),
        ];
        let mut out: Vec<String> = Vec::new();
        let mut i: usize = 0;
        assert(pii_patterns().take(0) == Seq::<(Seq<char>, Seq<char>)>::empty());
        assert(string_views(out@) =~= Seq::empty());
        while i < 7
            invariant
                i <= 7,
                kinds@.len() == 7,
                forall|k: int| 0 <= k < 7 ==> ((#[trigger] kinds@[k]).0@, kinds@[k].1@) == pii_patterns()[k],
                string_views(out@) == pii_kinds_in(text@, pii_patterns().take(i as int)),
            decreases 7 - i,
        {
            proof {
                assert(pii_patterns().take(i + 1).drop_last() == pii_patterns().take(i as int));
                assert(pii_patterns().take(i + 1).last() == pii_patterns()[i as int]);
            }
            let (name, pattern) = kinds[i];
            match regex_is_match(pattern, text) {
                Some(true) => {
                    let ghost before = out@;
                    out.push(String::from_str(name));
                    assert(string_views(out@) =~= string_views(before).push(name@));
                },
                _ => {},
            }
            i += 1;
        }
        assert(pii_patterns().take(7) == pii_patterns());
        out
    }

    /// The first hundred characters of a text.
    pub fn snippet(text: &str) -> (r: String)
        ensures
            r@ == first_chars(text@, SNIPPET_LEN as nat),
    {
        let cs = chars_of(text);
        let mut out: Vec<char> = Vec::new();
        let mut i: usize = 0;
        while i < cs.len() && i < SNIPPET_LEN
            invariant
                i <= cs@.len(),
                i <= SNIPPET_LEN,
                cs@ == text@,
                out@ == cs@.take(i as int),
            decreases cs@.len() - i,
        {
            out.push(cs[i]);
            assert(cs@.take(i as int).push(cs@[i as int]) == cs@.take(i + 1));
            i += 1;
        }
        assert(cs@.len() <= SNIPPET_LEN ==> cs@.take(cs@.len() as int) == cs@);
        string_from_chars(out.as_slice())
    }

    /// The finding of a cached message (as the cache search returns it):
    /// the kinds of personal data in its content, when there are any.
    pub fn classify(msg: &JsonValue) -> (r: Option<PIIResult>)
        ensures
            pii_kinds_in(str_or(*msg, "content"@, ""@), pii_patterns()).len() == 0 <==> r is None,
            r matches Some(f) ==> {
                &&& f.message_id@ == str_or(*msg, "id"@, ""@)
                &&& f.channel_id@ == str_or(*msg, "channel_id"@, ""@)
                &&& string_views(f.detected_types@) == pii_kinds_in(str_or(*msg, "content"@, ""@), pii_patterns())
                &&& f.snippet@ == first_chars(str_or(*msg, "content"@, ""@), SNIPPET_LEN as nat)
            },
    {
        let content_chars = field_str_or(msg, "content", "");
        let content = string_from_chars(content_chars.as_slice());
        let detected = Self::detect(content.as_str());
        if detected.len() == 0 {
            return None;
        }
        let id = field_str_or(msg, "id", "");
        let channel = field_str_or(msg, "channel_id", "");
        Some(
            PIIResult {
                message_id: string_from_chars(id.as_slice()),
                channel_id: string_from_chars(channel.as_slice()),
                detected_types: detected,
                snippet: Self::snippet(content.as_str()),
            },
        )
    }
}

/// The decoy traffic generator.
pub struct HoneyManager;

/// A decoy request: a harmless read that a browser would make.
pub struct NoiseRequest {
    pub method: HttpMethod,
    pub url: String,
    pub referer: String,
}

/// The harmless endpoints the decoy traffic reads.
pub open spec fn noise_endpoints() -> Seq<Seq<char>> {
    seq![
        "https://discord.com/api/v9/users/@me/library"@,
        "https://discord.com/api/v9/users/@me/applications"@,
        "https://discord.com/api/v9/users/@me/guild-events"@,
        "https://discord.com/api/v9/users/@me/connections"@,
        "https://discord.com/api/v9/experiments"@,
        "https://discord.com/api/v9/users/@me/billing/country-code"@,
    ]
}

/// `rand::thread_rng().gen_range(0..n)` from rand: a random index below
/// `n`. Which one is left open.
#[verifier::external_body]
fn random_below(n: usize) -> (r: usize)
    requires
        n > 0,
    ensures
        r < n,
{
    rand::Rng::gen_range(&mut rand::thread_rng(), 0..n)
}

impl HoneyManager {
    /// The decoy read of one of the harmless endpoints.
    pub fn noise_request_at(index: usize) -> (r: NoiseRequest)
        requires
            index < 6,
        ensures
            r.method == HttpMethod::Get,
            r.url@ == noise_endpoints()[index as int],
            r.referer@ == "https://discord.com/channels/@me"@,
    {
        let urls: [&str; 6] = [
            "https://discord.com/api/v9/users/@me/library",
            "https://discord.com/api/v9/users/@me/applications",
            "https://discord.com/api/v9/users/@me/guild-events",
            "https://discord.com/api/v9/users/@me/connections",
            "https://discord.com/api/v9/experiments",
            "https://discord.com/api/v9/users/@me/billing/country-code",
        ];
        NoiseRequest {
            method: HttpMethod::Get,
            url: String::from_str(urls[index]),
            referer: String::from_str("https://discord.com/channels/@me"),
        }
    }

    /// A decoy read of a harmless endpoint picked at random.
    pub fn generate_noise_request() -> (r: NoiseRequest)
        ensures
            r.method == HttpMethod::Get,
            noise_endpoints().contains(r.url@),
            r.referer@ == "https://discord.com/channels/@me"@,
    {
        let i = random_below(6);
        let r = Self::noise_request_at(i);
        assert(noise_endpoints()[i as int] == r.url@);
        r
    }
}

/// The secure deletion of the application's files.
pub struct BurnerManager;

/// The passes of a shredding, in order: all zeros, all ones, random bytes.
#[derive(PartialEq, Eq, Structural, Clone, Copy)]
pub enum ShredPass {
    Zeros,
    Ones,
    Random,
}

/// The size of the chunks a shredding writes.
pub const SHRED_CHUNK: u64 = 65536;

/// The extension of the vault's encrypted fallback files.
pub const FALLBACK_EXTENSION: &'static str = "secure";

/// The file of the application's log.
pub const LOG_FILE_NAME: &'static str = "app.log";

impl BurnerManager {
    /// The passes of a shredding, in order.
    pub fn shred_passes() -> (r: Vec<ShredPass>)
        ensures
            r@ == seq![ShredPass::Zeros, ShredPass::Ones, ShredPass::Random],
    {
        let r = vec![ShredPass::Zeros, ShredPass::Ones, ShredPass::Random];
        assert(r@ =~= seq![ShredPass::Zeros, ShredPass::Ones, ShredPass::Random]);
        r
    }

    /// The byte a pass writes everywhere; none for the random pass.
    pub fn pass_byte(pass: ShredPass) -> (r: Option<u8>)
        ensures
            pass == ShredPass::Zeros ==> r == Some(0u8),
            pass == ShredPass::Ones ==> r == Some(0xFFu8),
            pass == ShredPass::Random ==> r is None,
    {
        match pass {
            ShredPass::Zeros => Some(0u8),
            ShredPass::Ones => Some(0xFFu8),
            ShredPass::Random => None,
        }
    }

    /// The size of the next chunk of a pass, when `written` of `size` bytes
    /// are written: a full chunk, or what is left.
    pub fn next_chunk(written: u64, size: u64) -> (r: u64)
        requires
            written < size,
        ensures
            0 < r <= SHRED_CHUNK,
            written + r <= size,
            r == SHRED_CHUNK || written + r == size,
    {
        let left = size - written;
        if left < SHRED_CHUNK {
            left
        } else {
            SHRED_CHUNK
        }
    }

    /// Whether a file of the data directory, by its extension, is one of the
    /// vault's fallback files that the burner shreds.
    pub fn is_fallback_file(extension: &str) -> (r: bool)
        ensures
            r == (extension@ == FALLBACK_EXTENSION@),
    {
        let e = chars_of(extension);
        crate::text::chars_eq_str(e.as_slice(), FALLBACK_EXTENSION)
    }
}

/// The number of bytes a pass has written after `n` chunks of a file.
pub open spec fn written_after(size: nat, n: nat) -> nat
    decreases n,
{
    if n == 0 {
        0
    } else {
        let w = written_after(size, (n - 1) as nat);
        if w >= size {
            w
        } else if size - w < SHRED_CHUNK {
            size
        } else {
            w + SHRED_CHUNK as nat
        }
    }
}

/// A pass covers the whole file: after enough chunks exactly `size` bytes
/// are written, never more.
pub proof fn lemma_pass_covers_file(size: nat, n: nat)
    ensures
        written_after(size, n) <= size,
        n * SHRED_CHUNK >= size ==> written_after(size, n) == size,
    decreases n,
{
    if n > 0 {
        lemma_pass_covers_file(size, (n - 1) as nat);
        assert((n - 1) * SHRED_CHUNK + SHRED_CHUNK == n * SHRED_CHUNK) by (nonlinear_arith);
        if written_after(size, (n - 1) as nat) < size && (n - 1) * SHRED_CHUNK < size {
            assert(written_after(size, (n - 1) as nat) >= (n - 1) * SHRED_CHUNK) by {
                lemma_written_at_least(size, (n - 1) as nat);
            }
        }
    }
}

proof fn lemma_written_at_least(size: nat, n: nat)
    ensures
        written_after(size, n) >= if n * SHRED_CHUNK <= size { n * SHRED_CHUNK } else { size as int },
    decreases n,
{
    if n > 0 {
        lemma_written_at_least(size, (n - 1) as nat);
        assert((n - 1) * SHRED_CHUNK + SHRED_CHUNK == n * SHRED_CHUNK) by (nonlinear_arith);
        assert((n - 1) * SHRED_CHUNK <= n * SHRED_CHUNK);
    }
}

/// The encrypted backup of a channel's cached messages.
pub struct ForensicBackup;

impl ForensicBackup {
    /// The backup file's content: the messages' JSON text encrypted under
    /// the vault key; it decrypts back to that text. It fails only when the
    /// key does not decode or the text is too long to encrypt.
    pub fn seal(messages_json: &str, key_base64: &str) -> (r: Result<String, AppError>)
        requires
            usable_key(key_base64@),
        ensures
            r is Ok == (base64_decoded(key_base64@) is Some && encryptable(messages_json@)),
            r matches Ok(t) ==> decrypt_outcome(base64_decoded(key_base64@).unwrap(), t@) == Ok::<
                Seq<char>,
                Seq<char>,
            >(messages_json@),
    {
        Crypto::encrypt(key_base64, messages_json)
    }
}

/// The integrity block of a forensic export.
pub struct IntegrityStamp {
    pub algorithm: String,
    pub hash: String,
    pub audit_session_id: String,
    pub token: String,
}

/// The forensic export of the cache.
pub struct ExportForensics;

/// The context of the export document.
pub const EXPORT_CONTEXT: &'static str = "https://www.discordprivacy.util/forensics/v1";
/// The field of each exported node that holds its integrity hash.
pub const NODE_HASH_FIELD: &'static str = "integrityHash";
/// The software named in the export document.
pub const EXPORT_SOFTWARE: &'static str = "Discord Privacy Utility v1.0.4";


impl ExportForensics {
    /// The integrity hash of one exported node (a guild or a message): the
    /// SHA-256 of its JSON text, in lowercase hex.
    pub fn node_hash(node_text: &str) -> (r: String)
        ensures
            r@ == hex_of(sha256(node_text.spec_bytes())),
    {
        let digest = sha256_digest(node_text.as_bytes());
        to_hex(digest.as_slice())
    }

    /// The integrity block of an export document's text at a time: its
    /// SHA-256 in hex, a fresh session id, and the token
    /// `v1-{session}-{hash}-{time}`.
    pub fn stamp(document: &str, now: i64) -> (r: IntegrityStamp)
        ensures
            r.algorithm@ == "SHA-256"@,
            r.hash@ == hex_of(sha256(document.spec_bytes())),
            base64_decoded(r.audit_session_id@) is Some,
            r.token@ == "v1-"@ + r.audit_session_id@ + "-"@ + r.hash@ + "-"@ + signed_decimal(now as int),
    {
        let session = Crypto::generate_key();
        let digest = sha256_digest(document.as_bytes());
        let hash = to_hex(digest.as_slice());
        let mut token = String::from_str("v1-");
        append_str(&mut token, session.as_str());
        append_str(&mut token, "-");
        append_str(&mut token, hash.as_str());
        append_str(&mut token, "-");
        append_signed_decimal(&mut token, now);
        IntegrityStamp { algorithm: String::from_str("SHA-256"), hash, audit_session_id: session, token }
    }
}

/// The cross-identity correlation audit.
pub struct IdentityCorrelator;

/// What the correlation audit found in common between identities: the ids
/// of the guilds and of the friends that two or more identities share.
pub struct CorrelationReport {
    pub mutual_guilds: Vec<JsonValue>,
    pub mutual_friends: Vec<JsonValue>,
}

/// The id lists of the identities, one list per identity.
pub open spec fn lists_view(lists: Seq<Vec<String>>) -> Seq<Seq<Seq<char>>> {
    lists.map_values(|l: Vec<String>| string_views(l@))
}

/// Whether two different identities both hold an id.
pub open spec fn held_by_two(lists: Seq<Seq<Seq<char>>>, x: Seq<char>) -> bool {
    exists|i: int, k: int|
        0 <= i < lists.len() && 0 <= k < lists.len() && i != k && #[trigger] lists[i].contains(x)
            && #[trigger] lists[k].contains(x)
}

/// The texts of a list of JSON strings (what is not a string reads as empty).
pub open spec fn json_texts(v: Seq<JsonValue>) -> Seq<Seq<char>> {
    v.map_values(|j: JsonValue| match j {
        JsonValue::Str(s) => s@,
        _ => Seq::empty(),
    })
}

/// Whether a list of strings holds a text.
fn holds(list: &Vec<String>, x: &String) -> (r: bool)
    ensures
        r == string_views(list@).contains(x@),
{
    let mut t: usize = 0;
    while t < list.len()
        invariant
            t <= list@.len(),
            forall|u: int| 0 <= u < t ==> list@[u]@ != x@,
        decreases list@.len() - t,
    {
        if list[t] == *x {
            assert(string_views(list@)[t as int] == x@);
            return true;
        }
        t += 1;
    }
    proof {
        if string_views(list@).contains(x@) {
            let u = choose|u: int| 0 <= u < string_views(list@).len() && string_views(list@)[u] == x@;
            assert(list@[u]@ == x@);
        }
    }
    false
}

/// Whether an identity other than the one at `i` holds a text.
fn held_elsewhere(lists: &Vec<Vec<String>>, i: usize, x: &String) -> (r: bool)
    requires
        i < lists@.len(),
    ensures
        r == exists|k: int| 0 <= k < lists@.len() && k != i && #[trigger] lists_view(lists@)[k].contains(x@),
{
    let mut k: usize = 0;
    while k < lists.len()
        invariant
            k <= lists@.len(),
            i < lists@.len(),
            forall|m: int| 0 <= m < k && m != i ==> !(#[trigger] lists_view(lists@)[m]).contains(x@),
        decreases lists@.len() - k,
    {
        if k != i && holds(&lists[k], x) {
            assert(lists_view(lists@)[k as int] == string_views(lists@[k as int]@));
            return true;
        }
        assert(lists_view(lists@)[k as int] == string_views(lists@[k as int]@));
        k += 1;
    }
    false
}

/// Whether an identity before the one at `i` holds a text.
pub open spec fn seen_before(view: Seq<Seq<Seq<char>>>, i: int, x: Seq<char>) -> bool {
    exists|a: int| 0 <= a < i && #[trigger] view[a].contains(x)
}

proof fn lemma_push_contains(s: Seq<Seq<char>>, e: Seq<char>, y: Seq<char>)
    ensures
        s.push(e).contains(y) <==> (s.contains(y) || y == e),
{
    if s.push(e).contains(y) {
        let u = choose|u: int| 0 <= u < s.push(e).len() && s.push(e)[u] == y;
        if u < s.len() {
            assert(s[u] == y);
        }
    }
    if s.contains(y) {
        let u = choose|u: int| 0 <= u < s.len() && s[u] == y;
        assert(s.push(e)[u] == y);
    }
    if y == e {
        assert(s.push(e)[s.len() as int] == y);
    }
}

proof fn lemma_take_step(row: Seq<Seq<char>>, j: int, y: Seq<char>)
    requires
        0 <= j < row.len(),
    ensures
        row.take(j + 1).contains(y) <==> (row.take(j).contains(y) || y == row[j]),
{
    assert(row.take(j + 1) == row.take(j).push(row[j]));
    lemma_push_contains(row.take(j), row[j], y);
}

/// The ids that two or more identities hold, each once, in the order they
/// first appear.
fn mutual_ids(lists: &Vec<Vec<String>>) -> (r: Vec<String>)
    ensures
        forall|x: Seq<char>| string_views(r@).contains(x) <==> held_by_two(lists_view(lists@), x),
        string_views(r@).no_duplicates(),
{
    let ghost view = lists_view(lists@);
    let mut out: Vec<String> = Vec::new();
    let mut i: usize = 0;
    assert(string_views(out@) =~= Seq::<Seq<char>>::empty());
    while i < lists.len()
        invariant
            i <= lists@.len(),
            view == lists_view(lists@),
            string_views(out@).no_duplicates(),
            forall|x: Seq<char>|
                #[trigger] string_views(out@).contains(x) <==> (held_by_two(view, x) && seen_before(view, i as int, x)),
        decreases lists@.len() - i,
    {
        let list = &lists[i];
        let ghost row = string_views(list@);
        assert(view[i as int] == row);
        let mut j: usize = 0;
        assert(row.take(0) =~= Seq::<Seq<char>>::empty());
        while j < list.len()
            invariant
                i < lists@.len(),
                j <= list@.len(),
                *list == lists@[i as int],
                row == string_views(list@),
                view == lists_view(lists@),
                view[i as int] == row,
                string_views(out@).no_duplicates(),
                forall|x: Seq<char>|
                    #[trigger] string_views(out@).contains(x) <==> (held_by_two(view, x) && (seen_before(
                        view,
                        i as int,
                        x,
                    ) || row.take(j as int).contains(x))),
            decreases list@.len() - j,
        {
            let x = &list[j];
            let ghost before = string_views(out@);
            let ghost x0 = x@;
            assert(row[j as int] == x0);
            let fresh = !holds(&out, x);
            let elsewhere = if fresh { held_elsewhere(lists, i, x) } else { false };
            if fresh && elsewhere {
                out.push(x.clone());
                assert(string_views(out@) == before.push(x0));
                proof {
                    let k = choose|k: int| 0 <= k < lists@.len() && k != i && #[trigger] view[k].contains(x0);
                    assert(row.contains(x0)) by {
                        assert(row[j as int] == x0);
                    }
                    assert(view[i as int].contains(x0));
                    assert(held_by_two(view, x0));
                    assert forall|y: Seq<char>| #[trigger] string_views(out@).contains(y) <==> (held_by_two(view, y) && (
                    seen_before(view, i as int, y) || row.take(j + 1).contains(y))) by {
                        lemma_push_contains(before, x0, y);
                        lemma_take_step(row, j as int, y);
                        assert(before.contains(y) <==> (held_by_two(view, y) && (seen_before(view, i as int, y)
                            || row.take(j as int).contains(y))));
                    }
                }
            } else {
                proof {
                    assert forall|y: Seq<char>| #[trigger] string_views(out@).contains(y) <==> (held_by_two(view, y) && (
                    seen_before(view, i as int, y) || row.take(j + 1).contains(y))) by {
                        lemma_take_step(row, j as int, y);
                        assert(before.contains(y) <==> (held_by_two(view, y) && (seen_before(view, i as int, y)
                            || row.take(j as int).contains(y))));
                        if y == x0 && held_by_two(view, y) && !before.contains(y) {
                            assert(fresh);
                            let (a, b) = choose|a: int, b: int|
                                0 <= a < view.len() && 0 <= b < view.len() && a != b && #[trigger] view[a].contains(y)
                                    && #[trigger] view[b].contains(y);
                            if a != i {
                                assert(0 <= a < lists@.len() && a != i && view[a].contains(x0));
                            } else {
                                assert(0 <= b < lists@.len() && b != i && view[b].contains(x0));
                            }
                            assert(elsewhere);
                        }
                    }
                }
            }
            j += 1;
        }
        proof {
            assert(row.take(j as int) =~= row);
            assert forall|x: Seq<char>| #[trigger] string_views(out@).contains(x) <==> (held_by_two(view, x)
                && seen_before(view, i + 1, x)) by {
                assert(string_views(out@).contains(x) <==> (held_by_two(view, x) && (seen_before(view, i as int, x)
                    || row.take(j as int).contains(x))));
                if seen_before(view, i + 1, x) && !seen_before(view, i as int, x) {
                    let a = choose|a: int| 0 <= a < i + 1 && #[trigger] view[a].contains(x);
                    assert(a == i);
                }
                if row.contains(x) {
                    assert(view[i as int].contains(x));
                }
            }
        }
        i += 1;
    }
    proof {
        assert forall|x: Seq<char>| #[trigger] string_views(out@).contains(x) <==> held_by_two(view, x) by {
            if held_by_two(view, x) {
                let (a, b) = choose|a: int, b: int|
                    0 <= a < view.len() && 0 <= b < view.len() && a != b && #[trigger] view[a].contains(x)
                        && #[trigger] view[b].contains(x);
                assert(view[a].contains(x));
                assert(seen_before(view, i as int, x));
            }
        }
    }
    out
}

/// The ids as JSON strings, in order.
fn json_strings(ids: Vec<String>) -> (r: Vec<JsonValue>)
    ensures
        json_texts(r@) == string_views(ids@),
        forall|k: int| 0 <= k < r@.len() ==> (#[trigger] r@[k]) is Str,
{
    let mut out: Vec<JsonValue> = Vec::new();
    let mut k: usize = 0;
    while k < ids.len()
        invariant
            k <= ids@.len(),
            out@.len() == k,
            forall|m: int| 0 <= m < k ==> (#[trigger] out@[m]) == JsonValue::Str(ids@[m]),
        decreases ids@.len() - k,
    {
        out.push(JsonValue::Str(ids[k].clone()));
        k += 1;
    }
    assert(json_texts(out@) =~= string_views(ids@));
    out
}

impl IdentityCorrelator {
    /// Whether the audit reads the cache: only when there are at least two
    /// identities to compare.
    pub fn compares(identity_count: usize) -> (r: bool)
        ensures
            r == (identity_count >= 2),
    {
        identity_count >= 2
    }

    /// The report of the audit, from each identity's guild ids and friend
    /// ids (one list per identity): the ids that two or more identities
    /// share, each once, as JSON strings.
    pub fn report(guilds: &Vec<Vec<String>>, friends: &Vec<Vec<String>>) -> (r: CorrelationReport)
        ensures
            forall|k: int| 0 <= k < r.mutual_guilds@.len() ==> (#[trigger] r.mutual_guilds@[k]) is Str,
            forall|k: int| 0 <= k < r.mutual_friends@.len() ==> (#[trigger] r.mutual_friends@[k]) is Str,
            forall|x: Seq<char>| json_texts(r.mutual_guilds@).contains(x) <==> held_by_two(lists_view(guilds@), x),
            forall|x: Seq<char>| json_texts(r.mutual_friends@).contains(x) <==> held_by_two(lists_view(friends@), x),
            json_texts(r.mutual_guilds@).no_duplicates(),
            json_texts(r.mutual_friends@).no_duplicates(),
    {
        let g = mutual_ids(guilds);
        let f = mutual_ids(friends);
        CorrelationReport { mutual_guilds: json_strings(g), mutual_friends: json_strings(f) }
    }
}

/// The removal of metadata from images.
pub struct MetadataStripper;

impl MetadataStripper {
    /// The error when an image's metadata cannot be read.
    pub fn read_error(details: String) -> (r: AppError)
        ensures
            r.user_message@ == "Failed to read image metadata."@,
            r.error_code@ == ""@,
            r.technical_details == Some(details),
    {
        let mut e = AppError::new("Failed to read image metadata.", "");
        e.technical_details = Some(details);
        e
    }

    /// The error when an image's metadata cannot be written back empty.
    pub fn write_error(details: String) -> (r: AppError)
        ensures
            r.user_message@ == "Failed to sanitize image metadata."@,
            r.error_code@ == ""@,
            r.technical_details == Some(details),
    {
        let mut e = AppError::new("Failed to sanitize image metadata.", "");
        e.technical_details = Some(details);
        e
    }
}

/// What the integrity check saw of one entry of an installation's
/// `modules` directory.
pub struct ModuleDirFacts {
    /// The entry's file name.
    pub name: String,
    /// Whether it is a directory.
    pub is_dir: bool,
    /// For each core file, in the order of `core_module_files`, whether it is
    /// present and readable under the entry's `discord_desktop_core`.
    pub files_ok: Vec<bool>,
}

/// Whether a `modules` entry verifies the installation.
pub open spec fn module_dir_verifies(d: ModuleDirFacts) -> bool {
    &&& d.is_dir
    &&& has_prefix(d.name@, "discord_desktop_core-"@)
    &&& d.files_ok@ == seq![true, true, true]
}

/// The checks of the machine and of the Discord client's installation.
pub struct SessionAuditor;

/// The words that give away a token stealer in the client's `index.js`.
pub open spec fn suspicious_keywords() -> Seq<Seq<char>> {
    seq![
        "webhook"@,
        "http"@,
        "https"@,
        "axios"@,
        "fetch"@,
        "XMLHttpRequest"@,
        "LOCALAPPDATA"@,
        "Roaming"@,
        "leveldb"@,
        "tokens"@,
        "password"@,
        "mfa"@,
        "ND..."@,
        "OT..."@,
    ]
}

/// The keywords of a list that occur in a text, in order.
pub open spec fn keywords_in(text: Seq<char>, kws: Seq<Seq<char>>) -> Seq<Seq<char>>
    decreases kws.len(),
{
    if kws.len() == 0 {
        Seq::empty()
    } else {
        let prev = keywords_in(text, kws.drop_last());
        if contains_seq(text, kws.last()) {
            prev.push(kws.last())
        } else {
            prev
        }
    }
}

/// The size in bytes above which an `index.js` is read for keywords.
pub const INDEX_JS_SIZE_LIMIT: usize = 1500;

/// The pattern of a client id in the client's JavaScript.
pub const CLIENT_ID_PATTERN: &'static str = "(?i)client_?id[:=]\\s*[\"']?([0-9]{17,21})[\"']?";

impl SessionAuditor {
    /// The suspicious keywords in an `index.js`: none when the file is
    /// small (1500 bytes or less), as a clean one is.
    pub fn suspicious_patterns(content: &str) -> (r: Vec<String>)
        ensures
            content.len() <= INDEX_JS_SIZE_LIMIT ==> r@.len() == 0,
            content.len() > INDEX_JS_SIZE_LIMIT ==> string_views(r@) == keywords_in(
                content@,
                suspicious_keywords(),
            ),
    {
        let mut out: Vec<String> = Vec::new();
        if content.len() <= INDEX_JS_SIZE_LIMIT {
            return out;
        }
        let kws: [&str; 14] = [
            "webhook",
            "http",
            "https",
            "axios",
            "fetch",
            "XMLHttpRequest",
            "LOCALAPPDATA",
            "Roaming",
            "leveldb",
            "tokens",
            "password",
            "mfa",
            "ND...",
            "OT...",
        ];
        let mut i: usize = 0;
        assert(suspicious_keywords().take(0) == Seq::<Seq<char>>::empty());
        assert(string_views(out@) =~= Seq::empty());
        while i < 14
            invariant
                i <= 14,
                kws@.len() == 14,
                forall|k: int| 0 <= k < 14 ==> (#[trigger] kws@[k])@ == suspicious_keywords()[k],
                string_views(out@) == keywords_in(content@, suspicious_keywords().take(i as int)),
            decreases 14 - i,
        {
            proof {
                assert(suspicious_keywords().take(i + 1).drop_last() == suspicious_keywords().take(i as int));
                assert(suspicious_keywords().take(i + 1).last() == suspicious_keywords()[i as int]);
            }
            if str_contains(content, kws[i]) {
                let ghost before = out@;
                out.push(String::from_str(kws[i]));
                assert(string_views(out@) =~= string_views(before).push(kws@[i as int]@));
            }
            i += 1;
        }
        assert(suspicious_keywords().take(14) == suspicious_keywords());
        out
    }

    /// Whether a directory of the client's `modules` holds its core module.
    pub fn is_core_module_dir(name: &str) -> (r: bool)
        ensures
            r == has_prefix(name@, "discord_desktop_core-"@),
    {
        let n = chars_of(name);
        let p = chars_of("discord_desktop_core-");
        starts_with_chars(n.as_slice(), p.as_slice())
    }

    /// The files of the core module that must be there, in the order they
    /// are checked, relative to its `discord_desktop_core` directory.
    pub fn core_module_files() -> (r: Vec<&'static str>)
        ensures
            r@.len() == 3,
            r@[0]@ == "index.js"@,
            r@[1]@ == "core.asar"@,
            r@[2]@ == "package.json"@,
    {
        vec!["index.js", "core.asar", "package.json"]
    }

    /// Which directory of an installation's `modules` verifies it: the first
    /// that is a directory named `discord_desktop_core-*` whose three core
    /// files (in the order of `core_module_files`) are all present and
    /// readable; none when the client executable is not, or no directory does.
    pub fn verified_module_dir(executable_ok: bool, dirs: &Vec<ModuleDirFacts>) -> (r: Option<usize>)
        ensures
            !executable_ok ==> r is None,
            executable_ok ==> match r {
                Some(i) => i < dirs@.len() && module_dir_verifies(dirs@[i as int]) && forall|j: int|
                    0 <= j < i ==> !module_dir_verifies(#[trigger] dirs@[j]),
                None => forall|j: int| 0 <= j < dirs@.len() ==> !module_dir_verifies(#[trigger] dirs@[j]),
            },
    {
        if !executable_ok {
            return None;
        }
        let mut i: usize = 0;
        while i < dirs.len()
            invariant
                executable_ok,
                i <= dirs@.len(),
                forall|j: int| 0 <= j < i ==> !module_dir_verifies(#[trigger] dirs@[j]),
            decreases dirs@.len() - i,
        {
            let d = &dirs[i];
            if d.is_dir && Self::is_core_module_dir(d.name.as_str()) && d.files_ok.len() == 3 && d.files_ok[0]
                && d.files_ok[1] && d.files_ok[2] {
                assert(d.files_ok@ =~= seq![true, true, true]);
                return Some(i);
            }
            proof {
                if d.files_ok@ == seq![true, true, true] {
                    assert(d.files_ok@.len() == 3 && d.files_ok@[0] && d.files_ok@[1] && d.files_ok@[2]);
                }
            }
            i += 1;
        }
        None
    }

    /// The outcome of the integrity check over the installations found: an
    /// error when there is none, success when one was verified, else the
    /// failure.
    pub fn integrity_outcome(installations: usize, verified: bool) -> (r: Result<(), AppError>)
        ensures
            installations == 0 ==> (r matches Err(e) && e.error_code@ == "discord_not_found"@
                && e.user_message@ == "No Discord installations found to perform integrity check."@),
            installations > 0 && verified ==> r is Ok,
            installations > 0 && !verified ==> (r matches Err(e) && e.error_code@
                == "discord_integrity_check_failed"@ && e.user_message@
                == "Failed to verify Discord client integrity across all found installations."@),
    {
        if installations == 0 {
            Err(
                AppError::new(
                    "No Discord installations found to perform integrity check.",
                    "discord_not_found",
                ),
            )
        } else if verified {
            Ok(())
        } else {
            Err(
                AppError::new(
                    "Failed to verify Discord client integrity across all found installations.",
                    "discord_integrity_check_failed",
                ),
            )
        }
    }

    /// The client id from the environment, when it is set and not empty.
    pub fn client_id_from_environment(value: Option<String>) -> (r: Option<String>)
        ensures
            match value {
                Some(v) => if v@.len() > 0 { r == Some(v) } else { r is None },
                None => r is None,
            },
    {
        match value {
            Some(v) => {
                let c = chars_of(v.as_str());
                if c.len() > 0 {
                    Some(v)
                } else {
                    None
                }
            },
            None => None,
        }
    }

    /// The client id written in a JavaScript file, when the pattern finds one.
    pub fn client_id_in_script(content: &str) -> (r: Option<String>)
        ensures
            match regex_first_group(CLIENT_ID_PATTERN@, content@) {
                Some(g) => opt_view(r) == g,
                None => r is None,
            },
    {
        match regex_capture(CLIENT_ID_PATTERN, content) {
            Some(g) => g,
            None => None,
        }
    }

    /// The error when no client id is found anywhere.
    pub fn client_id_not_found() -> (r: AppError)
        ensures
            r.user_message@ == "No Discord Client ID found."@,
            r.error_code@ == "client_id_not_found"@,
    {
        AppError::new("No Discord Client ID found.", "client_id_not_found")
    }
}

} // verus!
