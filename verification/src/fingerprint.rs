//! Browser fingerprints that requests to Discord carry: user agent, client
//! hints, accept-language, synthetic cookies and the `x-super-properties`
//! header.
use vstd::prelude::*;
use rand::seq::SliceRandom;
use crate::codec::{encode_base64, base64_standard};
use crate::text::{chars_of, prefix_before, before_first, append_str, append_chars};

verus! {

/// Represents a browser/OS profile for a genuine Discord request fingerprint.
#[derive(Debug)]
pub struct BrowserProfile {
    pub name: String,
    pub user_agent: String,
    pub os: String,
    pub os_version: String,
    pub browser_version: String,
}

/// The abstract value of a browser profile.
pub ghost struct ProfileView {
    pub name: Seq<char>,
    pub user_agent: Seq<char>,
    pub os: Seq<char>,
    pub os_version: Seq<char>,
    pub browser_version: Seq<char>,
}

impl View for BrowserProfile {
    type V = ProfileView;

    open spec fn view(&self) -> ProfileView {
        ProfileView {
            name: self.name@,
            user_agent: self.user_agent@,
            os: self.os@,
            os_version: self.os_version@,
            browser_version: self.browser_version@,
        }
    }
}

impl BrowserProfile {
    /// A copy of this profile.
    pub fn duplicate(&self) -> (r: BrowserProfile)
        ensures
            r@ == self@,
    {
        BrowserProfile {
            name: self.name.clone(),
            user_agent: self.user_agent.clone(),
            os: self.os.clone(),
            os_version: self.os_version.clone(),
            browser_version: self.browser_version.clone(),
        }
    }
}

/// The Chrome on Windows profile.
pub open spec fn chrome_profile() -> ProfileView {
    ProfileView {
        name: "Chrome (Windows)"@,
        user_agent: "Mozilla/5.0 (Windows NT 10.0; Win64; x64) AppleWebKit/537.36 (KHTML, like Gecko) Chrome/144.0.0.0 Safari/537.36"@,
        os: "Windows"@,
        os_version: "10"@,
        browser_version: "144.0.0.0"@,
    }
}

/// The Firefox on Windows profile.
pub open spec fn firefox_profile() -> ProfileView {
    ProfileView {
        name: "Firefox (Windows)"@,
        user_agent: "Mozilla/5.0 (Windows NT 10.0; Win64; x64; rv:109.0) Gecko/20100101 Firefox/121.0"@,
        os: "Windows"@,
        os_version: "10"@,
        browser_version: "121.0"@,
    }
}

/// The pool of profiles.
pub open spec fn profile_pool() -> Seq<ProfileView> {
    seq![chrome_profile(), firefox_profile()]
}

/// `SliceRandom::choose` from rand, with the thread-local generator: one
/// element of the slice picked at random, or nothing when it is empty.
#[verifier::external_body]
fn choose_profile(profiles: &[BrowserProfile]) -> (r: Option<&BrowserProfile>)
    ensures
        r is None == (profiles@.len() == 0),
        r is Some ==> exists|i: int|
            0 <= i < profiles@.len() && *r.unwrap() == profiles@[i],
{
    profiles.choose(&mut rand::thread_rng())
}

/// `Uuid::new_v4()` from uuid, in its simple form: 32 lower-case hex digits
/// of a random version 4 UUID. Nothing is promised of the digits but their form.
#[verifier::external_body]
fn random_uuid_simple() -> (r: String)
    ensures
        r@.len() == 32,
{
    uuid::Uuid::new_v4().simple().to_string()
}

/// `Uuid::new_v4()` from uuid, in its hyphenated form (36 characters).
/// Nothing is promised of the digits but their form.
#[verifier::external_body]
fn random_uuid_hyphenated() -> (r: String)
    ensures
        r@.len() == 36,
{
    uuid::Uuid::new_v4().hyphenated().to_string()
}

/// The compact JSON text that serde_json writes for an object with these
/// text fields and one number field.
pub uninterp spec fn json_object_text(
    texts: Seq<(Seq<char>, Seq<char>)>,
    number_key: Seq<char>,
    number: u64,
) -> Seq<char>;

/// The views of a list of string pairs.
pub open spec fn text_pairs(v: Seq<(String, String)>) -> Seq<(Seq<char>, Seq<char>)> {
    v.map_values(|p: (String, String)| (p.0@, p.1@))
}

/// `serde_json::Value::Object(..).to_string()` from serde_json for an
/// object of text fields and one number field. The contract names the
/// text; it depends on the fields alone.
#[verifier::external_body]
fn json_object(texts: &Vec<(String, String)>, number_key: &str, number: u64) -> (r: String)
    ensures
        r@ == json_object_text(text_pairs(texts@), number_key@, number),
{
    let mut m: serde_json::Map<String, serde_json::Value> =
        texts.iter().map(|(k, v)| (k.clone(), serde_json::Value::String(v.clone()))).collect();
    m.insert(number_key.to_string(), serde_json::Value::from(number));
    serde_json::Value::Object(m).to_string()
}

/// The build number that the super properties report.
pub const CLIENT_BUILD_NUMBER: u64 = 501798;

/// The text fields of the super properties, in the order they are listed.
pub open spec fn super_property_fields(
    os: Seq<char>,
    browser: Seq<char>,
    locale: Seq<char>,
    user_agent: Seq<char>,
    browser_version: Seq<char>,
    os_version: Seq<char>,
    launch_id: Seq<char>,
) -> Seq<(Seq<char>, Seq<char>)> {
    seq![
        ("os"@, os),
        ("browser"@, browser),
        ("device"@, ""@),
        ("system_locale"@, locale),
        ("browser_user_agent"@, user_agent),
        ("browser_version"@, browser_version),
        ("os_version"@, os_version),
        ("release_channel"@, "stable"@),
        ("client_launch_id"@, launch_id),
    ]
}

/// The JSON text of the super-properties object.
pub open spec fn super_properties_text(
    os: Seq<char>,
    browser: Seq<char>,
    locale: Seq<char>,
    user_agent: Seq<char>,
    browser_version: Seq<char>,
    os_version: Seq<char>,
    launch_id: Seq<char>,
) -> Seq<char> {
    json_object_text(
        super_property_fields(os, browser, locale, user_agent, browser_version, os_version, launch_id),
        "client_build_number"@,
        CLIENT_BUILD_NUMBER,
    )
}

fn super_properties_json(
    os: &str,
    browser: &str,
    locale: &str,
    user_agent: &str,
    browser_version: &str,
    os_version: &str,
    launch_id: &str,
) -> (r: String)
    ensures
        r@ == super_properties_text(os@, browser@, locale@, user_agent@, browser_version@, os_version@, launch_id@),
{
    let fields = vec![
        (String::from_str("os"), String::from_str(os)),
        (String::from_str("browser"), String::from_str(browser)),
        (String::from_str("device"), String::from_str("")),
        (String::from_str("system_locale"), String::from_str(locale)),
        (String::from_str("browser_user_agent"), String::from_str(user_agent)),
        (String::from_str("browser_version"), String::from_str(browser_version)),
        (String::from_str("os_version"), String::from_str(os_version)),
        (String::from_str("release_channel"), String::from_str("stable")),
        (String::from_str("client_launch_id"), String::from_str(launch_id)),
    ];
    assert(text_pairs(fields@) =~= super_property_fields(
        os@,
        browser@,
        locale@,
        user_agent@,
        browser_version@,
        os_version@,
        launch_id@,
    ));
    json_object(&fields, "client_build_number", CLIENT_BUILD_NUMBER)
}

/// `locale,lang;q=0.9` where `lang` is the locale up to its first `-`.
pub open spec fn accept_language_of(locale: Seq<char>) -> Seq<char> {
    locale + ","@ + before_first(locale, '-') + ";q=0.9"@
}

/// The client hints for a profile, by header name.
pub open spec fn client_hints_of(p: ProfileView) -> Seq<(Seq<char>, Seq<char>)> {
    let major = before_first(p.browser_version, '.');
    seq![
        ("sec-ch-ua"@, "\"Not(A:Brand\";v=\"8\", \"Chromium\";v=\""@ + major + "\", \"Chrome\";v=\""@ + major + "\""@),
        ("sec-ch-ua-mobile"@, "?0"@),
        ("sec-ch-ua-platform"@, "\""@ + p.os + "\""@),
    ]
}

/// The synthetic cookie header for two random identifiers.
pub open spec fn cookies_of(dcf: Seq<char>, sdcf: Seq<char>, locale: Seq<char>) -> Seq<char> {
    "__dcfduid="@ + dcf + "; __sdcfduid="@ + sdcf + "; locale="@ + locale + ";"@
}

#[allow(dead_code)]
pub struct FingerprintManager;

impl FingerprintManager {
    /// A pool of modern browser profiles.
    pub fn get_profiles() -> (r: Vec<BrowserProfile>)
        ensures
            r@.len() == 2,
            r@[0]@ == chrome_profile(),
            r@[1]@ == firefox_profile(),
    {
        let mut v: Vec<BrowserProfile> = Vec::new();
        v.push(BrowserProfile {
            name: String::from_str("Chrome (Windows)"),
            user_agent: String::from_str("Mozilla/5.0 (Windows NT 10.0; Win64; x64) AppleWebKit/537.36 (KHTML, like Gecko) Chrome/144.0.0.0 Safari/537.36"),
            os: String::from_str("Windows"),
            os_version: String::from_str("10"),
            browser_version: String::from_str("144.0.0.0"),
        });
        v.push(BrowserProfile {
            name: String::from_str("Firefox (Windows)"),
            user_agent: String::from_str("Mozilla/5.0 (Windows NT 10.0; Win64; x64; rv:109.0) Gecko/20100101 Firefox/121.0"),
            os: String::from_str("Windows"),
            os_version: String::from_str("10"),
            browser_version: String::from_str("121.0"),
        });
        v
    }

    /// One of the pool's profiles, picked at random.
    pub fn random_profile() -> (r: BrowserProfile)
        ensures
            r@ == chrome_profile() || r@ == firefox_profile(),
    {
        let profiles = Self::get_profiles();
        let picked = choose_profile(profiles.as_slice());
        match picked {
            Some(p) => p.duplicate(),
            None => {
                assert(false);
                profiles[0].duplicate()
            },
        }
    }

    /// The locale that requests report.
    pub fn get_system_locale() -> (r: String)
        ensures
            r@ == "en-US"@,
    {
        String::from_str("en-US")
    }

    /// The `accept-language` header for a locale.
    pub fn generate_accept_language(locale: &str) -> (r: String)
        ensures
            r@ == accept_language_of(locale@),
    {
        let lc = chars_of(locale);
        let lang = prefix_before(lc.as_slice(), '-');
        let mut s = String::from_str(locale);
        append_str(&mut s, ",");
        append_chars(&mut s, lang.as_slice());
        append_str(&mut s, ";q=0.9");
        s
    }

    /// A cookie header with two fresh random device identifiers.
    pub fn generate_synthetic_cookies(locale: &str) -> (r: String)
        ensures
            exists|dcf: Seq<char>, sdcf: Seq<char>|
                dcf.len() == 32 && sdcf.len() == 32 && r@ == cookies_of(dcf, sdcf, locale@),
    {
        let dcf = random_uuid_simple();
        let sdcf = random_uuid_simple();
        let mut s = String::from_str("__dcfduid=");
        append_str(&mut s, dcf.as_str());
        append_str(&mut s, "; __sdcfduid=");
        append_str(&mut s, sdcf.as_str());
        append_str(&mut s, "; locale=");
        append_str(&mut s, locale);
        append_str(&mut s, ";");
        assert(s@ == cookies_of(dcf@, sdcf@, locale@));
        s
    }

    /// The base64 `x-super-properties` header for a profile and locale, with
    /// a fresh random launch id.
    pub fn generate_super_properties(profile: &BrowserProfile, locale: &str) -> (r: String)
        ensures
            exists|launch_id: Seq<char>|
                launch_id.len() == 36 && r@ == base64_standard(
                    vstd::utf8::encode_utf8(
                        super_properties_text(
                            profile.os@,
                            before_first(profile.name@, ' '),
                            locale@,
                            profile.user_agent@,
                            profile.browser_version@,
                            profile.os_version@,
                            launch_id,
                        ),
                    ),
                ),
    {
        let nc = chars_of(profile.name.as_str());
        let browser_chars = prefix_before(nc.as_slice(), ' ');
        let browser = crate::text::string_from_chars(browser_chars.as_slice());
        let launch_id = random_uuid_hyphenated();
        let text = super_properties_json(
            profile.os.as_str(),
            browser.as_str(),
            locale,
            profile.user_agent.as_str(),
            profile.browser_version.as_str(),
            profile.os_version.as_str(),
            launch_id.as_str(),
        );
        let bytes = text.as_str().as_bytes();
        encode_base64(bytes)
    }

    /// The client hints (`sec-ch-ua*` headers) for a profile.
    pub fn generate_client_hints(profile: &BrowserProfile) -> (r: Vec<(&'static str, String)>)
        ensures
            r@.len() == 3,
            forall|i: int| 0 <= i < 3 ==> (#[trigger] r@[i]).0@ == client_hints_of(profile@)[i].0
                && r@[i].1@ == client_hints_of(profile@)[i].1,
    {
        let mut platform = String::from_str("\"");
        append_str(&mut platform, profile.os.as_str());
        append_str(&mut platform, "\"");
        let vc = chars_of(profile.browser_version.as_str());
        let major = prefix_before(vc.as_slice(), '.');
        let mut ua = String::from_str("\"Not(A:Brand\";v=\"8\", \"Chromium\";v=\"");
        append_chars(&mut ua, major.as_slice());
        append_str(&mut ua, "\", \"Chrome\";v=\"");
        append_chars(&mut ua, major.as_slice());
        append_str(&mut ua, "\"");
        let mut v: Vec<(&'static str, String)> = Vec::new();
        v.push(("sec-ch-ua", ua));
        v.push(("sec-ch-ua-mobile", String::from_str("?0")));
        v.push(("sec-ch-ua-platform", platform));
        v
    }
}

} // verus!
