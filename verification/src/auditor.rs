//! Risk assessment of the third-party applications that hold OAuth access to
//! the account.
use vstd::prelude::*;
use crate::json::{JsonValue, field, field2, str_of, array_of, field_str, field2_str};
use crate::text::{chars_of, chars_eq_str, string_from_chars, string_views};

verus! {

/// The assessment of one authorized application.
pub struct RiskReport {
    pub token_id: String,
    pub application_name: String,
    /// "CRITICAL", "HIGH", "MEDIUM" or "LOW".
    pub risk_level: String,
    pub risk_score: u32,
    pub findings: Vec<String>,
}

/// The points that a granted scope adds to the risk score.
pub open spec fn scope_points(scope: Option<Seq<char>>) -> nat {
    match scope {
        Some(s) => if s == "messages.read"@ {
            40
        } else if s == "guilds.join"@ {
            30
        } else if s == "rpc"@ {
            50
        } else if s == "email"@ {
            10
        } else if s == "connections"@ {
            20
        } else {
            0
        },
        None => 0,
    }
}

/// The finding that a granted scope reports, if any.
pub open spec fn scope_finding(scope: Option<Seq<char>>) -> Option<Seq<char>> {
    match scope {
        Some(s) => if s == "messages.read"@ {
            Some("Can read your private messages."@)
        } else if s == "guilds.join"@ {
            Some("Can force you to join servers."@)
        } else if s == "rpc"@ {
            Some("Full RPC control over your desktop client."@)
        } else if s == "email"@ {
            Some("Can see your registered email address."@)
        } else if s == "connections"@ {
            Some("Can see your linked 3rd-party accounts."@)
        } else {
            None
        },
        None => None,
    }
}

/// The risk score of a list of scopes.
pub open spec fn total_points(scopes: Seq<JsonValue>) -> nat
    decreases scopes.len(),
{
    if scopes.len() == 0 {
        0
    } else {
        total_points(scopes.drop_last()) + scope_points(str_of(Some(scopes.last())))
    }
}

/// The findings of a list of scopes, in order.
pub open spec fn findings_of(scopes: Seq<JsonValue>) -> Seq<Seq<char>>
    decreases scopes.len(),
{
    if scopes.len() == 0 {
        Seq::empty()
    } else {
        let prev = findings_of(scopes.drop_last());
        match scope_finding(str_of(Some(scopes.last()))) {
            Some(f) => prev.push(f),
            None => prev,
        }
    }
}

/// The risk level for a score.
pub open spec fn risk_level_of(score: nat) -> Seq<char> {
    if score >= 70 {
        "CRITICAL"@
    } else if score >= 40 {
        "HIGH"@
    } else if score >= 20 {
        "MEDIUM"@
    } else {
        "LOW"@
    }
}

/// The scopes granted to a token, as its JSON lists them (none when absent).
pub open spec fn token_scopes(token_json: JsonValue) -> Seq<JsonValue> {
    match array_of(field(token_json, "scopes"@)) {
        Some(a) => a,
        None => Seq::empty(),
    }
}

fn scope_eval(item: &JsonValue) -> (r: (u32, Option<&'static str>))
    ensures
        r.0 == scope_points(str_of(Some(*item))),
        r.1 is Some == scope_finding(str_of(Some(*item))) is Some,
        r.1 is Some ==> r.1.unwrap()@ == scope_finding(str_of(Some(*item))).unwrap(),
{
    match item.as_str() {
        Some(s) => {
            let c = chars_of(s);
            if chars_eq_str(c.as_slice(), "messages.read") {
                (40, Some("Can read your private messages."))
            } else if chars_eq_str(c.as_slice(), "guilds.join") {
                (30, Some("Can force you to join servers."))
            } else if chars_eq_str(c.as_slice(), "rpc") {
                (50, Some("Full RPC control over your desktop client."))
            } else if chars_eq_str(c.as_slice(), "email") {
                (10, Some("Can see your registered email address."))
            } else if chars_eq_str(c.as_slice(), "connections") {
                (20, Some("Can see your linked 3rd-party accounts."))
            } else {
                (0, None)
            }
        },
        None => (0, None),
    }
}

proof fn lemma_total_points_mono(scopes: Seq<JsonValue>, i: int)
    requires
        0 <= i <= scopes.len(),
    ensures
        total_points(scopes.take(i)) <= total_points(scopes),
    decreases scopes.len() - i,
{
    if i < scopes.len() {
        lemma_total_points_mono(scopes, i + 1);
        assert(scopes.take(i + 1).drop_last() == scopes.take(i));
    } else {
        assert(scopes.take(i) == scopes);
    }
}

/// The risk table of the audit: granting one more scope to a token raises
/// its risk score by that scope's points and adds its finding at the end:
/// `messages.read` 40 ("Can read your private messages."), `guilds.join` 30
/// ("Can force you to join servers."), `rpc` 50 ("Full RPC control over your
/// desktop client."), `email` 10 ("Can see your registered email
/// address."), `connections` 20 ("Can see your linked 3rd-party
/// accounts."); any other scope, or an entry that is not a string, adds
/// nothing.
pub proof fn lemma_scope_risk_table(scopes: Seq<JsonValue>, item: JsonValue)
    ensures
        str_of(Some(item)) == Some("messages.read"@) ==> total_points(scopes.push(item)) == total_points(scopes)
            + 40 && findings_of(scopes.push(item)) == findings_of(scopes).push(
            "Can read your private messages."@,
        ),
        str_of(Some(item)) == Some("guilds.join"@) ==> total_points(scopes.push(item)) == total_points(scopes)
            + 30 && findings_of(scopes.push(item)) == findings_of(scopes).push(
            "Can force you to join servers."@,
        ),
        str_of(Some(item)) == Some("rpc"@) ==> total_points(scopes.push(item)) == total_points(scopes) + 50
            && findings_of(scopes.push(item)) == findings_of(scopes).push(
            "Full RPC control over your desktop client."@,
        ),
        str_of(Some(item)) == Some("email"@) ==> total_points(scopes.push(item)) == total_points(scopes) + 10
            && findings_of(scopes.push(item)) == findings_of(scopes).push(
            "Can see your registered email address."@,
        ),
        str_of(Some(item)) == Some("connections"@) ==> total_points(scopes.push(item)) == total_points(scopes)
            + 20 && findings_of(scopes.push(item)) == findings_of(scopes).push(
            "Can see your linked 3rd-party accounts."@,
        ),
        (match str_of(Some(item)) {
            Some(t) => t != "messages.read"@ && t != "guilds.join"@ && t != "rpc"@ && t != "email"@ && t
                != "connections"@,
            None => true,
        }) ==> total_points(scopes.push(item)) == total_points(scopes) && findings_of(scopes.push(item))
            == findings_of(scopes),
{
    assert(scopes.push(item).drop_last() == scopes);
    assert(scopes.push(item).last() == item);
    reveal_strlit("messages.read");
    reveal_strlit("guilds.join");
    reveal_strlit("rpc");
    reveal_strlit("email");
    reveal_strlit("connections");
    assert("messages.read"@.len() != "guilds.join"@.len());
    assert("messages.read"@.len() != "rpc"@.len());
    assert("messages.read"@.len() != "email"@.len());
    assert("messages.read"@.len() != "connections"@.len());
    assert("guilds.join"@[0] != "connections"@[0]);
    assert("guilds.join"@.len() != "rpc"@.len());
    assert("guilds.join"@.len() != "email"@.len());
    assert("rpc"@.len() != "email"@.len());
    assert("rpc"@.len() != "connections"@.len());
    assert("email"@.len() != "connections"@.len());
}

/// Whether the given assessment is the one for this token.
pub open spec fn report_matches(r: RiskReport, token_json: JsonValue) -> bool {
    let scopes = token_scopes(token_json);
    &&& r.application_name@ == match str_of(field2(token_json, "application"@, "name"@)) {
        Some(n) => n,
        None => "Unknown App"@,
    }
    &&& r.token_id@ == match str_of(field(token_json, "id"@)) {
        Some(n) => n,
        None => Seq::empty(),
    }
    &&& r.risk_score == total_points(scopes)
    &&& r.risk_level@ == risk_level_of(total_points(scopes))
    &&& string_views(r.findings@) == findings_of(scopes)
}

/// The score and findings of a list of scopes.
fn score_scopes(scope_arr: &Vec<JsonValue>) -> (r: (u32, Vec<String>))
    requires
        total_points(scope_arr@) <= u32::MAX,
    ensures
        r.0 == total_points(scope_arr@),
        string_views(r.1@) == findings_of(scope_arr@),
{
    let ghost scopes_spec = scope_arr@;
    let mut score: u32 = 0;
    let mut findings: Vec<String> = Vec::new();
    let mut i: usize = 0;
    while i < scope_arr.len()
        invariant
            scope_arr@ == scopes_spec,
            total_points(scopes_spec) <= u32::MAX,
            i <= scope_arr@.len(),
            score == total_points(scopes_spec.take(i as int)),
            string_views(findings@) == findings_of(scopes_spec.take(i as int)),
        decreases scope_arr@.len() - i,
    {
        let (points, finding) = scope_eval(&scope_arr[i]);
        proof {
            assert(scopes_spec.take(i + 1).drop_last() == scopes_spec.take(i as int));
            assert(scopes_spec.take(i + 1).last() == scopes_spec[i as int]);
            lemma_total_points_mono(scopes_spec, i + 1);
        }
        score = score + points;
        match finding {
            Some(f) => {
                findings.push(String::from_str(f));
                assert(string_views(findings@) == findings_of(scopes_spec.take(i as int)).push(
                    f@,
                ));
            },
            None => {},
        }
        i += 1;
    }
    assert(scopes_spec.take(i as int) == scopes_spec);
    (score, findings)
}

fn empty_score() -> (r: (u32, Vec<String>))
    ensures
        r.0 == total_points(Seq::empty()),
        string_views(r.1@) == findings_of(Seq::empty()),
{
    let v: Vec<String> = Vec::new();
    assert(string_views(v@) =~= Seq::<Seq<char>>::empty());
    (0, v)
}

/// The risk level for a score.
fn risk_level_string(score: u32) -> (r: String)
    ensures
        r@ == risk_level_of(score as nat),
{
    if score >= 70 {
        String::from_str("CRITICAL")
    } else if score >= 40 {
        String::from_str("HIGH")
    } else if score >= 20 {
        String::from_str("MEDIUM")
    } else {
        String::from_str("LOW")
    }
}

pub struct IntegrationAuditor;

impl IntegrationAuditor {
    /// Analyzes the risk of an authorized OAuth2 application based on its granted scopes.
    pub fn audit_app(token_json: &JsonValue) -> (r: RiskReport)
        requires
            total_points(token_scopes(*token_json)) <= u32::MAX,
        ensures
            report_matches(r, *token_json),
    {
        let app_name = match field2_str(token_json, "application", "name") {
            Some(n) => string_from_chars(n.as_slice()),
            None => String::from_str("Unknown App"),
        };
        let token_id = match field_str(token_json, "id") {
            Some(n) => string_from_chars(n.as_slice()),
            None => String::new(),
        };
        let (score, findings) = match token_json.get("scopes") {
            Some(sv) => match sv.as_array() {
                Some(scope_arr) => score_scopes(scope_arr),
                None => empty_score(),
            },
            None => empty_score(),
        };
        let risk_level = risk_level_string(score);
        RiskReport { token_id, application_name: app_name, risk_level, risk_score: score, findings }
    }
}

} // verus!
