//! The account actions the tool takes on the user's behalf: the requests
//! they send, the targets they pick and the refusals they answer with.
use vstd::prelude::*;
use crate::json::{JsonValue, JsonNumber, field, field2, str_of, array_of, field2_str, str_or, field_str_or};
use crate::error::AppError;
use crate::catalogue::Guild;
use crate::text::string_views;
use crate::text::{chars_of, append_str, append_decimal, decimal, string_from_chars, prefix_before, before_first, chars_eq_str};
use crate::codec::{encode_base64, base64_standard};
use crate::protobuf::encode_max_privacy;

verus! {

/// The HTTP methods the tool sends.
#[derive(PartialEq, Eq, Structural, Clone, Copy)]
pub enum HttpMethod {
    Get,
    Post,
    Put,
    Patch,
    Delete,
}

/// A request of an action: method, URL and JSON body.
pub struct ActionRequest {
    pub method: HttpMethod,
    pub url: String,
    pub body: Option<JsonValue>,
}

/// The actions that an OAuth token may not take.
#[derive(PartialEq, Eq, Structural, Clone, Copy)]
pub enum RestrictedAction {
    AuditLogBurial,
    WebhookGhosting,
    StealthWipe,
    NitroStealthWipe,
}

/// The message of the refusal of a restricted action.
pub open spec fn restricted_message(a: RestrictedAction) -> Seq<char> {
    match a {
        RestrictedAction::AuditLogBurial => "Audit Log Burial restricted"@,
        RestrictedAction::WebhookGhosting => "Webhook Ghosting restricted"@,
        RestrictedAction::StealthWipe => "Stealth Mode restricted in Official Gate."@,
        RestrictedAction::NitroStealthWipe => "Nitro Stealth restricted in Official Gate."@,
    }
}

/// The code of the refusal of a restricted action.
pub open spec fn restricted_code(a: RestrictedAction) -> Seq<char> {
    match a {
        RestrictedAction::AuditLogBurial => "auth_mismatch"@,
        RestrictedAction::WebhookGhosting => "auth_mismatch"@,
        RestrictedAction::StealthWipe => ""@,
        RestrictedAction::NitroStealthWipe => ""@,
    }
}

impl RestrictedAction {
    /// The refusal of the action for an OAuth token.
    pub fn refusal(self) -> (r: AppError)
        ensures
            r.user_message@ == restricted_message(self),
            r.error_code@ == restricted_code(self),
            r.discord_code is None,
            r.semantic_error is None,
            r.technical_details is None,
    {
        match self {
            RestrictedAction::AuditLogBurial => AppError::new(
                "Audit Log Burial restricted",
                "auth_mismatch",
            ),
            RestrictedAction::WebhookGhosting => AppError::new(
                "Webhook Ghosting restricted",
                "auth_mismatch",
            ),
            RestrictedAction::StealthWipe => AppError::new(
                "Stealth Mode restricted in Official Gate.",
                "",
            ),
            RestrictedAction::NitroStealthWipe => AppError::new(
                "Nitro Stealth restricted in Official Gate.",
                "",
            ),
        }
    }
}

/// The page of Discord that an action of the user interface opens.
pub open spec fn action_page(action: Seq<char>) -> Option<Seq<char>> {
    if action == "account_deletion"@ {
        Some("https://discord.com/settings/account"@)
    } else if action == "data_privacy"@ {
        Some("https://discord.com/settings/privacy"@)
    } else if action == "gdpr_request"@ {
        Some(
            "https://support.discord.com/hc/en-us/articles/360004027692-Requesting-a-Copy-of-your-Data"@,
        )
    } else if action == "support_portal"@ {
        Some("https://support.discord.com/hc/en-us/requests/new"@)
    } else {
        None
    }
}

/// The page of Discord that an action opens, or the refusal of an unknown
/// action.
pub fn action_url(action_type: &str) -> (r: Result<String, AppError>)
    ensures
        action_page(action_type@) is None <==> r is Err,
        r matches Ok(u) ==> Some(u@) == action_page(action_type@),
        r matches Err(e) ==> e.user_message@ == "Unknown action"@ && e.error_code@
            == "invalid_action"@,
{
    let a = chars_of(action_type);
    if chars_eq_str(a.as_slice(), "account_deletion") {
        Ok(String::from_str("https://discord.com/settings/account"))
    } else if chars_eq_str(a.as_slice(), "data_privacy") {
        Ok(String::from_str("https://discord.com/settings/privacy"))
    } else if chars_eq_str(a.as_slice(), "gdpr_request") {
        Ok(
            String::from_str(
                "https://support.discord.com/hc/en-us/articles/360004027692-Requesting-a-Copy-of-your-Data",
            ),
        )
    } else if chars_eq_str(a.as_slice(), "support_portal") {
        Ok(String::from_str("https://support.discord.com/hc/en-us/requests/new"))
    } else {
        Err(AppError::new("Unknown action", "invalid_action"))
    }
}

/// Whether a body is the JSON object with one field, `key`, set to `val`.
pub open spec fn is_single_field(body: Option<JsonValue>, key: Seq<char>, val: JsonValue) -> bool {
    body matches Some(JsonValue::Object(es)) && es@.len() == 1 && es@[0].0@ == key && es@[0].1
        == val
}

/// The JSON object with one field.
pub fn single_field(key: &str, val: JsonValue) -> (r: JsonValue)
    ensures
        is_single_field(Some(r), key@, val),
{
    JsonValue::Object(vec![(String::from_str(key), val)])
}

/// The URL of a channel.
pub fn channel_url(channel_id: &str) -> (r: String)
    ensures
        r@ == "https://discord.com/api/v9/channels/"@ + channel_id@,
{
    let mut s = String::from_str("https://discord.com/api/v9/channels/");
    append_str(&mut s, channel_id);
    s
}

/// The name a channel is restored to after the audit log burial: its name,
/// or "general" when it has none.
pub fn burial_channel_name(channel: &JsonValue) -> (r: String)
    ensures
        r@ == str_or(*channel, "name"@, "general"@),
{
    let n = field_str_or(channel, "name", "general");
    string_from_chars(n.as_slice())
}

/// The temporary name of round `i` of the audit log burial: `{name}-temp-{i}`.
pub fn burial_temp_name(name: &str, i: u64) -> (r: String)
    ensures
        r@ == name@ + "-temp-"@ + decimal(i as nat),
{
    let mut s = String::from_str(name);
    append_str(&mut s, "-temp-");
    append_decimal(&mut s, i);
    s
}

/// The rounds of renaming in the audit log burial.
pub const BURIAL_ROUNDS: u64 = 10;

/// The JSON object `{ "name": name }`.
pub fn rename_body(name: String) -> (r: JsonValue)
    ensures
        is_single_field(Some(r), "name"@, JsonValue::Str(name)),
{
    single_field("name", JsonValue::Str(name))
}

/// The user id that a user token starts with: its text before the first `.`.
pub fn token_user_id(token: &str) -> (r: String)
    ensures
        r@ == before_first(token@, '.'),
{
    let cs = chars_of(token);
    let p = prefix_before(cs.as_slice(), '.');
    string_from_chars(p.as_slice())
}

/// The webhook to delete in webhook ghosting: one that the token's user
/// created (a missing id counts as empty).
pub open spec fn webhook_to_delete_of(webhook: JsonValue, token_user: Seq<char>) -> Option<
    Seq<char>,
> {
    let creator = match str_of(field2(webhook, "user"@, "id"@)) {
        Some(c) => c,
        None => ""@,
    };
    if creator == token_user {
        Some(str_or(webhook, "id"@, ""@))
    } else {
        None
    }
}

/// The id of a webhook to delete, when the token's user created it.
pub fn webhook_to_delete(webhook: &JsonValue, token_user: &str) -> (r: Option<String>)
    ensures
        match r {
            Some(id) => webhook_to_delete_of(*webhook, token_user@) == Some(id@),
            None => webhook_to_delete_of(*webhook, token_user@) is None,
        },
{
    let creator = match field2_str(webhook, "user", "id") {
        Some(c) => c,
        None => chars_of(""),
    };
    if chars_eq_str(creator.as_slice(), token_user) {
        let id = field_str_or(webhook, "id", "");
        Some(string_from_chars(id.as_slice()))
    } else {
        None
    }
}

/// The URL of a guild's webhooks.
pub fn guild_webhooks_url(guild_id: &str) -> (r: String)
    ensures
        r@ == "https://discord.com/api/v9/guilds/"@ + guild_id@ + "/webhooks"@,
{
    let mut s = String::from_str("https://discord.com/api/v9/guilds/");
    append_str(&mut s, guild_id);
    append_str(&mut s, "/webhooks");
    s
}

/// The URL of a webhook.
pub fn webhook_url(webhook_id: &str) -> (r: String)
    ensures
        r@ == "https://discord.com/api/v9/webhooks/"@ + webhook_id@,
{
    let mut s = String::from_str("https://discord.com/api/v9/webhooks/");
    append_str(&mut s, webhook_id);
    s
}

/// Whether the user owns a guild: the `owner` flag of the first guild of
/// the list with that id (false when none has it).
pub open spec fn owns_guild(guilds: Seq<Guild>, id: Seq<char>) -> bool
    decreases guilds.len(),
{
    if guilds.len() == 0 {
        false
    } else if guilds[0].id@ == id {
        guilds[0].owner
    } else {
        owns_guild(guilds.drop_first(), id)
    }
}

/// Whether the user owns a guild, by the guild list: an owned guild cannot
/// be left.
pub fn is_owned_guild(guilds: &Vec<Guild>, id: &str) -> (r: bool)
    ensures
        r == owns_guild(guilds@, id@),
{
    let mut i: usize = 0;
    let key = String::from_str(id);
    assert(guilds@.subrange(0, guilds@.len() as int) == guilds@);
    while i < guilds.len()
        invariant
            i <= guilds@.len(),
            key@ == id@,
            owns_guild(guilds@, id@) == owns_guild(guilds@.subrange(i as int, guilds@.len() as int), id@),
        decreases guilds@.len() - i,
    {
        let ghost rest = guilds@.subrange(i as int, guilds@.len() as int);
        assert(rest[0] == guilds@[i as int]);
        if guilds[i].id == key {
            return guilds[i].owner;
        }
        assert(rest.drop_first() == guilds@.subrange(i + 1, guilds@.len() as int));
        i += 1;
    }
    false
}

/// The URL that leaves a guild.
pub fn leave_guild_url(guild_id: &str) -> (r: String)
    ensures
        r@ == "https://discord.com/api/v9/users/@me/guilds/"@ + guild_id@,
{
    let mut s = String::from_str("https://discord.com/api/v9/users/@me/guilds/");
    append_str(&mut s, guild_id);
    s
}

/// The request that removes a relationship: a block (`PUT` with type 2) when
/// the action is "block", else a removal (`DELETE`).
pub fn relationship_request(user_id: &str, action: &str) -> (r: ActionRequest)
    ensures
        r.url@ == "https://discord.com/api/v9/users/@me/relationships/"@ + user_id@,
        action@ == "block"@ ==> r.method == HttpMethod::Put && is_single_field(
            r.body,
            "type"@,
            JsonValue::Number(JsonNumber::PosInt(2)),
        ),
        action@ != "block"@ ==> r.method == HttpMethod::Delete && r.body is None,
{
    let mut url = String::from_str("https://discord.com/api/v9/users/@me/relationships/");
    append_str(&mut url, user_id);
    let a = chars_of(action);
    if chars_eq_str(a.as_slice(), "block") {
        let body = single_field("type", JsonValue::Number(JsonNumber::PosInt(2)));
        ActionRequest { method: HttpMethod::Put, url, body: Some(body) }
    } else {
        ActionRequest { method: HttpMethod::Delete, url, body: None }
    }
}

/// A settings change of a wipe: the URL it is sent to and its body.
pub struct SettingsPatch {
    pub url: String,
    pub body: JsonValue,
}

/// The URL of the user's settings.
pub open spec fn settings_url() -> Seq<char> {
    "https://discord.com/api/v9/users/@me/settings"@
}

/// The URL of the user's profile.
pub open spec fn profile_url() -> Seq<char> {
    "https://discord.com/api/v9/users/@me"@
}

fn patch(url: &str, body: JsonValue) -> (r: SettingsPatch)
    ensures
        r.url@ == url@,
        r.body == body,
{
    SettingsPatch { url: String::from_str(url), body }
}

/// The steps of the stealth wipe, in order: clear the custom status, keep
/// new guilds from sending DMs, hide the current game.
pub fn stealth_wipe_plan() -> (r: Vec<SettingsPatch>)
    ensures
        r@.len() == 3,
        r@[0].url@ == settings_url(),
        is_single_field(Some(r@[0].body), "custom_status"@, JsonValue::Null),
        r@[1].url@ == settings_url(),
        is_single_field(Some(r@[1].body), "default_guilds_restricted"@, JsonValue::Bool(true)),
        r@[2].url@ == settings_url(),
        (r@[2].body matches JsonValue::Object(es) && es@.len() == 2 && es@[0].0@
            == "show_current_game"@ && es@[0].1 == JsonValue::Bool(false) && es@[1].0@
            == "restricted_guilds"@ && array_of(Some(es@[1].1)) == Some(Seq::<JsonValue>::empty())),
{
    let mut r: Vec<SettingsPatch> = Vec::new();
    r.push(
        patch("https://discord.com/api/v9/users/@me/settings", single_field("custom_status", JsonValue::Null)),
    );
    r.push(
        patch(
            "https://discord.com/api/v9/users/@me/settings",
            single_field("default_guilds_restricted", JsonValue::Bool(true)),
        ),
    );
    let presence = JsonValue::Object(
        vec![
            (String::from_str("show_current_game"), JsonValue::Bool(false)),
            (String::from_str("restricted_guilds"), JsonValue::Array(Vec::new())),
        ],
    );
    r.push(patch("https://discord.com/api/v9/users/@me/settings", presence));
    r
}

/// The steps of the Nitro stealth wipe, in order: clear the bio, clear the
/// pronouns, remove the banner.
pub fn nitro_wipe_plan() -> (r: Vec<SettingsPatch>)
    ensures
        r@.len() == 3,
        r@[0].url@ == profile_url(),
        (r@[0].body matches JsonValue::Object(es) && es@.len() == 1 && es@[0].0@ == "bio"@
            && str_of(Some(es@[0].1)) == Some(""@)),
        r@[1].url@ == settings_url(),
        (r@[1].body matches JsonValue::Object(es) && es@.len() == 1 && es@[0].0@ == "pronouns"@
            && str_of(Some(es@[0].1)) == Some(""@)),
        r@[2].url@ == profile_url(),
        is_single_field(Some(r@[2].body), "banner"@, JsonValue::Null),
{
    let mut r: Vec<SettingsPatch> = Vec::new();
    r.push(
        patch("https://discord.com/api/v9/users/@me", single_field("bio", JsonValue::Str(String::from_str("")))),
    );
    r.push(
        patch(
            "https://discord.com/api/v9/users/@me/settings",
            single_field("pronouns", JsonValue::Str(String::from_str(""))),
        ),
    );
    r.push(patch("https://discord.com/api/v9/users/@me", single_field("banner", JsonValue::Null)));
    r
}

/// The data backends that a data harvest asks for.
pub open spec fn harvest_backends() -> Seq<Seq<char>> {
    seq![
        "Account"@,
        "Analytics"@,
        "Activities"@,
        "Ads"@,
        "Messages"@,
        "Servers"@,
        "Zendesk"@,
    ]
}

/// The texts of a list of JSON values that are all strings.
pub open spec fn string_items(items: Seq<JsonValue>) -> Option<Seq<Seq<char>>>
    decreases items.len(),
{
    if items.len() == 0 {
        Some(Seq::empty())
    } else {
        match (string_items(items.drop_last()), items.last()) {
            (Some(prev), JsonValue::Str(s)) => Some(prev.push(s@)),
            _ => None,
        }
    }
}

/// The body of a data harvest request: `{ "backends": [...] }`.
pub fn harvest_body() -> (r: JsonValue)
    ensures
        (r matches JsonValue::Object(es) && es@.len() == 1 && es@[0].0@ == "backends"@
            && string_items(array_of(Some(es@[0].1)).unwrap_or(seq![JsonValue::Null])) == Some(
            harvest_backends(),
        )),
{
    let names: [&str; 7] = ["Account", "Analytics", "Activities", "Ads", "Messages", "Servers", "Zendesk"];
    let mut items: Vec<JsonValue> = Vec::new();
    let mut i: usize = 0;
    while i < 7
        invariant
            i <= 7,
            names@.len() == 7,
            names@[0]@ == "Account"@,
            names@[1]@ == "Analytics"@,
            names@[2]@ == "Activities"@,
            names@[3]@ == "Ads"@,
            names@[4]@ == "Messages"@,
            names@[5]@ == "Servers"@,
            names@[6]@ == "Zendesk"@,
            items@.len() == i,
            string_items(items@) == Some(harvest_backends().take(i as int)),
        decreases 7 - i,
    {
        let ghost before = items@;
        items.push(JsonValue::Str(String::from_str(names[i])));
        proof {
            assert(items@.drop_last() == before);
            assert(harvest_backends().take(i + 1) == harvest_backends().take(i as int).push(
                names@[i as int]@,
            ));
        }
        i += 1;
    }
    assert(harvest_backends().take(7) == harvest_backends());
    single_field("backends", JsonValue::Array(items))
}

/// The body that applies the most private predefined settings: the
/// settings' wire form in standard base64, under `settings`.
pub fn max_privacy_body() -> (r: JsonValue)
    ensures
        (r matches JsonValue::Object(es) && es@.len() == 1 && es@[0].0@ == "settings"@
            && str_of(Some(es@[0].1)) == Some(base64_standard(
            seq![10u8, 4u8, 8u8, 0u8, 16u8, 0u8],
        ))),
{
    let bytes = encode_max_privacy();
    let b = encode_base64(bytes.as_slice());
    single_field("settings", JsonValue::Str(b))
}

/// The guilds of a list of ids that the departure leaves: those the user
/// does not own, in order.
pub open spec fn leave_targets(guilds: Seq<Guild>, ids: Seq<Seq<char>>) -> Seq<Seq<char>>
    decreases ids.len(),
{
    if ids.len() == 0 {
        Seq::empty()
    } else {
        let prev = leave_targets(guilds, ids.drop_last());
        if owns_guild(guilds, ids.last()) {
            prev
        } else {
            prev.push(ids.last())
        }
    }
}

/// The guilds that a departure leaves are never owned by the user.
pub proof fn lemma_owned_guilds_are_kept(guilds: Seq<Guild>, ids: Seq<Seq<char>>)
    ensures
        forall|i: int| 0 <= i < leave_targets(guilds, ids).len() ==> !owns_guild(guilds, #[trigger] leave_targets(guilds, ids)[i]),
    decreases ids.len(),
{
    if ids.len() > 0 {
        lemma_owned_guilds_are_kept(guilds, ids.drop_last());
        let prev = leave_targets(guilds, ids.drop_last());
        let cur = leave_targets(guilds, ids);
        assert forall|i: int| 0 <= i < cur.len() implies !owns_guild(guilds, #[trigger] cur[i]) by {
            if i < prev.len() {
                assert(cur[i] == prev[i]);
            }
        }
    }
}

/// The guilds of a list of ids that the departure leaves: those the user
/// does not own, in order.
pub fn guilds_to_leave(guilds: &Vec<Guild>, ids: &Vec<String>) -> (r: Vec<String>)
    ensures
        string_views(r@) == leave_targets(guilds@, string_views(ids@)),
{
    let mut out: Vec<String> = Vec::new();
    let mut i: usize = 0;
    assert(string_views(ids@).take(0) == Seq::<Seq<char>>::empty());
    assert(string_views(out@) =~= Seq::empty());
    while i < ids.len()
        invariant
            i <= ids@.len(),
            string_views(out@) == leave_targets(guilds@, string_views(ids@).take(i as int)),
        decreases ids@.len() - i,
    {
        proof {
            assert(string_views(ids@).take(i + 1).drop_last() == string_views(ids@).take(i as int));
            assert(string_views(ids@).take(i + 1).last() == ids@[i as int]@);
        }
        if !is_owned_guild(guilds, ids[i].as_str()) {
            let ghost before = out@;
            out.push(ids[i].clone());
            assert(string_views(out@) =~= string_views(before).push(ids@[i as int]@));
        }
        i += 1;
    }
    assert(string_views(ids@).take(ids@.len() as int) == string_views(ids@));
    out
}

} // verus!
