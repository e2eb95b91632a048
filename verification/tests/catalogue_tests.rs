use discord_privacy::actions::{
    action_url, burial_channel_name, burial_temp_name, guild_webhooks_url, guilds_to_leave, harvest_body,
    is_owned_guild, leave_guild_url, max_privacy_body, nitro_wipe_plan, relationship_request, rename_body,
    stealth_wipe_plan, token_user_id, webhook_to_delete, webhook_url, HttpMethod, RestrictedAction,
};
use discord_privacy::catalogue::{
    channel_listing_url, filter_guild_channels, filter_text_channels, guild_ids, preview_url, private_channels,
    relationship_ids, Channel, Guild, Relationship,
};
use discord_privacy::gdpr::{classify_entry, GdprDiscovery, PackageEntry};
use discord_privacy::json::{JsonNumber, JsonValue};

fn conv(v: &serde_json::Value) -> JsonValue {
    match v {
        serde_json::Value::Null => JsonValue::Null,
        serde_json::Value::Bool(b) => JsonValue::Bool(*b),
        serde_json::Value::Number(n) => {
            if let Some(u) = n.as_u64() {
                JsonValue::Number(JsonNumber::PosInt(u))
            } else if let Some(i) = n.as_i64() {
                JsonValue::Number(JsonNumber::NegInt(i))
            } else {
                JsonValue::Number(JsonNumber::Float(n.to_string()))
            }
        }
        serde_json::Value::String(s) => JsonValue::Str(s.clone()),
        serde_json::Value::Array(a) => JsonValue::Array(a.iter().map(conv).collect()),
        serde_json::Value::Object(m) => JsonValue::Object(m.iter().map(|(k, v)| (k.clone(), conv(v))).collect()),
    }
}

fn j(text: &str) -> JsonValue {
    conv(&serde_json::from_str::<serde_json::Value>(text).unwrap())
}

fn items(v: &JsonValue) -> Vec<JsonValue> {
    match v {
        JsonValue::Array(a) => a.iter().map(|x| clone_json(x)).collect(),
        _ => panic!("not an array"),
    }
}

fn clone_json(v: &JsonValue) -> JsonValue {
    match v {
        JsonValue::Null => JsonValue::Null,
        JsonValue::Bool(b) => JsonValue::Bool(*b),
        JsonValue::Number(JsonNumber::PosInt(u)) => JsonValue::Number(JsonNumber::PosInt(*u)),
        JsonValue::Number(JsonNumber::NegInt(i)) => JsonValue::Number(JsonNumber::NegInt(*i)),
        JsonValue::Number(JsonNumber::Float(f)) => JsonValue::Number(JsonNumber::Float(f.clone())),
        JsonValue::Str(s) => JsonValue::Str(s.clone()),
        JsonValue::Array(a) => JsonValue::Array(a.iter().map(clone_json).collect()),
        JsonValue::Object(m) => JsonValue::Object(m.iter().map(|(k, v)| (k.clone(), clone_json(v))).collect()),
    }
}

fn text_of(v: &JsonValue) -> String {
    match v {
        JsonValue::Str(s) => s.clone(),
        _ => panic!("not a string"),
    }
}

fn ch(id: &str, t: u8) -> Channel {
    Channel { id: id.to_string(), name: None, channel_type: t }
}

fn guild(id: &str, owner: bool) -> Guild {
    Guild { id: id.to_string(), name: format!("g{}", id), icon: None, owner }
}

#[test]
fn guild_channel_filter_keeps_listed_kinds_in_order() {
    let all = vec![ch("a", 0), ch("b", 2), ch("c", 5), ch("d", 11), ch("e", 4), ch("f", 12), ch("g", 15)];
    let kept: Vec<String> = filter_guild_channels(&all).into_iter().map(|c| c.id).collect();
    assert_eq!(kept, vec!["a", "c", "d", "f", "g"]);
    let text: Vec<String> = filter_text_channels(&all).into_iter().map(|c| c.id).collect();
    assert_eq!(text, vec!["a", "d", "f"]);
}

#[test]
fn private_channels_named_as_the_tool_shows_them() {
    let chans = items(&j(r#"[
        {"id":"1","type":1,"recipients":[{"username":"bob"},{"username":"eve"}]},
        {"id":"2","type":3},
        {"id":"3","type":3,"name":"crew"},
        {"id":"4","type":0,"name":"general"},
        {"id":"5","type":1,"recipients":[]},
        {"type":1,"recipients":[{"username":"ann"}]}
    ]"#));
    let out = private_channels(&chans);
    assert_eq!(out.len(), 5);
    assert_eq!(out[0].id, "1");
    assert_eq!(out[0].name.as_deref(), Some("DM with bob"));
    assert_eq!(out[0].channel_type, 1);
    assert_eq!(out[1].name.as_deref(), Some("Unnamed Group DM"));
    assert_eq!(out[1].channel_type, 3);
    assert_eq!(out[2].name.as_deref(), Some("crew"));
    assert_eq!(out[3].id, "5");
    assert_eq!(out[3].name, None);
    assert_eq!(out[4].id, "");
    assert_eq!(out[4].name.as_deref(), Some("DM with ann"));
}

#[test]
fn channel_listing_urls_and_dm_refusal() {
    assert_eq!(
        channel_listing_url(&Some("g1".to_string()), true).ok().unwrap(),
        "https://discord.com/api/v9/guilds/g1/channels"
    );
    assert_eq!(channel_listing_url(&None, false).ok().unwrap(), "https://discord.com/api/v9/users/@me/channels");
    let e = channel_listing_url(&None, true).err().unwrap();
    assert_eq!(e.user_message, "DMs restricted");
    assert_eq!(e.error_code, "dm_restricted");
    assert_eq!(preview_url("77"), "https://discord.com/api/v9/channels/77/messages?limit=5");
}

#[test]
fn id_lists() {
    let gs = vec![guild("1", false), guild("2", true)];
    assert_eq!(guild_ids(&gs), vec!["1", "2"]);
    let rs = vec![Relationship { id: "u9".into(), nickname: None, user: JsonValue::Null, rel_type: 1 }];
    assert_eq!(relationship_ids(&rs), vec!["u9"]);
}

#[test]
fn action_pages_and_unknown_action() {
    assert_eq!(action_url("account_deletion").ok().unwrap(), "https://discord.com/settings/account");
    assert_eq!(action_url("data_privacy").ok().unwrap(), "https://discord.com/settings/privacy");
    assert_eq!(
        action_url("gdpr_request").ok().unwrap(),
        "https://support.discord.com/hc/en-us/articles/360004027692-Requesting-a-Copy-of-your-Data"
    );
    assert_eq!(action_url("support_portal").ok().unwrap(), "https://support.discord.com/hc/en-us/requests/new");
    let e = action_url("format_disk").err().unwrap();
    assert_eq!(e.user_message, "Unknown action");
    assert_eq!(e.error_code, "invalid_action");
}

#[test]
fn audit_log_burial_names() {
    assert_eq!(burial_temp_name("general", 3), "general-temp-3");
    assert_eq!(burial_channel_name(&j(r#"{"id":"1"}"#)), "general");
    assert_eq!(burial_channel_name(&j(r#"{"name":"lounge"}"#)), "lounge");
    match rename_body("x".to_string()) {
        JsonValue::Object(es) => {
            assert_eq!(es.len(), 1);
            assert_eq!(es[0].0, "name");
            assert_eq!(text_of(&es[0].1), "x");
        }
        _ => panic!("not an object"),
    }
}

#[test]
fn webhooks_of_the_token_user() {
    assert_eq!(token_user_id("MTIz.abc.def"), "MTIz");
    assert_eq!(token_user_id("nodot"), "nodot");
    let mine = j(r#"{"id":"w1","user":{"id":"MTIz"}}"#);
    let theirs = j(r#"{"id":"w2","user":{"id":"999"}}"#);
    assert_eq!(webhook_to_delete(&mine, "MTIz"), Some("w1".to_string()));
    assert_eq!(webhook_to_delete(&theirs, "MTIz"), None);
    let anonymous = j(r#"{"id":"w3"}"#);
    assert_eq!(webhook_to_delete(&anonymous, ""), Some("w3".to_string()));
    assert_eq!(guild_webhooks_url("5"), "https://discord.com/api/v9/guilds/5/webhooks");
    assert_eq!(webhook_url("w1"), "https://discord.com/api/v9/webhooks/w1");
}

#[test]
fn owned_guilds_are_never_left() {
    let gs = vec![guild("1", false), guild("2", true), guild("1", true)];
    assert!(!is_owned_guild(&gs, "1"));
    assert!(is_owned_guild(&gs, "2"));
    assert!(!is_owned_guild(&gs, "3"));
    let ids = vec!["1".to_string(), "2".to_string(), "3".to_string()];
    assert_eq!(guilds_to_leave(&gs, &ids), vec!["1", "3"]);
    assert_eq!(leave_guild_url("3"), "https://discord.com/api/v9/users/@me/guilds/3");
}

#[test]
fn relationship_requests() {
    let b = relationship_request("42", "block");
    assert!(b.method == HttpMethod::Put);
    assert_eq!(b.url, "https://discord.com/api/v9/users/@me/relationships/42");
    match b.body {
        Some(JsonValue::Object(es)) => {
            assert_eq!(es[0].0, "type");
            assert!(matches!(es[0].1, JsonValue::Number(JsonNumber::PosInt(2))));
        }
        _ => panic!("no body"),
    }
    let r = relationship_request("42", "remove");
    assert!(r.method == HttpMethod::Delete);
    assert!(r.body.is_none());
}

#[test]
fn wipe_plans() {
    let s = stealth_wipe_plan();
    assert_eq!(s.len(), 3);
    assert!(s.iter().all(|p| p.url == "https://discord.com/api/v9/users/@me/settings"));
    let n = nitro_wipe_plan();
    assert_eq!(n[0].url, "https://discord.com/api/v9/users/@me");
    assert_eq!(n[1].url, "https://discord.com/api/v9/users/@me/settings");
    assert_eq!(n[2].url, "https://discord.com/api/v9/users/@me");
    match &n[2].body {
        JsonValue::Object(es) => {
            assert_eq!(es[0].0, "banner");
            assert!(matches!(es[0].1, JsonValue::Null));
        }
        _ => panic!(),
    }
}

#[test]
fn harvest_and_privacy_bodies() {
    match harvest_body() {
        JsonValue::Object(es) => {
            assert_eq!(es[0].0, "backends");
            let names: Vec<String> = items(&es[0].1).iter().map(text_of).collect();
            assert_eq!(names, vec!["Account", "Analytics", "Activities", "Ads", "Messages", "Servers", "Zendesk"]);
        }
        _ => panic!(),
    }
    match max_privacy_body() {
        JsonValue::Object(es) => {
            assert_eq!(es[0].0, "settings");
            assert_eq!(text_of(&es[0].1), "CgQIABAA");
        }
        _ => panic!(),
    }
}

#[test]
fn refusals_of_restricted_actions() {
    let a = RestrictedAction::AuditLogBurial.refusal();
    assert_eq!(a.user_message, "Audit Log Burial restricted");
    assert_eq!(a.error_code, "auth_mismatch");
    let w = RestrictedAction::WebhookGhosting.refusal();
    assert_eq!(w.user_message, "Webhook Ghosting restricted");
    let s = RestrictedAction::StealthWipe.refusal();
    assert_eq!(s.user_message, "Stealth Mode restricted in Official Gate.");
    assert_eq!(s.error_code, "");
    let n = RestrictedAction::NitroStealthWipe.refusal();
    assert_eq!(n.user_message, "Nitro Stealth restricted in Official Gate.");
}

#[test]
fn package_entries_classified() {
    match classify_entry("messages/c123/messages.csv") {
        PackageEntry::ChannelMessages(id) => assert_eq!(id, "123"),
        _ => panic!(),
    }
    match classify_entry("messages/c/messages.csv") {
        PackageEntry::ChannelMessages(id) => assert_eq!(id, ""),
        _ => panic!(),
    }
    assert!(matches!(classify_entry("servers/index.json"), PackageEntry::ServerIndex));
    assert!(matches!(classify_entry("relationships/index.json"), PackageEntry::RelationshipIndex));
    assert!(matches!(classify_entry("messages/index.json"), PackageEntry::Other));
    assert!(matches!(classify_entry("account/user.json"), PackageEntry::Other));
}

#[test]
fn discovery_lists_each_id_once() {
    let mut d = GdprDiscovery::new();
    d.record_channel("1".into());
    d.record_channel("2".into());
    d.record_channel("1".into());
    assert_eq!(d.channel_ids, vec!["1", "2"]);
    d.record_servers(&j(r#"[{"id":"g1"},{"name":"x"},{"id":"g2"},{"id":"g1"}]"#));
    assert_eq!(d.guild_ids, vec!["g1", "g2"]);
    d.record_servers(&j(r#"{"id":"g3"}"#));
    assert_eq!(d.guild_ids, vec!["g1", "g2"]);
    d.record_relationships(&j(r#"[{"id":"u1"},{"id":"u1"}]"#));
    assert_eq!(d.user_ids, vec!["u1"]);
}
