use discord_privacy::error::{AppError, DiscordError, FailureSource};
use discord_privacy::json::{JsonNumber, JsonValue};
use discord_privacy::limiter::{
    authorization_value, body_handling, headers_within_range, on_response, referer_for, try_acquire, Admission,
    BodyHandling, BucketInfo, GlobalThrottle, RateLimitHeaders, RateLimiterCore, ResponseOutcome,
};
use discord_privacy::routes::{get_discord_route, route_for_path, DiscordApiRoute};

fn no_headers() -> RateLimitHeaders {
    RateLimitHeaders { bucket: None, limit: None, remaining: None, reset_after_ms: None, retry_after_ms: None, is_global: false }
}

#[test]
fn fresh_bucket_admits_one_then_waits() {
    let mut b = BucketInfo::new_at(1000);
    assert_eq!(try_acquire(0, &mut b, 1000), Admission::Proceed);
    assert_eq!(b.remaining, 0);
    b.reset_at = 1500;
    assert_eq!(try_acquire(0, &mut b, 1200), Admission::WaitBucket(400));
    assert_eq!(try_acquire(0, &mut b, 1500), Admission::Proceed);
}

#[test]
fn global_throttle_holds_every_request() {
    let mut b = BucketInfo::new_at(0);
    assert_eq!(try_acquire(5000, &mut b, 2000), Admission::WaitGlobal(3000));
    assert_eq!(b.remaining, 1);
}

#[test]
fn first_429_backs_off_retry_plus_two_seconds() {
    let mut b = BucketInfo::new_at(0);
    let mut g = GlobalThrottle { reset_at: 0, count_429: 0 };
    let h = RateLimitHeaders { retry_after_ms: Some(1000), ..no_headers() };
    let r = on_response(&mut b, &mut g, &h, 429, 10_000);
    assert_eq!(r, ResponseOutcome::Retry { backoff_ms: 3000, circuit_tripped: false, global: false });
    assert_eq!(b.consecutive_429s, 1);
    assert_eq!(b.reset_at, 13_000);
    assert_eq!(b.remaining, 0);
    assert_eq!(g.count_429, 1);
    let r2 = on_response(&mut b, &mut g, &h, 429, 13_000);
    assert_eq!(r2, ResponseOutcome::Retry { backoff_ms: 5000, circuit_tripped: false, global: false });
}

#[test]
fn backoff_caps_at_sixty_four_seconds() {
    let mut b = BucketInfo::new_at(0);
    b.consecutive_429s = 20;
    let mut g = GlobalThrottle { reset_at: 0, count_429: 0 };
    let r = on_response(&mut b, &mut g, &no_headers(), 429, 0);
    assert_eq!(r, ResponseOutcome::Retry { backoff_ms: 65_000, circuit_tripped: false, global: false });
}

#[test]
fn success_resets_the_counters_and_reads_headers() {
    let mut b = BucketInfo::new_at(0);
    b.consecutive_429s = 3;
    let mut g = GlobalThrottle { reset_at: 0, count_429: 4 };
    let h = RateLimitHeaders {
        bucket: Some("abc".into()),
        limit: Some("5".into()),
        remaining: Some("4".into()),
        reset_after_ms: Some(2500),
        retry_after_ms: None,
        is_global: false,
    };
    assert_eq!(on_response(&mut b, &mut g, &h, 200, 100), ResponseOutcome::Deliver);
    assert_eq!(b.consecutive_429s, 0);
    assert_eq!(g.count_429, 0);
    assert_eq!(b.limit, 5);
    assert_eq!(b.remaining, 4);
    assert_eq!(b.reset_at, 2600);
    assert_eq!(b.bucket_id.as_deref(), Some("abc"));
}

#[test]
fn circuit_breaker_trips_past_ten() {
    let mut b = BucketInfo::new_at(0);
    let mut g = GlobalThrottle { reset_at: 0, count_429: 11 };
    let r = on_response(&mut b, &mut g, &no_headers(), 429, 1000);
    assert_eq!(r, ResponseOutcome::Retry { backoff_ms: 3000, circuit_tripped: true, global: false });
    assert_eq!(g.reset_at, 61_000);
    assert_eq!(g.count_429, 0);
}

#[test]
fn global_429_holds_everything_for_the_retry() {
    let mut b = BucketInfo::new_at(0);
    let mut g = GlobalThrottle { reset_at: 0, count_429: 0 };
    let h = RateLimitHeaders { retry_after_ms: Some(700), is_global: true, ..no_headers() };
    on_response(&mut b, &mut g, &h, 429, 1000);
    assert_eq!(g.reset_at, 1700);
}

#[test]
fn header_ranges() {
    assert!(headers_within_range(&no_headers(), 0));
    assert!(!headers_within_range(&no_headers(), u64::MAX - 10));
    let h = RateLimitHeaders { reset_after_ms: Some(u64::MAX), ..no_headers() };
    assert!(!headers_within_range(&h, 1));
}

#[test]
fn engine_keeps_one_bucket_per_route() {
    let mut core = RateLimiterCore::new(0);
    let a = core.bucket_index("channels/1/messages", 0);
    let b = core.bucket_index("users/@me", 0);
    let c = core.bucket_index("channels/1/messages", 5);
    assert_eq!(a, c);
    assert_ne!(a, b);
    assert_eq!(core.keys.len(), 2);
    assert_eq!(core.acquire(a, 0), Admission::Proceed);
    assert!(core.try_respond(7, &no_headers(), 200, 0).is_none());
    assert_eq!(core.try_respond(a, &no_headers(), 200, 0), Some(ResponseOutcome::Deliver));
}

#[test]
fn request_headers() {
    assert_eq!(authorization_value("tok", true), "Bearer tok");
    assert_eq!(authorization_value("tok", false), "tok");
    assert_eq!(
        referer_for(&None, "https://discord.com/api/v9/channels/1/messages").as_deref(),
        Some("https://discord.com/channels/@me")
    );
    assert_eq!(referer_for(&None, "https://discord.com/api/v9/users/@me"), None);
    assert_eq!(referer_for(&Some("x".into()), "https://discord.com/api/v9/users/@me").as_deref(), Some("x"));
}

#[test]
fn body_handling_by_status() {
    assert!(matches!(body_handling(204, false), BodyHandling::EmptyJson));
    assert!(matches!(body_handling(200, true), BodyHandling::RawBytes));
    assert!(matches!(body_handling(200, false), BodyHandling::Json));
    assert!(matches!(body_handling(404, true), BodyHandling::DiscordError));
}

#[test]
fn routes_of_urls() {
    let r = get_discord_route("https://discord.com/api/v9/channels/123/messages/456");
    assert!(matches!(&r, DiscordApiRoute::ChannelMessage(c, m) if c == "123" && m == "456"));
    assert_eq!(r.to_string(), "channels/123/messages/456");
    assert_eq!(get_discord_route("https://discord.com/api/v9/channels/123/messages?limit=100").to_string(), "channels/123/messages");
    assert_eq!(get_discord_route("https://discord.com/api/v9/users/@me/guilds").to_string(), "users/@me/guilds");
    assert_eq!(get_discord_route("https://discord.com/api/v9/guilds/9/channels").to_string(), "guilds/9");
    assert_eq!(get_discord_route("not a url").to_string(), "default");
    assert_eq!(route_for_path("/api/v9/users/@me").to_string(), "users/@me");
}

#[test]
fn discord_error_codes() {
    assert_eq!(DiscordError::from_code(50001), DiscordError::MissingAccess);
    assert_eq!(DiscordError::from_code(429), DiscordError::RateLimited);
    assert_eq!(DiscordError::from_code(1), DiscordError::General);
    let body = JsonValue::Object(vec![
        ("code".to_string(), JsonValue::Number(JsonNumber::PosInt(50001))),
        ("message".to_string(), JsonValue::Str("Missing Access".to_string())),
    ]);
    let e = AppError::from_discord_json(&body, "{...}");
    assert_eq!(e.user_message, "Insufficient Permissions: Access denied to this node.");
    assert_eq!(e.error_code, "discord_api_50001");
    assert_eq!(e.discord_code, Some(50001));
    let other = JsonValue::Object(vec![("message".to_string(), JsonValue::Str("Odd".to_string()))]);
    let e2 = AppError::from_discord_json(&other, "");
    assert_eq!(e2.user_message, "Discord Error: Odd");
    assert_eq!(e2.error_code, "discord_api_0");
    let f = AppError::from_failure(FailureSource::Zip, Some("bad".into()));
    assert_eq!(f.error_code, "zip_error");
}

#[test]
fn route_text_reads_back_as_the_route() {
    let routes = vec![
        DiscordApiRoute::Default,
        DiscordApiRoute::CurrentUser,
        DiscordApiRoute::CurrentUserGuilds,
        DiscordApiRoute::CurrentUserChannels,
        DiscordApiRoute::CurrentUserRelationships,
        DiscordApiRoute::Channel("111".into()),
        DiscordApiRoute::ChannelMessages("222".into()),
        DiscordApiRoute::ChannelMessage("333".into(), "444".into()),
        DiscordApiRoute::Guild("555".into()),
    ];
    for r in routes {
        let text = r.to_string();
        let back = get_discord_route(&format!("https://discord.com/api/v9/{}", text));
        assert_eq!(back.to_string(), text);
    }
}
