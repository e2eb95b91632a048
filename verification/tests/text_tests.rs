use discord_privacy::auth::normalize_token;
use discord_privacy::text::{append_signed_decimal, chars_of, parse_u32, prefix_before_from, str_contains, u64_to_string};
use discord_privacy::words::{second_word, strip_prefix_repeated, to_ascii_lower, trim_chars, trim_white_space, Trimmed};

fn s(cs: &[char]) -> String {
    cs.iter().collect()
}

#[test]
fn normalize_token_strips_space_bearer_and_quotes() {
    assert_eq!(normalize_token("  Bearer Bearer \"abc.def\"  ").as_str(), "abc.def");
    assert_eq!(normalize_token("\"tok\"").as_str(), "tok");
    assert_eq!(normalize_token("plain").as_str(), "plain");
}

#[test]
fn normalize_token_keeps_bearer_without_space() {
    assert_eq!(normalize_token("Bearer").as_str(), "Bearer");
    assert_eq!(normalize_token("\t Bearer x\n").as_str(), "x");
}

#[test]
fn trim_removes_unicode_white_space() {
    assert_eq!(trim_white_space("\u{3000} a b \n").as_str(), "a b");
    assert_eq!(trim_white_space("   ").as_str(), "");
    assert_eq!(trim_white_space("\u{a0}x\u{2028}").as_str(), "x");
}

#[test]
fn trim_quotes_both_ends() {
    let v = chars_of("\"\"q\"\"");
    assert_eq!(s(&trim_chars(&v, Trimmed::Char('"'))), "q");
    let w = chars_of("\"");
    assert_eq!(s(&trim_chars(&w, Trimmed::Char('"'))), "");
}

#[test]
fn strip_prefix_removes_every_repetition() {
    let t = chars_of("abababc");
    let p = chars_of("ab");
    assert_eq!(s(&strip_prefix_repeated(&t, &p)), "c");
    let e = chars_of("");
    assert_eq!(s(&strip_prefix_repeated(&t, &e)), "abababc");
}

#[test]
fn second_word_of_request_lines() {
    let l = chars_of("GET /callback?code=1 HTTP/1.1");
    assert_eq!(s(&second_word(&l).unwrap()), "/callback?code=1");
    let one = chars_of("GET");
    assert!(second_word(&one).is_none());
    let spaced = chars_of("  GET   /x  ");
    assert_eq!(s(&second_word(&spaced).unwrap()), "/x");
    let empty = chars_of("");
    assert!(second_word(&empty).is_none());
}

#[test]
fn ascii_lowercase_leaves_other_letters() {
    assert_eq!(to_ascii_lower("DiscordPTB.EXE").as_str(), "discordptb.exe");
    assert_eq!(to_ascii_lower("ÄB").as_str(), "Äb");
}

#[test]
fn signed_decimals() {
    let mut a = String::from("t=");
    append_signed_decimal(&mut a, -42);
    assert_eq!(a, "t=-42");
    let mut b = String::new();
    append_signed_decimal(&mut b, i64::MIN);
    assert_eq!(b, "-9223372036854775808");
    let mut c = String::new();
    append_signed_decimal(&mut c, 0);
    assert_eq!(c, "0");
    assert_eq!(u64_to_string(1700000000).as_str(), "1700000000");
}

#[test]
fn parse_u32_accepts_plus_and_rejects_overflow() {
    assert_eq!(parse_u32(&chars_of("42")), Some(42));
    assert_eq!(parse_u32(&chars_of("+7")), Some(7));
    assert_eq!(parse_u32(&chars_of("4294967296")), None);
    assert_eq!(parse_u32(&chars_of("")), None);
    assert_eq!(parse_u32(&chars_of("1a")), None);
}

#[test]
fn segment_after_offset() {
    let v = chars_of("messages/c123/messages.csv");
    assert_eq!(s(&prefix_before_from(&v, 10, '/')), "123");
    assert_eq!(s(&prefix_before_from(&v, 26, '/')), "");
}

#[test]
fn substring_search() {
    assert!(str_contains("discord_api_404", "404"));
    assert!(!str_contains("discord_api_40", "404"));
    assert!(str_contains("abc", ""));
}
