//! The message purge: which of the user's messages are removed, the URLs of
//! the Discord endpoints it calls, and the pages it walks through.
use vstd::prelude::*;
use crate::json::{JsonValue, field, field2, str_of, array_of, field_str, field2_str};
use crate::text::{chars_of, append_str, contains_seq, contains_chars, lowercase, to_lower, string_from_chars};
use crate::limiter::opt_view;
use crate::error::AppError;
use crate::text::{str_contains, string_views};

verus! {

/// Options of a purge, as the user interface sends them.
pub struct PurgeOptions {
    pub channel_ids: Vec<String>,
    pub start_time: Option<u64>,
    pub end_time: Option<u64>,
    pub search_query: Option<String>,
    pub purge_reactions: bool,
    pub simulation: bool,
    pub only_attachments: bool,
    pub close_empty_dms: bool,
}

/// The versioned API base.
pub open spec fn api_v9() -> Seq<char> {
    "https://discord.com/api/v9"@
}

/// The URL of one message.
pub open spec fn message_url_of(base: Seq<char>, channel: Seq<char>, id: Seq<char>) -> Seq<char> {
    base + "/channels/"@ + channel + "/messages/"@ + id
}

/// The URL of a page of (up to 100) messages, before a message when given.
pub open spec fn page_url_of(base: Seq<char>, channel: Seq<char>, before: Option<Seq<char>>) -> Seq<char> {
    let first = base + "/channels/"@ + channel + "/messages?limit=100"@;
    match before {
        Some(id) => first + "&before="@ + id,
        None => first,
    }
}

/// The URL of one message: `{base}/channels/{channel}/messages/{id}`.
pub fn message_url(base: &str, channel: &str, id: &str) -> (r: String)
    ensures
        r@ == message_url_of(base@, channel@, id@),
{
    let mut s = String::from_str(base);
    append_str(&mut s, "/channels/");
    append_str(&mut s, channel);
    append_str(&mut s, "/messages/");
    append_str(&mut s, id);
    s
}

/// The URL of a page of messages: `{base}/channels/{channel}/messages?limit=100`,
/// with `&before={id}` when a message to page before is given.
pub fn messages_page_url(base: &str, channel: &str, before: &Option<String>) -> (r: String)
    ensures
        r@ == page_url_of(base@, channel@, opt_view(*before)),
{
    let mut s = String::from_str(base);
    append_str(&mut s, "/channels/");
    append_str(&mut s, channel);
    append_str(&mut s, "/messages?limit=100");
    match before {
        Some(id) => {
            append_str(&mut s, "&before=");
            append_str(&mut s, id.as_str());
        },
        None => {},
    }
    s
}

/// The bytes that percent-encoding leaves as they are: ASCII letters and
/// digits and `-`, `.`, `_`, `~`.
pub open spec fn url_safe_byte(b: u8) -> bool {
    (48 <= b <= 57) || (65 <= b <= 90) || (97 <= b <= 122) || b == 45 || b == 46 || b == 95 || b == 126
}

/// The uppercase hexadecimal digit of a value below 16.
pub open spec fn upper_hex_digit(d: u8) -> char {
    if d < 10 {
        (d + 48) as char
    } else {
        (d + 55) as char
    }
}

/// Percent-encoding of bytes: a safe byte stays, any other becomes `%`
/// and its two uppercase hex digits.
pub open spec fn percent_encoded(bytes: Seq<u8>) -> Seq<char>
    decreases bytes.len(),
{
    if bytes.len() == 0 {
        Seq::empty()
    } else {
        let b = bytes.last();
        percent_encoded(bytes.drop_last()) + if url_safe_byte(b) {
            seq![b as char]
        } else {
            seq!['%', upper_hex_digit(b / 16), upper_hex_digit(b % 16)]
        }
    }
}

/// The percent-encoding of a text's UTF-8 bytes, as `urlencoding::encode` writes it.
pub open spec fn url_encoded(text: Seq<char>) -> Seq<char> {
    percent_encoded(vstd::utf8::encode_utf8(text))
}

/// `urlencoding::encode`: the text's UTF-8 bytes with every byte outside
/// `A-Za-z0-9-._~` written as `%` and two uppercase hex digits (its
/// `encode_into` and `to_hex_digit`).
#[verifier::external_body]
fn url_encode(text: &str) -> (r: String)
    ensures
        r@ == url_encoded(text@),
{
    urlencoding::encode(text).into_owned()
}

/// The URL of the search for the user's messages in a channel.
pub open spec fn search_url_of(channel: Seq<char>, user: Seq<char>, query: Option<Seq<char>>) -> Seq<char> {
    let first = api_v9() + "/channels/"@ + channel + "/messages/search?author_id="@ + user;
    match query {
        Some(q) => first + "&content="@ + url_encoded(q),
        None => first,
    }
}

/// The URL of the search for the user's messages in a channel, with the
/// search text when one is given.
pub fn search_url(channel: &str, user: &str, query: &Option<String>) -> (r: String)
    ensures
        r@ == search_url_of(channel@, user@, opt_view(*query)),
{
    let mut s = String::from_str("https://discord.com/api/v9");
    append_str(&mut s, "/channels/");
    append_str(&mut s, channel);
    append_str(&mut s, "/messages/search?author_id=");
    append_str(&mut s, user);
    match query {
        Some(q) => {
            append_str(&mut s, "&content=");
            let e = url_encode(q.as_str());
            append_str(&mut s, e.as_str());
        },
        None => {},
    }
    s
}

/// The ids of the messages in a batch that have one, in order.
pub open spec fn ids_in_batch(msgs: Seq<JsonValue>) -> Seq<Seq<char>>
    decreases msgs.len(),
{
    if msgs.len() == 0 {
        Seq::empty()
    } else {
        let prev = ids_in_batch(msgs.drop_last());
        match str_of(field(msgs.last(), "id"@)) {
            Some(id) => prev.push(id),
            None => prev,
        }
    }
}

/// Whether the purge may delete a message: the user wrote it and its time
/// lies in the purge's window.
pub open spec fn purge_target(msg: JsonValue, user: Seq<char>, start: Option<u64>, end: Option<u64>) -> bool {
    authored_by(msg, user) && in_range_spec(message_time_of(msg), start, end)
}

/// The ids of the messages of a batch that the purge may delete, in order.
pub open spec fn targets_in_batch(
    msgs: Seq<JsonValue>,
    user: Seq<char>,
    start: Option<u64>,
    end: Option<u64>,
) -> Seq<Seq<char>>
    decreases msgs.len(),
{
    if msgs.len() == 0 {
        Seq::empty()
    } else {
        let prev = targets_in_batch(msgs.drop_last(), user, start, end);
        match str_of(field(msgs.last(), "id"@)) {
            Some(id) => if purge_target(msgs.last(), user, start, end) {
                prev.push(id)
            } else {
                prev
            },
            None => prev,
        }
    }
}

/// The ids of the messages of a list of batches that the purge may delete, batch by batch.
pub open spec fn targets_in_batches(
    batches: Seq<JsonValue>,
    user: Seq<char>,
    start: Option<u64>,
    end: Option<u64>,
) -> Seq<Seq<char>>
    decreases batches.len(),
{
    if batches.len() == 0 {
        Seq::empty()
    } else {
        targets_in_batches(batches.drop_last(), user, start, end) + match array_of(Some(batches.last())) {
            Some(msgs) => targets_in_batch(msgs, user, start, end),
            None => Seq::empty(),
        }
    }
}

/// The ids of the messages that a search response lists and that the purge
/// may delete, in order.
pub open spec fn search_hits_of(res: JsonValue, user: Seq<char>, start: Option<u64>, end: Option<u64>) -> Seq<
    Seq<char>,
> {
    match array_of(field(res, "messages"@)) {
        Some(batches) => targets_in_batches(batches, user, start, end),
        None => Seq::empty(),
    }
}

/// Every message the search phase deletes is one the purge may delete: for
/// each listed id there is a hit with that id written by the user in the window.
pub proof fn lemma_search_targets_in_window(
    msgs: Seq<JsonValue>,
    user: Seq<char>,
    start: Option<u64>,
    end: Option<u64>,
    k: int,
)
    requires
        0 <= k < targets_in_batch(msgs, user, start, end).len(),
    ensures
        exists|j: int|
            0 <= j < msgs.len() && str_of(field(#[trigger] msgs[j], "id"@)) == Some(
                targets_in_batch(msgs, user, start, end)[k],
            ) && purge_target(msgs[j], user, start, end),
    decreases msgs.len(),
{
    let prev = targets_in_batch(msgs.drop_last(), user, start, end);
    if k < prev.len() {
        lemma_search_targets_in_window(msgs.drop_last(), user, start, end, k);
        let j = choose|j: int|
            0 <= j < msgs.drop_last().len() && str_of(field(#[trigger] msgs.drop_last()[j], "id"@)) == Some(
                prev[k],
            ) && purge_target(msgs.drop_last()[j], user, start, end);
        assert(msgs[j] == msgs.drop_last()[j]);
    } else {
        assert(msgs[msgs.len() - 1] == msgs.last());
    }
}

fn push_batch_ids(out: &mut Vec<String>, msgs: &Vec<JsonValue>, user_id: &str, start: Option<u64>, end: Option<u64>)
    ensures
        string_views(final(out)@) == string_views(old(out)@) + targets_in_batch(msgs@, user_id@, start, end),
{
    let ghost before_all = string_views(out@);
    let mut i: usize = 0;
    assert(msgs@.take(0) == Seq::<JsonValue>::empty());
    while i < msgs.len()
        invariant
            i <= msgs@.len(),
            string_views(out@) == before_all + targets_in_batch(msgs@.take(i as int), user_id@, start, end),
        decreases msgs@.len() - i,
    {
        proof {
            assert(msgs@.take(i + 1).drop_last() == msgs@.take(i as int));
            assert(msgs@.take(i + 1).last() == msgs@[i as int]);
        }
        match field_str(&msgs[i], "id") {
            Some(id) => {
                if is_purge_target(&msgs[i], user_id, start, end) {
                    let ghost before = string_views(out@);
                    out.push(string_from_chars(id.as_slice()));
                    assert(string_views(out@) == before.push(id@));
                }
            },
            None => {},
        }
        i += 1;
    }
    assert(msgs@.take(i as int) == msgs@);
}

/// The ids of the messages that a search response lists and that the purge
/// may delete (written by the user, in the time window), in order.
pub fn search_hit_ids(res: &JsonValue, user_id: &str, start: Option<u64>, end: Option<u64>) -> (r: Vec<String>)
    ensures
        string_views(r@) == search_hits_of(*res, user_id@, start, end),
{
    let mut out: Vec<String> = Vec::new();
    assert(string_views(out@) =~= Seq::<Seq<char>>::empty());
    match res.get("messages") {
        Some(m) => match m.as_array() {
            Some(batches) => {
                let mut i: usize = 0;
                assert(batches@.take(0) == Seq::<JsonValue>::empty());
                while i < batches.len()
                    invariant
                        i <= batches@.len(),
                        string_views(out@) == targets_in_batches(batches@.take(i as int), user_id@, start, end),
                    decreases batches@.len() - i,
                {
                    proof {
                        assert(batches@.take(i + 1).drop_last() == batches@.take(i as int));
                        assert(batches@.take(i + 1).last() == batches@[i as int]);
                    }
                    match batches[i].as_array() {
                        Some(msgs) => push_batch_ids(&mut out, msgs, user_id, start, end),
                        None => {
                            assert(string_views(out@) + Seq::<Seq<char>>::empty() == string_views(out@));
                        },
                    }
                    i += 1;
                }
                assert(batches@.take(i as int) == batches@);
            },
            None => {},
        },
        None => {},
    }
    out
}

/// What the scan pass does with one message of the channel.
pub enum ScanAction {
    /// Not the user's message, or not matching the search text.
    Skip,
    /// Delete the message with this id.
    Delete(String),
    /// Count it without deleting (a simulation).
    Count,
}

/// Whether a message's content matches the search text, ignoring case
/// (every message matches when there is no search text).
pub open spec fn content_matches(msg: JsonValue, query: Option<Seq<char>>) -> bool {
    match query {
        Some(q) => contains_seq(
            lowercase(match str_of(field(msg, "content"@)) {
                Some(c) => c,
                None => Seq::empty(),
            }),
            lowercase(q),
        ),
        None => true,
    }
}

/// The message was written by the user.
pub open spec fn authored_by(msg: JsonValue, user: Seq<char>) -> bool {
    str_of(field2(msg, "author"@, "id"@)) == Some(user)
}

/// The id of a message, or empty when it has none.
pub open spec fn id_or_empty(msg: JsonValue) -> Seq<char> {
    match str_of(field(msg, "id"@)) {
        Some(id) => id,
        None => Seq::empty(),
    }
}

/// What the scan pass does with a message.
pub open spec fn scan_action_matches(
    a: ScanAction,
    msg: JsonValue,
    user: Seq<char>,
    query: Option<Seq<char>>,
    start: Option<u64>,
    end: Option<u64>,
    simulation: bool,
) -> bool {
    if !purge_target(msg, user, start, end) || !content_matches(msg, query) {
        a is Skip
    } else if simulation {
        a is Count
    } else {
        a matches ScanAction::Delete(id) && id@ == id_or_empty(msg)
    }
}

/// Whether a message's content matches the search text, ignoring case.
fn content_matches_exec(msg: &JsonValue, query: &Option<String>) -> (r: bool)
    ensures
        r == content_matches(*msg, opt_view(*query)),
{
    match query {
        Some(q) => {
            let content = match field_str(msg, "content") {
                Some(c) => string_from_chars(c.as_slice()),
                None => String::new(),
            };
            let lc = to_lower(content.as_str());
            let lq = to_lower(q.as_str());
            let lcc = chars_of(lc.as_str());
            let lqc = chars_of(lq.as_str());
            contains_chars(lcc.as_slice(), lqc.as_slice())
        },
        None => true,
    }
}

/// Whether the user wrote a message and its time lies in the window.
fn is_purge_target(msg: &JsonValue, user_id: &str, start: Option<u64>, end: Option<u64>) -> (r: bool)
    ensures
        r == purge_target(*msg, user_id@, start, end),
{
    let author = field2_str(msg, "author", "id");
    let is_user = match author {
        Some(a) => crate::text::chars_eq_str(a.as_slice(), user_id),
        None => false,
    };
    is_user && in_time_range(message_time(msg), start, end)
}

/// Decides what the scan pass does with one message: only a message of the
/// user, in the time window and matching the search text, is deleted (or
/// counted, in a simulation).
pub fn scan_message(
    msg: &JsonValue,
    user_id: &str,
    query: &Option<String>,
    start: Option<u64>,
    end: Option<u64>,
    simulation: bool,
) -> (r: ScanAction)
    ensures
        scan_action_matches(r, *msg, user_id@, opt_view(*query), start, end, simulation),
{
    if !is_purge_target(msg, user_id, start, end) {
        return ScanAction::Skip;
    }
    if !content_matches_exec(msg, query) {
        return ScanAction::Skip;
    }
    if simulation {
        ScanAction::Count
    } else {
        let id = match field_str(msg, "id") {
            Some(i) => string_from_chars(i.as_slice()),
            None => String::new(),
        };
        ScanAction::Delete(id)
    }
}

/// A dry run shows exactly what the purge deletes: the simulated scan counts
/// a message exactly when the real scan deletes it, and never deletes; and
/// the purge deletes only the user's messages inside the time window.
pub proof fn lemma_preview_matches_purge(
    msg: JsonValue,
    user: Seq<char>,
    query: Option<Seq<char>>,
    start: Option<u64>,
    end: Option<u64>,
    preview: ScanAction,
    purge: ScanAction,
)
    requires
        scan_action_matches(preview, msg, user, query, start, end, true),
        scan_action_matches(purge, msg, user, query, start, end, false),
    ensures
        preview is Count <==> purge is Delete,
        !(preview is Delete),
        purge is Delete ==> authored_by(msg, user) && in_range_spec(message_time_of(msg), start, end),
{
}

/// The id of the last message of a page, which the next page starts before.
pub open spec fn last_id_of(msgs: Seq<JsonValue>) -> Option<Seq<char>> {
    if msgs.len() == 0 {
        None
    } else {
        str_of(field(msgs.last(), "id"@))
    }
}

/// A page is read further before its last (oldest) message: for a
/// non-empty page the paging id is the id of its final element, so adding
/// one more message at the end of a page makes that message's id the one
/// the next page starts before; an empty page ends the history.
pub proof fn lemma_paging_id(msgs: Seq<JsonValue>, m: JsonValue)
    ensures
        last_id_of(msgs.push(m)) == str_of(field(m, "id"@)),
        msgs.len() > 0 ==> last_id_of(msgs) == str_of(field(msgs[msgs.len() - 1], "id"@)),
        last_id_of(Seq::<JsonValue>::empty()) is None,
{
    assert(msgs.push(m).last() == m);
}

/// The id of the last message of a page, if it has one.
pub fn last_message_id(msgs: &Vec<JsonValue>) -> (r: Option<String>)
    ensures
        opt_view(r) == last_id_of(msgs@),
{
    if msgs.len() == 0 {
        return None;
    }
    match field_str(&msgs[msgs.len() - 1], "id") {
        Some(id) => Some(string_from_chars(id.as_slice())),
        None => None,
    }
}

/// Whether a timestamp lies in the (inclusive) time window; open ends do not limit.
pub open spec fn in_range_spec(ts: u64, start: Option<u64>, end: Option<u64>) -> bool {
    (start is None || ts >= start->0) && (end is None || ts <= end->0)
}

/// Whether a message time lies in the purge's time window.
pub fn in_time_range(ts: u64, start: Option<u64>, end: Option<u64>) -> (r: bool)
    ensures
        r == in_range_spec(ts, start, end),
{
    match (start, end) {
        (Some(s), Some(e)) => ts >= s && ts <= e,
        (Some(s), None) => ts >= s,
        (None, Some(e)) => ts <= e,
        (None, None) => true,
    }
}

/// The milliseconds since the epoch of an RFC 3339 timestamp, as chrono reads it.
pub uninterp spec fn rfc3339_millis(text: Seq<char>) -> Option<i64>;

/// `chrono::DateTime::parse_from_rfc3339` then `timestamp_millis`: the
/// instant in milliseconds since the epoch, or nothing when the text is not
/// RFC 3339. The result is named; it depends on the text alone.
#[verifier::external_body]
pub(crate) fn parse_rfc3339_millis(text: &str) -> (r: Option<i64>)
    ensures
        r == rfc3339_millis(text@),
{
    chrono::DateTime::parse_from_rfc3339(text).ok().map(|dt| dt.timestamp_millis())
}

/// The time of a message in milliseconds (0 when it has none that parses),
/// reinterpreted as unsigned as the purge compares it.
pub open spec fn message_time_of(msg: JsonValue) -> u64 {
    match rfc3339_millis(match str_of(field(msg, "timestamp"@)) {
        Some(t) => t,
        None => Seq::empty(),
    }) {
        Some(ms) => ms as u64,
        None => 0,
    }
}

/// The time of a message in milliseconds, as the purge compares it.
pub fn message_time(msg: &JsonValue) -> (r: u64)
    ensures
        r == message_time_of(*msg),
{
    let ts = match field_str(msg, "timestamp") {
        Some(t) => string_from_chars(t.as_slice()),
        None => String::new(),
    };
    match parse_rfc3339_millis(ts.as_str()) {
        Some(ms) => ms as u64,
        None => 0,
    }
}

/// The outcome of re-reading deleted messages: how many are gone, and the
/// ids of those that still came back.
pub struct VerificationReport {
    pub confirmed_deleted: usize,
    pub cached_ghosts: Vec<String>,
}

impl VerificationReport {
    /// No message checked yet.
    pub fn new() -> (r: VerificationReport)
        ensures
            r.confirmed_deleted == 0,
            r.cached_ghosts@.len() == 0,
    {
        VerificationReport { confirmed_deleted: 0, cached_ghosts: Vec::new() }
    }

    /// Records what re-reading a deleted message gave: a "404" error
    /// confirms its deletion, a message back is a ghost, any other error
    /// tells nothing.
    pub fn record(&mut self, id: String, fetched: &Result<JsonValue, AppError>)
        requires
            old(self).confirmed_deleted < usize::MAX,
        ensures
            match fetched {
                Ok(_) => final(self).confirmed_deleted == old(self).confirmed_deleted
                    && final(self).cached_ghosts@ == old(self).cached_ghosts@.push(id),
                Err(e) => final(self).cached_ghosts@ == old(self).cached_ghosts@ && (if contains_seq(
                    e.error_code@,
                    "404"@,
                ) {
                    final(self).confirmed_deleted == old(self).confirmed_deleted + 1
                } else {
                    final(self).confirmed_deleted == old(self).confirmed_deleted
                }),
            },
    {
        match fetched {
            Ok(_) => {
                self.cached_ghosts.push(id);
            },
            Err(e) => {
                if str_contains(e.error_code.as_str(), "404") {
                    self.confirmed_deleted = self.confirmed_deleted + 1;
                }
            },
        }
    }
}

} // verus!
