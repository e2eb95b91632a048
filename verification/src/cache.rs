//! The local forensic cache: the rows it keeps of guilds, channels and
//! messages (message text encrypted under the vault key), and the search
//! over them.
use vstd::prelude::*;
use crate::json::{lemma_key_index_unique, JsonValue, JsonNumber, field, field2, str_of, array_of, str_or, field_str_or};
use crate::error::AppError;
use crate::crypto::{Crypto, usable_key, decrypt_outcome, encryptable};
use crate::codec::base64_decoded;
use crate::text::{string_from_chars, contains_seq, lowercase, to_lower, str_contains};
use crate::purge::{rfc3339_millis, parse_rfc3339_millis};

verus! {

/// The cache's tables and indexes.
pub const SCHEMA: &'static str = "
CREATE TABLE IF NOT EXISTS guilds (
    id TEXT,
    identity_id TEXT NOT NULL,
    name TEXT NOT NULL,
    icon TEXT,
    owner BOOLEAN NOT NULL,
    last_synced INTEGER NOT NULL,
    PRIMARY KEY (id, identity_id)
);

CREATE TABLE IF NOT EXISTS channels (
    id TEXT,
    identity_id TEXT NOT NULL,
    guild_id TEXT, -- NULL for DMs
    name TEXT,
    type INTEGER NOT NULL,
    last_synced INTEGER NOT NULL,
    PRIMARY KEY (id, identity_id),
    FOREIGN KEY(guild_id, identity_id) REFERENCES guilds(id, identity_id) ON DELETE CASCADE
);

CREATE TABLE IF NOT EXISTS messages (
    id TEXT PRIMARY KEY,
    identity_id TEXT NOT NULL,
    channel_id TEXT NOT NULL,
    author_id TEXT NOT NULL,
    content TEXT NOT NULL,
    timestamp INTEGER NOT NULL,
    has_attachments BOOLEAN NOT NULL,
    is_deleted BOOLEAN DEFAULT 0,
    FOREIGN KEY(channel_id, identity_id) REFERENCES channels(id, identity_id) ON DELETE CASCADE
);

CREATE TABLE IF NOT EXISTS discovery (
    key TEXT PRIMARY KEY,
    value TEXT NOT NULL
);

CREATE INDEX IF NOT EXISTS idx_messages_channel ON messages(channel_id, identity_id);
CREATE INDEX IF NOT EXISTS idx_messages_author ON messages(author_id);
CREATE INDEX IF NOT EXISTS idx_channels_guild ON channels(guild_id, identity_id);
";

/// The file of the cache in the application's data directory.
pub const CACHE_FILE_NAME: &'static str = "forensic_cache.db";

/// The most results a search returns.
pub const SEARCH_LIMIT: usize = 1000;

/// What the cache says of the user's footprint.
pub struct FootprintStats {
    pub total_messages: i64,
    pub total_attachments: i64,
    pub server_densities: Vec<ServerDensity>,
}

/// How many cached messages a guild holds.
pub struct ServerDensity {
    pub guild_id: String,
    pub guild_name: String,
    pub message_count: i64,
}

/// The row the cache keeps of a message.
pub struct MessageRecord {
    pub id: String,
    pub channel_id: String,
    pub author_id: String,
    pub content: String,
    /// Milliseconds since the epoch (0 when the message has no readable time).
    pub timestamp: i64,
    pub has_attachments: bool,
}

/// A message row as read back from the cache, its content decrypted.
pub struct CachedMessage {
    pub id: String,
    pub channel_id: String,
    pub identity_id: String,
    pub author_id: String,
    pub content: String,
    pub timestamp: i64,
    pub has_attachments: bool,
}

/// The time of a message in milliseconds (0 when it has none that parses).
pub open spec fn record_time_of(msg: JsonValue) -> i64 {
    match rfc3339_millis(str_or(msg, "timestamp"@, ""@)) {
        Some(ms) => ms,
        None => 0,
    }
}

/// Whether a message has attachments: a non-empty `attachments` array.
pub open spec fn has_attachments_of(msg: JsonValue) -> bool {
    match array_of(field(msg, "attachments"@)) {
        Some(a) => a.len() > 0,
        None => false,
    }
}

/// Whether a record is the row of a message, with the content as given.
pub open spec fn record_matches(r: MessageRecord, msg: JsonValue, content: Seq<char>) -> bool {
    &&& r.id@ == str_or(msg, "id"@, ""@)
    &&& r.channel_id@ == str_or(msg, "channel_id"@, ""@)
    &&& r.author_id@ == match str_of(field2(msg, "author"@, "id"@)) {
        Some(a) => a,
        None => ""@,
    }
    &&& r.content@ == content
    &&& r.timestamp == record_time_of(msg)
    &&& r.has_attachments == has_attachments_of(msg)
}

/// Whether a decrypted content matches a search, ignoring case.
pub open spec fn content_matches_query(content: Seq<char>, query: Seq<char>) -> bool {
    contains_seq(lowercase(content), lowercase(query))
}

/// The messages of a list whose content matches a search, in order.
pub open spec fn matching_messages(rows: Seq<(JsonValue, String)>, query: Seq<char>) -> Seq<JsonValue>
    decreases rows.len(),
{
    if rows.len() == 0 {
        Seq::empty()
    } else {
        let prev = matching_messages(rows.drop_last(), query);
        if content_matches_query(rows.last().1@, query) {
            prev.push(rows.last().0)
        } else {
            prev
        }
    }
}

proof fn lemma_matching_grows(rows: Seq<(JsonValue, String)>, query: Seq<char>, i: int, j: int)
    requires
        0 <= i <= j <= rows.len(),
    ensures
        matching_messages(rows.take(i), query).len() <= matching_messages(rows.take(j), query).len(),
        matching_messages(rows.take(i), query).is_prefix_of(matching_messages(rows.take(j), query)),
    decreases j - i,
{
    if i < j {
        lemma_matching_grows(rows, query, i, j - 1);
        assert(rows.take(j).drop_last() == rows.take(j - 1));
    }
}

/// An object entry with a text value.
fn text_entry(key: &str, value: String) -> (r: (String, JsonValue))
    ensures
        r.0@ == key@,
        r.1 == JsonValue::Str(value),
{
    (String::from_str(key), JsonValue::Str(value))
}

/// The JSON number of a signed integer, as serde_json stores it.
pub open spec fn int_number(n: i64) -> JsonNumber {
    if n >= 0 {
        JsonNumber::PosInt(n as u64)
    } else {
        JsonNumber::NegInt(n)
    }
}

fn int_value(n: i64) -> (r: JsonValue)
    ensures
        r == JsonValue::Number(int_number(n)),
{
    if n >= 0 {
        JsonValue::Number(JsonNumber::PosInt(n as u64))
    } else {
        JsonValue::Number(JsonNumber::NegInt(n))
    }
}

impl CacheManager {
    /// The row the cache keeps of a message, with its content in the clear.
    pub fn message_record(msg: &JsonValue) -> (r: MessageRecord)
        ensures
            record_matches(r, *msg, str_or(*msg, "content"@, ""@)),
    {
        let id = field_str_or(msg, "id", "");
        let channel_id = field_str_or(msg, "channel_id", "");
        let author_id = match crate::json::field2_str(msg, "author", "id") {
            Some(a) => a,
            None => crate::text::chars_of(""),
        };
        let content = field_str_or(msg, "content", "");
        let ts_text = field_str_or(msg, "timestamp", "");
        let ts_string = string_from_chars(ts_text.as_slice());
        let timestamp = match parse_rfc3339_millis(ts_string.as_str()) {
            Some(ms) => ms,
            None => 0,
        };
        let has_attachments = match msg.get("attachments") {
            Some(a) => match a.as_array() {
                Some(items) => items.len() > 0,
                None => false,
            },
            None => false,
        };
        MessageRecord {
            id: string_from_chars(id.as_slice()),
            channel_id: string_from_chars(channel_id.as_slice()),
            author_id: string_from_chars(author_id.as_slice()),
            content: string_from_chars(content.as_slice()),
            timestamp,
            has_attachments,
        }
    }

    /// The row the cache keeps of a message, its content encrypted under the
    /// vault key: the encrypted content decrypts back to the message's text.
    /// It fails only when the key does not decode or the text is too long to
    /// encrypt.
    pub fn sealed_record(msg: &JsonValue, key_base64: &str) -> (r: Result<MessageRecord, AppError>)
        requires
            usable_key(key_base64@),
        ensures
            base64_decoded(key_base64@) is None ==> r is Err,
            base64_decoded(key_base64@) is Some ==> (r is Ok == encryptable(str_or(*msg, "content"@, ""@))),
            r matches Ok(rec) ==> record_matches(rec, *msg, rec.content@) && decrypt_outcome(
                base64_decoded(key_base64@).unwrap(),
                rec.content@,
            ) == Ok::<Seq<char>, Seq<char>>(str_or(*msg, "content"@, ""@)),
    {
        let mut rec = Self::message_record(msg);
        let sealed = Crypto::encrypt(key_base64, rec.content.as_str())?;
        rec.content = sealed;
        Ok(rec)
    }

    /// The content of a cached message: decrypted under the vault key, or
    /// empty when it does not decrypt.
    pub fn readable_content(key_base64: &str, encrypted: &str) -> (r: String)
        requires
            usable_key(key_base64@),
        ensures
            base64_decoded(key_base64@) is Some ==> match decrypt_outcome(
                base64_decoded(key_base64@).unwrap(),
                encrypted@,
            ) {
                Ok(p) => r@ == p,
                Err(_) => r@ == Seq::<char>::empty(),
            },
            base64_decoded(key_base64@) is None ==> r@ == Seq::<char>::empty(),
    {
        match Crypto::decrypt(key_base64, encrypted) {
            Ok(p) => p,
            Err(_) => String::new(),
        }
    }

    /// Whether a content matches a search text, ignoring case.
    pub fn matches_query(content: &str, query: &str) -> (r: bool)
        ensures
            r == content_matches_query(content@, query@),
    {
        let c = to_lower(content);
        let q = to_lower(query);
        str_contains(c.as_str(), q.as_str())
    }

    /// The JSON object a search returns for a cached message.
    pub fn message_json(m: &CachedMessage) -> (r: JsonValue)
        ensures
            str_of(field(r, "id"@)) == Some(m.id@),
            str_of(field(r, "channel_id"@)) == Some(m.channel_id@),
            str_of(field(r, "identity_id"@)) == Some(m.identity_id@),
            str_of(field(r, "author_id"@)) == Some(m.author_id@),
            str_of(field(r, "content"@)) == Some(m.content@),
            field(r, "timestamp"@) == Some(JsonValue::Number(int_number(m.timestamp))),
            field(r, "has_attachments"@) == Some(JsonValue::Bool(m.has_attachments)),
    {
        let entries = vec![
            text_entry("id", m.id.clone()),
            text_entry("channel_id", m.channel_id.clone()),
            text_entry("identity_id", m.identity_id.clone()),
            text_entry("author_id", m.author_id.clone()),
            text_entry("content", m.content.clone()),
            (String::from_str("timestamp"), int_value(m.timestamp)),
            (String::from_str("has_attachments"), JsonValue::Bool(m.has_attachments)),
        ];
        proof {
            reveal_strlit("id");
            reveal_strlit("channel_id");
            reveal_strlit("identity_id");
            reveal_strlit("author_id");
            reveal_strlit("content");
            reveal_strlit("timestamp");
            reveal_strlit("has_attachments");
            assert forall|i: int, j: int| 0 <= i < j < 7 implies entries@[i].0@ != entries@[j].0@ by {
                assert(entries@[i].0@.len() != entries@[j].0@.len() || entries@[i].0@[0] != entries@[j].0@[0]
                    || entries@[i].0@[1] != entries@[j].0@[1]);
            }
            lemma_key_index_unique(entries@, "id"@, 0);
            lemma_key_index_unique(entries@, "channel_id"@, 1);
            lemma_key_index_unique(entries@, "identity_id"@, 2);
            lemma_key_index_unique(entries@, "author_id"@, 3);
            lemma_key_index_unique(entries@, "content"@, 4);
            lemma_key_index_unique(entries@, "timestamp"@, 5);
            lemma_key_index_unique(entries@, "has_attachments"@, 6);
        }
        JsonValue::Object(entries)
    }

    /// The search over cached messages: those whose decrypted content
    /// matches the text, in order, and no more than the first thousand.
    pub fn select_matches(rows: Vec<(JsonValue, String)>, query: &str) -> (r: Vec<JsonValue>)
        ensures
            matching_messages(rows@, query@).len() <= SEARCH_LIMIT ==> r@ == matching_messages(rows@, query@),
            matching_messages(rows@, query@).len() > SEARCH_LIMIT ==> r@ == matching_messages(rows@, query@).take(
                SEARCH_LIMIT as int,
            ),
    {
        let ghost all = rows@;
        let n = rows.len();
        let mut rows = rows;
        let mut rev: Vec<(JsonValue, String)> = Vec::new();
        let mut j: usize = 0;
        while j < n
            invariant
                n == all.len(),
                j <= n,
                rows@ == all.take(n - j),
                rev@.len() == j,
                forall|k: int| 0 <= k < j ==> rev@[k] == all[n - 1 - k],
            decreases n - j,
        {
            let x = rows.pop().unwrap();
            assert(all.take(n - j).drop_last() == all.take(n - j - 1));
            rev.push(x);
            j += 1;
        }
        let mut out: Vec<JsonValue> = Vec::new();
        let mut i: usize = 0;
        assert(all.take(0) == Seq::<(JsonValue, String)>::empty());
        while i < n
            invariant_except_break
                out@.len() < SEARCH_LIMIT,
            invariant
                n == all.len(),
                i <= n,
                rev@.len() == n - i,
                forall|k: int| 0 <= k < n - i ==> rev@[k] == all[n - 1 - k],
                out@ == matching_messages(all.take(i as int), query@),
            ensures
                out@.len() <= SEARCH_LIMIT,
                i == n || out@.len() == SEARCH_LIMIT,
                out@ == matching_messages(all.take(i as int), query@),
            decreases n - i,
        {
            let (msg, content) = rev.pop().unwrap();
            proof {
                assert(all.take(i + 1).drop_last() == all.take(i as int));
                assert(all.take(i + 1).last() == all[i as int]);
            }
            if Self::matches_query(content.as_str(), query) {
                out.push(msg);
            }
            i += 1;
            if out.len() >= SEARCH_LIMIT {
                break;
            }
        }
        proof {
            assert(all.take(n as int) == all);
            if i < n {
                lemma_matching_grows(all, query@, i as int, n as int);
                let m = matching_messages(all, query@);
                assert(m.take(SEARCH_LIMIT as int) == out@);
            }
        }
        out
    }
}

/// The cache of guilds, channels and messages.
pub struct CacheManager;

} // verus!
