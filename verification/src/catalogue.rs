//! The account's catalogue: the guilds, channels and relationships that the
//! Discord API lists, and which of them the tool offers to work on.
use vstd::prelude::*;
use crate::json::{JsonValue, field, str_of, u64_of, array_of, field_str, field_u64, str_or, field_str_or};
use crate::error::AppError;
use crate::text::{append_str, append_chars, string_from_chars};
use crate::limiter::opt_view;

verus! {

/// A guild the user is a member of.
pub struct Guild {
    pub id: String,
    pub name: String,
    pub icon: Option<String>,
    pub owner: bool,
}

/// A channel: of a guild, a direct message or a group.
pub struct Channel {
    pub id: String,
    pub name: Option<String>,
    /// Discord's channel type: 0 text, 1 direct message, 2 voice, 3 group,
    /// 5 announcements, 11 and 12 threads, 15 forum.
    pub channel_type: u8,
}

/// A relationship (friend, block, request) of the user.
pub struct Relationship {
    pub id: String,
    pub nickname: Option<String>,
    pub user: JsonValue,
    pub rel_type: u8,
}

/// A channel as plain values: id, name, type.
pub open spec fn channel_view(c: Channel) -> (Seq<char>, Option<Seq<char>>, u8) {
    (c.id@, opt_view(c.name), c.channel_type)
}

/// The channels of a list whose type is one of `kinds`, in order.
pub open spec fn channels_of_kinds(s: Seq<Channel>, kinds: Seq<u8>) -> Seq<Channel>
    decreases s.len(),
{
    if s.len() == 0 {
        Seq::empty()
    } else {
        let prev = channels_of_kinds(s.drop_last(), kinds);
        if kinds.contains(s.last().channel_type) {
            prev.push(s.last())
        } else {
            prev
        }
    }
}

/// The types of guild channels that the tool lists: text, announcements,
/// threads and forums.
pub open spec fn guild_channel_kinds() -> Seq<u8> {
    seq![0u8, 5u8, 11u8, 12u8, 15u8]
}

/// The types of channels that hold text messages: text and threads.
pub open spec fn text_channel_kinds() -> Seq<u8> {
    seq![0u8, 11u8, 12u8]
}

impl Channel {
    /// A copy of the channel.
    pub fn duplicate(&self) -> (r: Channel)
        ensures
            r == *self,
    {
        let name = match &self.name {
            Some(n) => Some(n.clone()),
            None => None,
        };
        Channel { id: self.id.clone(), name, channel_type: self.channel_type }
    }
}

fn kind_listed(kinds: &[u8], t: u8) -> (r: bool)
    ensures
        r == kinds@.contains(t),
{
    let mut i: usize = 0;
    while i < kinds.len()
        invariant
            i <= kinds@.len(),
            forall|j: int| 0 <= j < i ==> kinds@[j] != t,
        decreases kinds@.len() - i,
    {
        if kinds[i] == t {
            assert(kinds@[i as int] == t);
            return true;
        }
        i += 1;
    }
    false
}

/// The channels whose type is one of `kinds`, in their order.
pub fn channels_with_kinds(channels: &Vec<Channel>, kinds: &[u8]) -> (r: Vec<Channel>)
    ensures
        r@ == channels_of_kinds(channels@, kinds@),
{
    let mut out: Vec<Channel> = Vec::new();
    let mut i: usize = 0;
    assert(channels@.take(0) == Seq::<Channel>::empty());
    while i < channels.len()
        invariant
            i <= channels@.len(),
            out@ == channels_of_kinds(channels@.take(i as int), kinds@),
        decreases channels@.len() - i,
    {
        proof {
            assert(channels@.take(i + 1).drop_last() == channels@.take(i as int));
            assert(channels@.take(i + 1).last() == channels@[i as int]);
        }
        if kind_listed(kinds, channels[i].channel_type) {
            out.push(channels[i].duplicate());
        }
        i += 1;
    }
    assert(channels@.take(i as int) == channels@);
    out
}

/// The channels of a guild that the tool lists (text, announcements,
/// threads, forums), in their order.
pub fn filter_guild_channels(channels: &Vec<Channel>) -> (r: Vec<Channel>)
    ensures
        r@ == channels_of_kinds(channels@, guild_channel_kinds()),
{
    let kinds: [u8; 5] = [0u8, 5u8, 11u8, 12u8, 15u8];
    assert(kinds@ == guild_channel_kinds());
    channels_with_kinds(channels, &kinds)
}

/// The channels of a guild that hold text messages (text and threads), in
/// their order.
pub fn filter_text_channels(channels: &Vec<Channel>) -> (r: Vec<Channel>)
    ensures
        r@ == channels_of_kinds(channels@, text_channel_kinds()),
{
    let kinds: [u8; 3] = [0u8, 11u8, 12u8];
    assert(kinds@ == text_channel_kinds());
    channels_with_kinds(channels, &kinds)
}

/// A private channel's type (0 when it has none).
pub open spec fn json_channel_type(ch: JsonValue) -> u64 {
    match u64_of(field(ch, "type"@)) {
        Some(t) => t,
        None => 0,
    }
}

/// The name the tool shows for a private channel of type `t`: "DM with" and
/// the first recipient's user name for a direct message (none when it has
/// no such recipient); the group's name, or "Unnamed Group DM", for a group.
pub open spec fn private_channel_name(ch: JsonValue, t: u64) -> Option<Seq<char>> {
    if t == 1 {
        match array_of(field(ch, "recipients"@)) {
            Some(rs) => if rs.len() > 0 {
                match str_of(field(rs[0], "username"@)) {
                    Some(u) => Some("DM with "@ + u),
                    None => None,
                }
            } else {
                None
            },
            None => None,
        }
    } else {
        match str_of(field(ch, "name"@)) {
            Some(n) => Some(n),
            None => Some("Unnamed Group DM"@),
        }
    }
}

/// The channel the tool lists for a private channel of the API: direct
/// messages (1) and groups (3) only.
pub open spec fn private_channel_of(ch: JsonValue) -> Option<(Seq<char>, Option<Seq<char>>, u8)> {
    let t = json_channel_type(ch);
    if t == 1 || t == 3 {
        Some((str_or(ch, "id"@, ""@), private_channel_name(ch, t), t as u8))
    } else {
        None
    }
}

fn private_channel_name_of(ch: &JsonValue, t: u64) -> (r: Option<String>)
    ensures
        opt_view(r) == private_channel_name(*ch, t),
{
    if t == 1 {
        match ch.get("recipients") {
            Some(rv) => match rv.as_array() {
                Some(rs) => {
                    if rs.len() > 0 {
                        match field_str(&rs[0], "username") {
                            Some(u) => {
                                let mut s = String::from_str("DM with ");
                                append_chars(&mut s, u.as_slice());
                                Some(s)
                            },
                            None => None,
                        }
                    } else {
                        None
                    }
                },
                None => None,
            },
            None => None,
        }
    } else {
        match field_str(ch, "name") {
            Some(n) => Some(string_from_chars(n.as_slice())),
            None => Some(String::from_str("Unnamed Group DM")),
        }
    }
}

/// The channel the tool lists for a private channel of the API, when it is
/// a direct message or a group.
pub fn private_channel(ch: &JsonValue) -> (r: Option<Channel>)
    ensures
        match r {
            Some(c) => private_channel_of(*ch) == Some(channel_view(c)),
            None => private_channel_of(*ch) is None,
        },
{
    let t = match field_u64(ch, "type") {
        Some(t) => t,
        None => 0,
    };
    if t == 1 || t == 3 {
        let id = field_str_or(ch, "id", "");
        let name = private_channel_name_of(ch, t);
        Some(Channel { id: string_from_chars(id.as_slice()), name, channel_type: t as u8 })
    } else {
        None
    }
}

/// The channels the tool lists for the private channels of the API, in order.
pub open spec fn private_channels_of(s: Seq<JsonValue>) -> Seq<(Seq<char>, Option<Seq<char>>, u8)>
    decreases s.len(),
{
    if s.len() == 0 {
        Seq::empty()
    } else {
        let prev = private_channels_of(s.drop_last());
        match private_channel_of(s.last()) {
            Some(c) => prev.push(c),
            None => prev,
        }
    }
}

/// The views of a list of channels.
pub open spec fn channel_views(s: Seq<Channel>) -> Seq<(Seq<char>, Option<Seq<char>>, u8)> {
    s.map_values(|c: Channel| channel_view(c))
}

/// The direct messages and groups among the private channels of the API,
/// in order.
pub fn private_channels(chs: &Vec<JsonValue>) -> (r: Vec<Channel>)
    ensures
        channel_views(r@) == private_channels_of(chs@),
{
    let mut out: Vec<Channel> = Vec::new();
    let mut i: usize = 0;
    assert(chs@.take(0) == Seq::<JsonValue>::empty());
    assert(channel_views(out@) =~= Seq::empty());
    while i < chs.len()
        invariant
            i <= chs@.len(),
            channel_views(out@) == private_channels_of(chs@.take(i as int)),
        decreases chs@.len() - i,
    {
        proof {
            assert(chs@.take(i + 1).drop_last() == chs@.take(i as int));
            assert(chs@.take(i + 1).last() == chs@[i as int]);
        }
        match private_channel(&chs[i]) {
            Some(c) => {
                let ghost before = out@;
                out.push(c);
                assert(channel_views(out@) =~= channel_views(before).push(channel_view(c)));
            },
            None => {},
        }
        i += 1;
    }
    assert(chs@.take(i as int) == chs@);
    out
}

/// The URL that lists the channels: those of a guild when one is given,
/// else the private channels.
pub open spec fn channel_listing_url_of(guild: Option<Seq<char>>) -> Seq<char> {
    match guild {
        Some(g) => "https://discord.com/api/v9/guilds/"@ + g + "/channels"@,
        None => "https://discord.com/api/v9/users/@me/channels"@,
    }
}

/// The URL that lists the channels, or the refusal when the private channels
/// are asked for with an OAuth token, which cannot read them.
pub fn channel_listing_url(guild_id: &Option<String>, is_bearer: bool) -> (r: Result<String, AppError>)
    ensures
        guild_id.is_none() && is_bearer <==> r is Err,
        r matches Ok(u) ==> u@ == channel_listing_url_of(opt_view(*guild_id)),
        r matches Err(e) ==> e.user_message@ == "DMs restricted"@ && e.error_code@
            == "dm_restricted"@,
{
    match guild_id {
        Some(g) => {
            let mut s = String::from_str("https://discord.com/api/v9/guilds/");
            append_str(&mut s, g.as_str());
            append_str(&mut s, "/channels");
            Ok(s)
        },
        None => {
            if is_bearer {
                Err(AppError::new("DMs restricted", "dm_restricted"))
            } else {
                Ok(String::from_str("https://discord.com/api/v9/users/@me/channels"))
            }
        },
    }
}

/// The URL of the five latest messages of a channel.
pub fn preview_url(channel_id: &str) -> (r: String)
    ensures
        r@ == "https://discord.com/api/v9/channels/"@ + channel_id@ + "/messages?limit=5"@,
{
    let mut s = String::from_str("https://discord.com/api/v9/channels/");
    append_str(&mut s, channel_id);
    append_str(&mut s, "/messages?limit=5");
    s
}

/// The ids of a list of guilds, in order.
pub fn guild_ids(guilds: &Vec<Guild>) -> (r: Vec<String>)
    ensures
        r@.len() == guilds@.len(),
        forall|i: int| 0 <= i < guilds@.len() ==> #[trigger] r@[i] == guilds@[i].id,
{
    let mut out: Vec<String> = Vec::new();
    let mut i: usize = 0;
    while i < guilds.len()
        invariant
            i <= guilds@.len(),
            out@.len() == i,
            forall|k: int| 0 <= k < i ==> #[trigger] out@[k] == guilds@[k].id,
        decreases guilds@.len() - i,
    {
        out.push(guilds[i].id.clone());
        i += 1;
    }
    out
}

/// The user ids of a list of relationships, in order.
pub fn relationship_ids(relationships: &Vec<Relationship>) -> (r: Vec<String>)
    ensures
        r@.len() == relationships@.len(),
        forall|i: int| 0 <= i < relationships@.len() ==> #[trigger] r@[i] == relationships@[i].id,
{
    let mut out: Vec<String> = Vec::new();
    let mut i: usize = 0;
    while i < relationships.len()
        invariant
            i <= relationships@.len(),
            out@.len() == i,
            forall|k: int| 0 <= k < i ==> #[trigger] out@[k] == relationships@[k].id,
        decreases relationships@.len() - i,
    {
        out.push(relationships[i].id.clone());
        i += 1;
    }
    out
}

} // verus!
