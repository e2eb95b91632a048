//! Standardized Discord API routes, used to key rate-limit buckets.
use vstd::prelude::*;
use crate::text::{chars_of, chars_eq_str, append_str, all_digits};

verus! {

/// Represents a standardized Discord API route for rate limiting purposes.
/// This enum simplifies route identification and ensures consistent bucketing.
pub enum DiscordApiRoute {
    /// Generic route for unknown or unhandled endpoints.
    Default,
    /// /users/@me
    CurrentUser,
    /// /users/@me/guilds
    CurrentUserGuilds,
    /// /users/@me/channels
    CurrentUserChannels,
    /// /users/@me/relationships
    CurrentUserRelationships,
    /// /channels/{channel.id}
    Channel(String),
    /// /channels/{channel.id}/messages
    ChannelMessages(String),
    /// /channels/{channel.id}/messages/{message.id}
    ChannelMessage(String, String),
    /// /guilds/{guild.id}
    Guild(String),
}

/// The abstract value of a route.
pub ghost enum RouteView {
    Default,
    CurrentUser,
    CurrentUserGuilds,
    CurrentUserChannels,
    CurrentUserRelationships,
    Channel(Seq<char>),
    ChannelMessages(Seq<char>),
    ChannelMessage(Seq<char>, Seq<char>),
    Guild(Seq<char>),
}

impl View for DiscordApiRoute {
    type V = RouteView;

    open spec fn view(&self) -> RouteView {
        match self {
            DiscordApiRoute::Default => RouteView::Default,
            DiscordApiRoute::CurrentUser => RouteView::CurrentUser,
            DiscordApiRoute::CurrentUserGuilds => RouteView::CurrentUserGuilds,
            DiscordApiRoute::CurrentUserChannels => RouteView::CurrentUserChannels,
            DiscordApiRoute::CurrentUserRelationships => RouteView::CurrentUserRelationships,
            DiscordApiRoute::Channel(id) => RouteView::Channel(id@),
            DiscordApiRoute::ChannelMessages(id) => RouteView::ChannelMessages(id@),
            DiscordApiRoute::ChannelMessage(c, m) => RouteView::ChannelMessage(c@, m@),
            DiscordApiRoute::Guild(id) => RouteView::Guild(id@),
        }
    }
}

/// The bucket key of a route.
pub open spec fn route_key(r: RouteView) -> Seq<char> {
    match r {
        RouteView::Default => "default"@,
        RouteView::CurrentUser => "users/@me"@,
        RouteView::CurrentUserGuilds => "users/@me/guilds"@,
        RouteView::CurrentUserChannels => "users/@me/channels"@,
        RouteView::CurrentUserRelationships => "users/@me/relationships"@,
        RouteView::Channel(id) => "channels/"@ + id,
        RouteView::ChannelMessages(id) => "channels/"@ + id + "/messages"@,
        RouteView::ChannelMessage(c, m) => "channels/"@ + c + "/messages/"@ + m,
        RouteView::Guild(id) => "guilds/"@ + id,
    }
}

impl DiscordApiRoute {
    /// The bucket key of this route ("channels/{id}/messages" and so on).
    pub fn to_string(&self) -> (r: String)
        ensures
            r@ == route_key(self@),
    {
        match self {
            DiscordApiRoute::Default => String::from_str("default"),
            DiscordApiRoute::CurrentUser => String::from_str("users/@me"),
            DiscordApiRoute::CurrentUserGuilds => String::from_str("users/@me/guilds"),
            DiscordApiRoute::CurrentUserChannels => String::from_str("users/@me/channels"),
            DiscordApiRoute::CurrentUserRelationships => String::from_str(
                "users/@me/relationships",
            ),
            DiscordApiRoute::Channel(id) => {
                let mut s = String::from_str("channels/");
                append_str(&mut s, id.as_str());
                s
            },
            DiscordApiRoute::ChannelMessages(id) => {
                let mut s = String::from_str("channels/");
                append_str(&mut s, id.as_str());
                append_str(&mut s, "/messages");
                s
            },
            DiscordApiRoute::ChannelMessage(c, m) => {
                let mut s = String::from_str("channels/");
                append_str(&mut s, c.as_str());
                append_str(&mut s, "/messages/");
                append_str(&mut s, m.as_str());
                s
            },
            DiscordApiRoute::Guild(id) => {
                let mut s = String::from_str("guilds/");
                append_str(&mut s, id.as_str());
                s
            },
        }
    }
}

/// The one-element sequence holding `cur`, or nothing when `cur` is empty.
pub open spec fn flush(cur: Seq<char>) -> Seq<Seq<char>> {
    if cur.len() > 0 {
        seq![cur]
    } else {
        Seq::empty()
    }
}

/// The non-empty `/`-separated segments of `s`, the current segment being `cur`.
pub open spec fn segments_from(s: Seq<char>, cur: Seq<char>) -> Seq<Seq<char>>
    decreases s.len(),
{
    if s.len() == 0 {
        flush(cur)
    } else if s[0] == '/' {
        flush(cur) + segments_from(s.drop_first(), Seq::empty())
    } else {
        segments_from(s.drop_first(), cur.push(s[0]))
    }
}

/// `path.split('/').filter(|s| !s.is_empty())`.
pub open spec fn path_segments(path: Seq<char>) -> Seq<Seq<char>> {
    segments_from(path, Seq::empty())
}

/// The abstract values of a vector of character vectors.
pub open spec fn views(v: Seq<Vec<char>>) -> Seq<Seq<char>> {
    v.map_values(|x: Vec<char>| x@)
}

/// The non-empty `/`-separated segments of a path.
pub fn split_path(path: &[char]) -> (r: Vec<Vec<char>>)
    ensures
        views(r@) == path_segments(path@),
{
    let mut out: Vec<Vec<char>> = Vec::new();
    let mut cur: Vec<char> = Vec::new();
    let mut i: usize = 0;
    assert(path@.skip(0) == path@);
    while i < path.len()
        invariant
            i <= path@.len(),
            views(out@) + segments_from(path@.skip(i as int), cur@) == path_segments(path@),
        decreases path@.len() - i,
    {
        let ghost rest = path@.skip(i as int);
        assert(rest[0] == path@[i as int]);
        assert(rest.drop_first() == path@.skip(i + 1));
        if path[i] == '/' {
            let ghost before = views(out@);
            let ghost old_cur = cur@;
            assert(segments_from(rest, old_cur) == flush(old_cur) + segments_from(
                path@.skip(i + 1),
                Seq::empty(),
            ));
            if cur.len() > 0 {
                out.push(cur);
                assert(views(out@) == before + flush(old_cur));
            } else {
                assert(before + flush(old_cur) == before);
            }
            cur = Vec::new();
            assert(cur@ == Seq::<char>::empty());
            assert((before + flush(old_cur)) + segments_from(path@.skip(i + 1), Seq::empty())
                == before + (flush(old_cur) + segments_from(path@.skip(i + 1), Seq::empty())));
        } else {
            let c = path[i];
            assert(segments_from(rest, cur@) == segments_from(path@.skip(i + 1), cur@.push(c)));
            cur.push(c);
        }
        i += 1;
    }
    assert(path@.skip(i as int).len() == 0);
    let ghost before = views(out@);
    if cur.len() > 0 {
        out.push(cur);
        assert(views(out@) == before + flush(cur@));
    } else {
        assert(before + flush(cur@) == before);
    }
    out
}

/// The index of the first segment equal to `w`.
pub open spec fn first_pos(segs: Seq<Seq<char>>, w: Seq<char>) -> Option<int> {
    if exists|i: int| 0 <= i < segs.len() && segs[i] == w {
        Some(choose|i: int| 0 <= i < segs.len() && segs[i] == w && forall|j: int| 0 <= j < i ==> segs[j] != w)
    } else {
        None
    }
}

/// `segs.get(i) == Some(w)`.
pub open spec fn seg_is(segs: Seq<Seq<char>>, i: int, w: Seq<char>) -> bool {
    0 <= i < segs.len() && segs[i] == w
}

/// The route of a path whose first `@me` segment is at `p`.
pub open spec fn me_route(segs: Seq<Seq<char>>, p: int) -> RouteView {
    if seg_is(segs, p + 1, "guilds"@) {
        RouteView::CurrentUserGuilds
    } else if seg_is(segs, p + 1, "channels"@) {
        RouteView::CurrentUserChannels
    } else if seg_is(segs, p + 1, "relationships"@) {
        RouteView::CurrentUserRelationships
    } else {
        RouteView::CurrentUser
    }
}

/// The route of a path whose first `channels` segment is at `p`, followed by an id.
pub open spec fn channel_route(segs: Seq<Seq<char>>, p: int) -> RouteView {
    if seg_is(segs, p + 2, "messages"@) {
        if p + 3 < segs.len() {
            RouteView::ChannelMessage(segs[p + 1], segs[p + 3])
        } else {
            RouteView::ChannelMessages(segs[p + 1])
        }
    } else {
        RouteView::Channel(segs[p + 1])
    }
}

/// The route of a path without an `@me` segment or a `channels` segment followed by an id.
pub open spec fn guild_route(segs: Seq<Seq<char>>) -> RouteView {
    let g = first_pos(segs, "guilds"@);
    if g is Some && g->0 + 1 < segs.len() {
        RouteView::Guild(segs[g->0 + 1])
    } else {
        RouteView::Default
    }
}

/// The route that a path with these segments falls under: a `@me` segment
/// decides first, then a `channels` segment followed by an id, then a
/// `guilds` segment followed by an id.
pub open spec fn route_of_segments(segs: Seq<Seq<char>>) -> RouteView {
    match first_pos(segs, "@me"@) {
        Some(p) => me_route(segs, p),
        None => {
            let c = first_pos(segs, "channels"@);
            if c is Some && c->0 + 1 < segs.len() {
                channel_route(segs, c->0)
            } else {
                guild_route(segs)
            }
        },
    }
}

proof fn lemma_first_pos_unique(segs: Seq<Seq<char>>, w: Seq<char>, i: int)
    requires
        0 <= i < segs.len(),
        segs[i] == w,
        forall|j: int| 0 <= j < i ==> segs[j] != w,
    ensures
        first_pos(segs, w) == Some(i),
{
    assert(exists|i: int| 0 <= i < segs.len() && segs[i] == w);
    let k = choose|k: int| 0 <= k < segs.len() && segs[k] == w && forall|j: int| 0 <= j < k ==> segs[j] != w;
    assert(exists|k: int| 0 <= k < segs.len() && segs[k] == w && forall|j: int| 0 <= j < k ==> segs[j] != w);
    if k < i {
    } else if i < k {
    }
}

/// The position of the first segment that spells `w`.
fn position_of(segs: &Vec<Vec<char>>, w: &str) -> (r: Option<usize>)
    ensures
        match r {
            Some(i) => first_pos(views(segs@), w@) == Some(i as int) && i < segs@.len(),
            None => first_pos(views(segs@), w@) is None,
        },
{
    let mut i: usize = 0;
    while i < segs.len()
        invariant
            i <= segs@.len(),
            forall|j: int| 0 <= j < i ==> views(segs@)[j] != w@,
        decreases segs@.len() - i,
    {
        if chars_eq_str(segs[i].as_slice(), w) {
            proof {
                lemma_first_pos_unique(views(segs@), w@, i as int);
            }
            return Some(i);
        }
        i += 1;
    }
    None
}

/// Whether segment `i` exists and spells `w`.
fn segment_is(segs: &Vec<Vec<char>>, i: usize, w: &str) -> (r: bool)
    ensures
        r == seg_is(views(segs@), i as int, w@),
{
    if i < segs.len() {
        chars_eq_str(segs[i].as_slice(), w)
    } else {
        false
    }
}

fn me_route_exec(segs: &Vec<Vec<char>>, pos: usize) -> (r: DiscordApiRoute)
    requires
        pos < segs@.len(),
    ensures
        r@ == me_route(views(segs@), pos as int),
{
    if pos < segs.len() - 1 {
        if segment_is(segs, pos + 1, "guilds") {
            return DiscordApiRoute::CurrentUserGuilds;
        }
        if segment_is(segs, pos + 1, "channels") {
            return DiscordApiRoute::CurrentUserChannels;
        }
        if segment_is(segs, pos + 1, "relationships") {
            return DiscordApiRoute::CurrentUserRelationships;
        }
    }
    DiscordApiRoute::CurrentUser
}

fn channel_route_exec(segs: &Vec<Vec<char>>, pos: usize) -> (r: DiscordApiRoute)
    requires
        pos + 1 < segs@.len(),
    ensures
        r@ == channel_route(views(segs@), pos as int),
{
    let ghost sv = views(segs@);
    assert(segs@.len() == segs.len());
    assert(sv[pos + 1] == segs@[pos + 1]@);
    let channel_id = crate::text::string_from_chars(segs[pos + 1].as_slice());
    if pos < segs.len() - 2 && segment_is(segs, pos + 2, "messages") {
        if pos < segs.len() - 3 {
            assert(sv[pos + 3] == segs@[pos + 3]@);
            let message_id = crate::text::string_from_chars(segs[pos + 3].as_slice());
            return DiscordApiRoute::ChannelMessage(channel_id, message_id);
        }
        return DiscordApiRoute::ChannelMessages(channel_id);
    }
    DiscordApiRoute::Channel(channel_id)
}

fn guild_route_exec(segs: &Vec<Vec<char>>) -> (r: DiscordApiRoute)
    ensures
        r@ == guild_route(views(segs@)),
{
    if let Some(pos) = position_of(segs, "guilds") {
        if pos < segs.len() - 1 {
            assert(views(segs@)[pos + 1] == segs@[pos + 1]@);
            let guild_id = crate::text::string_from_chars(segs[pos + 1].as_slice());
            return DiscordApiRoute::Guild(guild_id);
        }
    }
    DiscordApiRoute::Default
}

/// The route for a list of path segments.
pub fn route_from_segments(segs: &Vec<Vec<char>>) -> (r: DiscordApiRoute)
    ensures
        r@ == route_of_segments(views(segs@)),
{
    if let Some(pos) = position_of(segs, "@me") {
        return me_route_exec(segs, pos);
    }
    if let Some(pos) = position_of(segs, "channels") {
        if pos < segs.len() - 1 {
            return channel_route_exec(segs, pos);
        }
    }
    guild_route_exec(segs)
}

/// The path of a URL as `url::Url::parse` reads it, when the text parses.
pub uninterp spec fn parsed_url_path(url: Seq<char>) -> Option<Seq<char>>;

/// `url::Url::parse(url)` followed by `Url::path`: the percent-encoded path
/// of the URL, or nothing when the text is not an absolute URL. The contract
/// names the result; it depends on the text alone.
#[verifier::external_body]
fn url_path(url: &str) -> (r: Option<String>)
    ensures
        r is Some == parsed_url_path(url@) is Some,
        r is Some ==> r.unwrap()@ == parsed_url_path(url@).unwrap(),
{
    url::Url::parse(url).ok().map(|u| u.path().to_string())
}

/// The route that a URL with this (parsed) path falls under.
pub open spec fn route_of_url(path: Option<Seq<char>>) -> RouteView {
    match path {
        Some(p) => route_of_segments(path_segments(p)),
        None => RouteView::Default,
    }
}

/// The route for a path, as `get_discord_route` computes it after parsing.
pub fn route_for_path(path: &str) -> (r: DiscordApiRoute)
    ensures
        r@ == route_of_segments(path_segments(path@)),
{
    let cs = chars_of(path);
    let segs = split_path(cs.as_slice());
    route_from_segments(&segs)
}

/// Parses a Discord API URL and returns a standardized route for rate limiting.
/// A URL that does not parse falls under the default route.
pub fn get_discord_route(url_str: &str) -> (r: DiscordApiRoute)
    ensures
        r@ == route_of_url(parsed_url_path(url_str@)),
{
    match url_path(url_str) {
        Some(p) => route_for_path(p.as_str()),
        None => DiscordApiRoute::Default,
    }
}


/// A Discord id: a non-empty run of decimal digits.
pub open spec fn snowflake(s: Seq<char>) -> bool {
    s.len() > 0 && all_digits(s)
}

/// Whether every id a route holds is a Discord id.
pub open spec fn route_ids_valid(r: RouteView) -> bool {
    match r {
        RouteView::Channel(id) => snowflake(id),
        RouteView::ChannelMessages(id) => snowflake(id),
        RouteView::ChannelMessage(c, m) => snowflake(c) && snowflake(m),
        RouteView::Guild(id) => snowflake(id),
        _ => true,
    }
}

/// The path of the versioned API URL of a route's text.
pub open spec fn api_path_of(r: RouteView) -> Seq<char> {
    "/api/v9/"@ + route_key(r)
}

/// The path `/w0/w1/...` of some segments.
pub open spec fn join_path(ws: Seq<Seq<char>>) -> Seq<char>
    decreases ws.len(),
{
    if ws.len() == 0 {
        Seq::empty()
    } else {
        join_path(ws.drop_last()) + seq!['/'] + ws.last()
    }
}

/// A segment: non-empty and without `/`.
pub open spec fn plain_segment(w: Seq<char>) -> bool {
    w.len() > 0 && forall|i: int| 0 <= i < w.len() ==> w[i] != '/'
}

proof fn lemma_segments_word(w: Seq<char>, cur: Seq<char>)
    requires
        forall|i: int| 0 <= i < w.len() ==> w[i] != '/',
    ensures
        segments_from(w, cur) == flush(cur + w),
    decreases w.len(),
{
    if w.len() == 0 {
        assert(cur + w =~= cur);
    } else {
        assert(w[0] != '/');
        assert forall|i: int| 0 <= i < w.drop_first().len() implies w.drop_first()[i] != '/' by {
            assert(w.drop_first()[i] == w[i + 1]);
        }
        lemma_segments_word(w.drop_first(), cur.push(w[0]));
        assert(cur.push(w[0]) + w.drop_first() =~= cur + w);
    }
}

proof fn lemma_segments_split(s1: Seq<char>, s2: Seq<char>, cur: Seq<char>)
    ensures
        segments_from(s1 + seq!['/'] + s2, cur) == segments_from(s1, cur) + segments_from(s2, Seq::empty()),
    decreases s1.len(),
{
    let whole = s1 + seq!['/'] + s2;
    if s1.len() == 0 {
        assert(whole[0] == '/');
        assert(whole.drop_first() =~= s2);
    } else {
        assert(whole[0] == s1[0]);
        assert(whole.drop_first() =~= s1.drop_first() + seq!['/'] + s2);
        if s1[0] == '/' {
            lemma_segments_split(s1.drop_first(), s2, Seq::empty());
            assert(flush(cur) + (segments_from(s1.drop_first(), Seq::empty()) + segments_from(s2, Seq::empty()))
                =~= (flush(cur) + segments_from(s1.drop_first(), Seq::empty())) + segments_from(s2, Seq::empty()));
        } else {
            lemma_segments_split(s1.drop_first(), s2, cur.push(s1[0]));
        }
    }
}

proof fn lemma_join_path_segments(ws: Seq<Seq<char>>)
    requires
        forall|i: int| 0 <= i < ws.len() ==> plain_segment(#[trigger] ws[i]),
    ensures
        path_segments(join_path(ws)) == ws,
    decreases ws.len(),
{
    if ws.len() > 0 {
        let init = ws.drop_last();
        assert forall|i: int| 0 <= i < init.len() implies plain_segment(#[trigger] init[i]) by {
            assert(init[i] == ws[i]);
        }
        lemma_join_path_segments(init);
        lemma_segments_split(join_path(init), ws.last(), Seq::empty());
        assert(plain_segment(ws[ws.len() - 1]));
        lemma_segments_word(ws.last(), Seq::empty());
        assert(Seq::<char>::empty() + ws.last() =~= ws.last());
        assert(init + seq![ws.last()] =~= ws);
    }
}

proof fn lemma_first_pos_none(segs: Seq<Seq<char>>, w: Seq<char>)
    requires
        forall|i: int| 0 <= i < segs.len() ==> segs[i] != w,
    ensures
        first_pos(segs, w) is None,
{
}

/// A Discord id differs from every word of a path that starts with a non-digit.
proof fn lemma_snowflake_not_word(id: Seq<char>, w: Seq<char>)
    requires
        snowflake(id),
        w.len() > 0,
        !('0' <= w[0] && w[0] <= '9'),
    ensures
        id != w,
{
    assert(crate::text::is_digit(id[0]));
}

proof fn lemma_snowflake_plain(id: Seq<char>)
    requires
        snowflake(id),
    ensures
        plain_segment(id),
{
    assert forall|i: int| 0 <= i < id.len() implies id[i] != '/' by {
        assert(crate::text::is_digit(id[i]));
    }
}

proof fn lemma_plain_literals()
    ensures
        plain_segment("api"@),
        plain_segment("v9"@),
        plain_segment("users"@),
        plain_segment("@me"@),
        plain_segment("guilds"@),
        plain_segment("channels"@),
        plain_segment("relationships"@),
        plain_segment("messages"@),
        plain_segment("default"@),
{
    reveal_strlit("api");
    reveal_strlit("v9");
    reveal_strlit("users");
    reveal_strlit("@me");
    reveal_strlit("guilds");
    reveal_strlit("channels");
    reveal_strlit("relationships");
    reveal_strlit("messages");
    reveal_strlit("default");
}

/// The segments of the API path of a route.
pub open spec fn route_words(r: RouteView) -> Seq<Seq<char>> {
    match r {
        RouteView::Default => seq!["api"@, "v9"@, "default"@],
        RouteView::CurrentUser => seq!["api"@, "v9"@, "users"@, "@me"@],
        RouteView::CurrentUserGuilds => seq!["api"@, "v9"@, "users"@, "@me"@, "guilds"@],
        RouteView::CurrentUserChannels => seq!["api"@, "v9"@, "users"@, "@me"@, "channels"@],
        RouteView::CurrentUserRelationships => seq!["api"@, "v9"@, "users"@, "@me"@, "relationships"@],
        RouteView::Channel(id) => seq!["api"@, "v9"@, "channels"@, id],
        RouteView::ChannelMessages(id) => seq!["api"@, "v9"@, "channels"@, id, "messages"@],
        RouteView::ChannelMessage(c, m) => seq!["api"@, "v9"@, "channels"@, c, "messages"@, m],
        RouteView::Guild(id) => seq!["api"@, "v9"@, "guilds"@, id],
    }
}

#[verifier::spinoff_prover]
#[verifier::rlimit(50)]
proof fn lemma_route_path_words(r: RouteView)
    requires
        route_ids_valid(r),
    ensures
        api_path_of(r) == join_path(route_words(r)),
        forall|i: int| 0 <= i < route_words(r).len() ==> plain_segment(#[trigger] route_words(r)[i]),
{
    reveal_strlit("/api/v9/");
    reveal_strlit("api");
    reveal_strlit("v9");
    reveal_strlit("users");
    reveal_strlit("@me");
    reveal_strlit("guilds");
    reveal_strlit("channels");
    reveal_strlit("relationships");
    reveal_strlit("messages");
    reveal_strlit("default");
    reveal_strlit("users/@me");
    reveal_strlit("users/@me/guilds");
    reveal_strlit("users/@me/channels");
    reveal_strlit("users/@me/relationships");
    reveal_strlit("channels/");
    reveal_strlit("/messages");
    reveal_strlit("/messages/");
    reveal_strlit("guilds/");
    lemma_plain_literals();
    reveal_with_fuel(join_path, 7);
    match r {
        RouteView::Channel(id) => lemma_snowflake_plain(id),
        RouteView::ChannelMessages(id) => lemma_snowflake_plain(id),
        RouteView::ChannelMessage(c, m) => {
            lemma_snowflake_plain(c);
            lemma_snowflake_plain(m);
        },
        RouteView::Guild(id) => lemma_snowflake_plain(id),
        _ => {},
    }
    assert(api_path_of(r) =~= join_path(route_words(r)));
}

proof fn lemma_words_distinct()
    ensures
        "api"@ != "@me"@,
        "v9"@ != "@me"@,
        "users"@ != "@me"@,
        "default"@ != "@me"@,
        "channels"@ != "@me"@,
        "guilds"@ != "@me"@,
        "messages"@ != "@me"@,
        "api"@ != "channels"@,
        "v9"@ != "channels"@,
        "default"@ != "channels"@,
        "guilds"@ != "channels"@,
        "users"@ != "@me"@,
        "api"@ != "guilds"@,
        "v9"@ != "guilds"@,
        "default"@ != "guilds"@,
        "@me"@[0] == '@',
        "channels"@[0] == 'c',
        "messages"@[0] == 'm',
        "guilds"@[0] == 'g',
        "@me"@.len() > 0,
        "channels"@.len() > 0,
        "guilds"@.len() > 0,
{
    reveal_strlit("api");
    reveal_strlit("v9");
    reveal_strlit("users");
    reveal_strlit("@me");
    reveal_strlit("guilds");
    reveal_strlit("channels");
    reveal_strlit("messages");
    reveal_strlit("default");
    assert("api"@.len() != "channels"@.len());
    assert("v9"@.len() != "channels"@.len());
    assert("default"@.len() != "channels"@.len());
    assert("guilds"@.len() != "channels"@.len());
    assert("v9"@.len() != "@me"@.len());
    assert("users"@.len() != "@me"@.len());
    assert("default"@.len() != "@me"@.len());
    assert("channels"@.len() != "@me"@.len());
    assert("guilds"@.len() != "@me"@.len());
    assert("messages"@.len() != "@me"@.len());
    assert("api"@[0] != "@me"@[0]);
    assert("api"@.len() != "guilds"@.len());
    assert("v9"@.len() != "guilds"@.len());
    assert("default"@.len() != "guilds"@.len());
}

proof fn lemma_route_me(r: RouteView)
    requires
        r is CurrentUser || r is CurrentUserGuilds || r is CurrentUserChannels || r is CurrentUserRelationships,
    ensures
        route_of_segments(route_words(r)) == r,
{
    lemma_words_distinct();
    let segs = route_words(r);
    assert(segs[0] != "@me"@ && segs[1] != "@me"@ && segs[2] != "@me"@ && segs[3] == "@me"@);
    lemma_first_pos_unique(segs, "@me"@, 3);
    reveal_strlit("guilds");
    reveal_strlit("channels");
    reveal_strlit("relationships");
    assert("guilds"@.len() != "channels"@.len());
    assert("guilds"@.len() != "relationships"@.len());
    assert("channels"@.len() != "relationships"@.len());
}

proof fn lemma_route_default()
    ensures
        route_of_segments(route_words(RouteView::Default)) == RouteView::Default,
{
    lemma_words_distinct();
    let segs = route_words(RouteView::Default);
    assert forall|i: int| 0 <= i < segs.len() implies segs[i] != "@me"@ && segs[i] != "channels"@ && segs[i]
        != "guilds"@ by {
        if i == 0 {
        } else if i == 1 {
        } else {
        }
    }
    lemma_first_pos_none(segs, "@me"@);
    lemma_first_pos_none(segs, "channels"@);
    lemma_first_pos_none(segs, "guilds"@);
}

proof fn lemma_route_channel(r: RouteView)
    requires
        route_ids_valid(r),
        r is Channel || r is ChannelMessages || r is ChannelMessage,
    ensures
        route_of_segments(route_words(r)) == r,
{
    lemma_words_distinct();
    let segs = route_words(r);
    let id = segs[3];
    assert(snowflake(id));
    lemma_snowflake_not_word(id, "@me"@);
    if r is ChannelMessage {
        lemma_snowflake_not_word(segs[5], "@me"@);
    }
    assert forall|i: int| 0 <= i < segs.len() implies segs[i] != "@me"@ by {
        if i == 0 {
        } else if i == 1 {
        } else if i == 2 {
        } else if i == 3 {
        } else if i == 4 {
        } else {
        }
    }
    lemma_first_pos_none(segs, "@me"@);
    assert(segs[0] != "channels"@ && segs[1] != "channels"@ && segs[2] == "channels"@);
    lemma_first_pos_unique(segs, "channels"@, 2);
    reveal_strlit("messages");
    lemma_snowflake_not_word(id, "messages"@);
}

proof fn lemma_route_guild(id: Seq<char>)
    requires
        snowflake(id),
    ensures
        route_of_segments(route_words(RouteView::Guild(id))) == RouteView::Guild(id),
{
    lemma_words_distinct();
    let segs = route_words(RouteView::Guild(id));
    lemma_snowflake_not_word(id, "@me"@);
    lemma_snowflake_not_word(id, "channels"@);
    assert forall|i: int| 0 <= i < segs.len() implies segs[i] != "@me"@ && segs[i] != "channels"@ by {
        if i == 0 {
        } else if i == 1 {
        } else if i == 2 {
        } else {
        }
    }
    lemma_first_pos_none(segs, "@me"@);
    lemma_first_pos_none(segs, "channels"@);
    assert(segs[0] != "guilds"@ && segs[1] != "guilds"@ && segs[2] == "guilds"@);
    lemma_first_pos_unique(segs, "guilds"@, 2);
}

proof fn lemma_route_of_words(r: RouteView)
    requires
        route_ids_valid(r),
    ensures
        route_of_segments(route_words(r)) == r,
{
    match r {
        RouteView::Default => lemma_route_default(),
        RouteView::Guild(id) => lemma_route_guild(id),
        RouteView::Channel(_) | RouteView::ChannelMessages(_) | RouteView::ChannelMessage(_, _) => lemma_route_channel(r),
        _ => lemma_route_me(r),
    }
}

/// Reading back the text of a route: the API URL path of a route's text
/// (`/api/v9/` followed by `to_string`) falls under that same route, for
/// every route whose ids are Discord ids. `get_discord_route` reads a URL
/// by its parsed path, so a URL whose path is this one gives the route back.
pub proof fn lemma_route_round_trip(r: RouteView)
    requires
        route_ids_valid(r),
    ensures
        route_of_segments(path_segments(api_path_of(r))) == r,
{
    lemma_route_path_words(r);
    lemma_join_path_segments(route_words(r));
    lemma_route_of_words(r);
}

} // verus!
