//! Discovery in a Discord data package: the channels, guilds and
//! relationships that the package's entries name, each listed once.
use vstd::prelude::*;
use crate::json::{JsonValue, array_of, field_str};
use crate::text::{chars_of, starts_with_chars, ends_with_chars, chars_eq_str, prefix_before_from, string_from_chars, has_prefix, has_suffix, before_first};
use crate::purge::ids_in_batch;
use crate::text::string_views;

verus! {

/// What a data package lists: channel, guild and user ids, each once, in the
/// order they were first met.
pub struct GdprDiscovery {
    pub channel_ids: Vec<String>,
    pub guild_ids: Vec<String>,
    pub user_ids: Vec<String>,
}

/// What an entry of the package is to the discovery.
pub enum PackageEntry {
    /// `messages/c{id}/messages.csv`: the messages of channel `id`.
    ChannelMessages(String),
    /// `servers/index.json`: the guilds.
    ServerIndex,
    /// `relationships/index.json`: the relationships.
    RelationshipIndex,
    /// Any other entry.
    Other,
}

/// The channel id of a `messages/c{id}/messages.csv` entry: the text after
/// `messages/c` up to the next `/`.
pub open spec fn channel_id_of_entry(name: Seq<char>) -> Option<Seq<char>> {
    if has_prefix(name, "messages/c"@) && has_suffix(name, "/messages.csv"@) {
        Some(before_first(name.subrange(10, name.len() as int), '/'))
    } else {
        None
    }
}

/// What an entry of the package is, by its name.
pub open spec fn entry_kind_matches(name: Seq<char>, e: PackageEntry) -> bool {
    match channel_id_of_entry(name) {
        Some(id) => e matches PackageEntry::ChannelMessages(got) && got@ == id,
        None => if name == "servers/index.json"@ {
            e is ServerIndex
        } else if name == "relationships/index.json"@ {
            e is RelationshipIndex
        } else {
            e is Other
        },
    }
}

/// What an entry of the package is, by its name.
pub fn classify_entry(name: &str) -> (r: PackageEntry)
    ensures
        entry_kind_matches(name@, r),
{
    let cs = chars_of(name);
    let prefix = chars_of("messages/c");
    let suffix = chars_of("/messages.csv");
    proof {
        reveal_strlit("messages/c");
    }
    if starts_with_chars(cs.as_slice(), prefix.as_slice()) && ends_with_chars(
        cs.as_slice(),
        suffix.as_slice(),
    ) {
        let id = prefix_before_from(cs.as_slice(), 10, '/');
        PackageEntry::ChannelMessages(string_from_chars(id.as_slice()))
    } else if chars_eq_str(cs.as_slice(), "servers/index.json") {
        PackageEntry::ServerIndex
    } else if chars_eq_str(cs.as_slice(), "relationships/index.json") {
        PackageEntry::RelationshipIndex
    } else {
        PackageEntry::Other
    }
}

/// Whether a list of strings holds one.
fn holds_string(v: &Vec<String>, s: &String) -> (r: bool)
    ensures
        r == string_views(v@).contains(s@),
{
    let mut i: usize = 0;
    while i < v.len()
        invariant
            i <= v@.len(),
            forall|j: int| 0 <= j < i ==> v@[j]@ != s@,
        decreases v@.len() - i,
    {
        if v[i] == *s {
            assert(string_views(v@)[i as int] == s@);
            return true;
        }
        i += 1;
    }
    assert forall|j: int| 0 <= j < string_views(v@).len() implies string_views(v@)[j] != s@ by {
        assert(string_views(v@)[j] == v@[j]@);
    }
    false
}

/// Adds a string to a list that holds each string once, unless it is there.
fn add_once(v: &mut Vec<String>, s: String)
    requires
        string_views(old(v)@).no_duplicates(),
    ensures
        string_views(final(v)@).no_duplicates(),
        string_views(old(v)@).contains(s@) ==> final(v)@ == old(v)@,
        !string_views(old(v)@).contains(s@) ==> final(v)@ == old(v)@.push(s),
{
    if !holds_string(v, &s) {
        let ghost before = string_views(v@);
        v.push(s);
        assert(string_views(v@) =~= before.push(s@));
    }
}

proof fn lemma_push_contains<A>(s: Seq<A>, y: A, x: A)
    ensures
        s.push(y).contains(x) <==> s.contains(x) || x == y,
{
    if s.contains(x) {
        let k = choose|k: int| 0 <= k < s.len() && s[k] == x;
        assert(s.push(y)[k] == x);
    }
    if x == y {
        assert(s.push(y)[s.len() as int] == x);
    }
    if s.push(y).contains(x) && x != y {
        let k = choose|k: int| 0 <= k < s.push(y).len() && s.push(y)[k] == x;
        assert(s[k] == x);
    }
}

/// A list with each id of `ids` appended, in order, unless it is there
/// already.
pub open spec fn with_all_once(v: Seq<Seq<char>>, ids: Seq<Seq<char>>) -> Seq<Seq<char>>
    decreases ids.len(),
{
    if ids.len() == 0 {
        v
    } else {
        let w = with_all_once(v, ids.drop_last());
        if w.contains(ids.last()) {
            w
        } else {
            w.push(ids.last())
        }
    }
}

/// Adds the ids of an index (an array of objects with an `id`) to a list
/// that holds each id once.
fn add_index_ids(v: &mut Vec<String>, index: &JsonValue)
    requires
        string_views(old(v)@).no_duplicates(),
    ensures
        string_views(final(v)@).no_duplicates(),
        forall|x: Seq<char>|
            string_views(final(v)@).contains(x) <==> string_views(old(v)@).contains(x)
                || index_ids(*index).contains(x),
        string_views(old(v)@).is_prefix_of(string_views(final(v)@)),
        string_views(final(v)@) == with_all_once(string_views(old(v)@), index_ids(*index)),
{
    match index.as_array() {
        Some(items) => {
            let ghost start = string_views(v@);
            let mut i: usize = 0;
            assert(items@.take(0) == Seq::<JsonValue>::empty());
            while i < items.len()
                invariant
                    i <= items@.len(),
                    string_views(v@).no_duplicates(),
                    start.is_prefix_of(string_views(v@)),
                    string_views(v@) == with_all_once(start, ids_in_batch(items@.take(i as int))),
                    forall|x: Seq<char>|
                        string_views(v@).contains(x) <==> start.contains(x) || ids_in_batch(
                            items@.take(i as int),
                        ).contains(x),
                decreases items@.len() - i,
            {
                proof {
                    assert(items@.take(i + 1).drop_last() == items@.take(i as int));
                    assert(items@.take(i + 1).last() == items@[i as int]);
                }
                let ghost before = string_views(v@);
                let ghost prev = ids_in_batch(items@.take(i as int));
                assert(forall|x: Seq<char>| before.contains(x) <==> start.contains(x) || prev.contains(x));
                match field_str(&items[i], "id") {
                    Some(id) => {
                        add_once(v, string_from_chars(id.as_slice()));
                        proof {
                            if before.contains(id@) {
                                assert(string_views(v@) == before);
                            } else {
                                assert(string_views(v@) =~= before.push(id@));
                            }
                            assert(ids_in_batch(items@.take(i + 1)) == prev.push(id@));
                            assert(prev.push(id@).drop_last() == prev);
                            assert(with_all_once(start, prev) == before);
                            assert(with_all_once(start, prev.push(id@)) == string_views(v@));
                            assert forall|x: Seq<char>|
                                string_views(v@).contains(x) <==> start.contains(x)
                                    || prev.push(id@).contains(x) by {
                                assert(before.contains(x) <==> start.contains(x) || prev.contains(x));
                                lemma_push_contains(prev, id@, x);
                                lemma_push_contains(before, id@, x);
                            }
                        }
                    },
                    None => {
                        assert(ids_in_batch(items@.take(i + 1)) == prev);
                    },
                }
                i += 1;
            }
            assert(items@.take(i as int) == items@);
            assert(index_ids(*index) == ids_in_batch(items@));
            assert(start == string_views(old(v)@));
            assert forall|x: Seq<char>| string_views(v@).contains(x) <==> string_views(old(v)@).contains(x)
                || index_ids(*index).contains(x) by {
                assert(string_views(v@).contains(x) <==> start.contains(x) || ids_in_batch(items@.take(i as int)).contains(x));
            }
        },
        None => {
            assert(index_ids(*index) == Seq::<Seq<char>>::empty());
            assert(forall|x: Seq<char>| !(#[trigger] index_ids(*index).contains(x)));
            assert(v@ == old(v)@);
            assert(with_all_once(string_views(old(v)@), index_ids(*index)) == string_views(old(v)@));
        },
    }
}

/// The ids that an index of the package lists: those of its items that
/// have one, in order (none when it is not an array).
pub open spec fn index_ids(index: JsonValue) -> Seq<Seq<char>> {
    match array_of(Some(index)) {
        Some(items) => ids_in_batch(items),
        None => Seq::empty(),
    }
}

impl GdprDiscovery {
    /// Each id is listed once in each list.
    pub open spec fn wf(&self) -> bool {
        &&& string_views(self.channel_ids@).no_duplicates()
        &&& string_views(self.guild_ids@).no_duplicates()
        &&& string_views(self.user_ids@).no_duplicates()
    }

    /// Nothing discovered yet.
    pub fn new() -> (r: GdprDiscovery)
        ensures
            r.wf(),
            r.channel_ids@.len() == 0,
            r.guild_ids@.len() == 0,
            r.user_ids@.len() == 0,
    {
        let r = GdprDiscovery { channel_ids: Vec::new(), guild_ids: Vec::new(), user_ids: Vec::new() };
        assert(string_views(r.channel_ids@) =~= Seq::empty());
        assert(string_views(r.guild_ids@) =~= Seq::empty());
        assert(string_views(r.user_ids@) =~= Seq::empty());
        r
    }

    /// Records a channel that the package has messages of.
    pub fn record_channel(&mut self, id: String)
        requires
            old(self).wf(),
        ensures
            final(self).wf(),
            final(self).guild_ids@ == old(self).guild_ids@,
            final(self).user_ids@ == old(self).user_ids@,
            string_views(old(self).channel_ids@).contains(id@) ==> final(self).channel_ids@ == old(
                self,
            ).channel_ids@,
            !string_views(old(self).channel_ids@).contains(id@) ==> final(self).channel_ids@ == old(
                self,
            ).channel_ids@.push(id),
    {
        add_once(&mut self.channel_ids, id);
    }

    /// Records the guilds of the package's server index.
    pub fn record_servers(&mut self, index: &JsonValue)
        requires
            old(self).wf(),
        ensures
            final(self).wf(),
            final(self).channel_ids@ == old(self).channel_ids@,
            final(self).user_ids@ == old(self).user_ids@,
            string_views(old(self).guild_ids@).is_prefix_of(string_views(final(self).guild_ids@)),
            string_views(final(self).guild_ids@) == with_all_once(string_views(old(self).guild_ids@), index_ids(*index)),
            forall|x: Seq<char>|
                string_views(final(self).guild_ids@).contains(x) <==> string_views(
                    old(self).guild_ids@,
                ).contains(x) || index_ids(*index).contains(x),
    {
        add_index_ids(&mut self.guild_ids, index);
    }

    /// Records the users of the package's relationship index.
    pub fn record_relationships(&mut self, index: &JsonValue)
        requires
            old(self).wf(),
        ensures
            final(self).wf(),
            final(self).channel_ids@ == old(self).channel_ids@,
            final(self).guild_ids@ == old(self).guild_ids@,
            string_views(old(self).user_ids@).is_prefix_of(string_views(final(self).user_ids@)),
            string_views(final(self).user_ids@) == with_all_once(string_views(old(self).user_ids@), index_ids(*index)),
            forall|x: Seq<char>|
                string_views(final(self).user_ids@).contains(x) <==> string_views(
                    old(self).user_ids@,
                ).contains(x) || index_ids(*index).contains(x),
    {
        add_index_ids(&mut self.user_ids, index);
    }
}

} // verus!
