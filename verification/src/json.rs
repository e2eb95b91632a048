//! A plain model of the JSON documents that the Discord API sends back, with
//! the accessors that the library's logic reads them through. Indexing an
//! object by a missing key, or indexing something that is not an object,
//! yields nothing, as `value["key"]` yields `null`.
use vstd::prelude::*;
use crate::text::chars_of;

verus! {

/// A JSON number: a non-negative integer, a negative integer, or any other
/// number, kept as its text.
pub enum JsonNumber {
    PosInt(u64),
    NegInt(i64),
    Float(String),
}

/// A JSON value. Object entries keep their order; a key is looked up at its
/// first occurrence.
pub enum JsonValue {
    Null,
    Bool(bool),
    Number(JsonNumber),
    Str(String),
    Array(Vec<JsonValue>),
    Object(Vec<(String, JsonValue)>),
}

/// The index of the first entry of `entries` whose key is `key`.
pub open spec fn key_index(entries: Seq<(String, JsonValue)>, key: Seq<char>) -> Option<int> {
    if exists|i: int| 0 <= i < entries.len() && (#[trigger] entries[i]).0@ == key {
        Some(
            choose|i: int|
                0 <= i < entries.len() && (#[trigger] entries[i]).0@ == key && forall|j: int|
                    0 <= j < i ==> (#[trigger] entries[j]).0@ != key,
        )
    } else {
        None
    }
}

/// `v[key]`: the value under `key` when `v` is an object that has it.
pub open spec fn field(v: JsonValue, key: Seq<char>) -> Option<JsonValue> {
    match v {
        JsonValue::Object(entries) => match key_index(entries@, key) {
            Some(i) => Some(entries@[i].1),
            None => None,
        },
        _ => None,
    }
}

/// `v.as_str()`.
pub open spec fn str_of(v: Option<JsonValue>) -> Option<Seq<char>> {
    match v {
        Some(JsonValue::Str(s)) => Some(s@),
        _ => None,
    }
}

/// `v.as_u64()`.
pub open spec fn u64_of(v: Option<JsonValue>) -> Option<u64> {
    match v {
        Some(JsonValue::Number(JsonNumber::PosInt(n))) => Some(n),
        _ => None,
    }
}

/// `v.as_array()`.
pub open spec fn array_of(v: Option<JsonValue>) -> Option<Seq<JsonValue>> {
    match v {
        Some(JsonValue::Array(items)) => Some(items@),
        _ => None,
    }
}

/// `v[k1][k2]`.
pub open spec fn field2(v: JsonValue, k1: Seq<char>, k2: Seq<char>) -> Option<JsonValue> {
    match field(v, k1) {
        Some(inner) => field(inner, k2),
        None => None,
    }
}

/// The first entry under a key is where the lookup of the key lands.
pub proof fn lemma_key_index_unique(entries: Seq<(String, JsonValue)>, key: Seq<char>, i: int)
    requires
        0 <= i < entries.len(),
        entries[i].0@ == key,
        forall|j: int| 0 <= j < i ==> (#[trigger] entries[j]).0@ != key,
    ensures
        key_index(entries, key) == Some(i),
{
    assert(exists|i: int| 0 <= i < entries.len() && (#[trigger] entries[i]).0@ == key);
    let k = choose|k: int|
        0 <= k < entries.len() && (#[trigger] entries[k]).0@ == key && forall|j: int|
            0 <= j < k ==> (#[trigger] entries[j]).0@ != key;
    assert(exists|k: int|
        0 <= k < entries.len() && (#[trigger] entries[k]).0@ == key && forall|j: int|
            0 <= j < k ==> (#[trigger] entries[j]).0@ != key);
    if k < i {
        assert(entries[k].0@ != key);
    } else if i < k {
        assert(entries[i].0@ != key);
    }
}

impl JsonValue {
    /// `self[key]`, as a reference, when present.
    pub fn get(&self, key: &str) -> (r: Option<&JsonValue>)
        ensures
            r is Some == field(*self, key@) is Some,
            r is Some ==> *r.unwrap() == field(*self, key@).unwrap(),
    {
        match self {
            JsonValue::Object(entries) => {
                let k = String::from_str(key);
                let mut i: usize = 0;
                while i < entries.len()
                    invariant
                        i <= entries@.len(),
                        *self == JsonValue::Object(*entries),
                        k@ == key@,
                        forall|j: int| 0 <= j < i ==> (#[trigger] entries@[j]).0@ != key@,
                    decreases entries@.len() - i,
                {
                    if entries[i].0 == k {
                        proof {
                            lemma_key_index_unique(entries@, key@, i as int);
                        }
                        return Some(&entries[i].1);
                    }
                    i += 1;
                }
                None
            },
            _ => None,
        }
    }

    /// The value with `key` set to `val`, as inserting into a JSON object
    /// does: the first entry under `key` gets the new value, or a new entry
    /// is added at the end. A value that is not an object is left as it is.
    pub fn with_field(self, key: &str, val: JsonValue) -> (r: JsonValue)
        ensures
            match self {
                JsonValue::Object(entries) => r matches JsonValue::Object(out) && match key_index(
                    entries@,
                    key@,
                ) {
                    Some(k) => out@ == entries@.update(k, (entries@[k].0, val)),
                    None => out@.len() == entries@.len() + 1 && out@.take(entries@.len() as int)
                        == entries@ && out@.last().0@ == key@ && out@.last().1 == val,
                },
                _ => r == self,
            },
            self is Object ==> field(r, key@) == Some(val),
    {
        match self {
            JsonValue::Object(entries) => {
                let ghost entries_at_start = entries;
                let mut entries = entries;
                let ghost orig = entries@;
                let k = String::from_str(key);
                let mut i: usize = 0;
                while i < entries.len()
                    invariant
                        i <= entries@.len(),
                        entries@ == orig,
                        self == JsonValue::Object(entries_at_start),
                        entries_at_start@ == orig,
                        k@ == key@,
                        forall|j: int| 0 <= j < i ==> (#[trigger] entries@[j]).0@ != key@,
                    decreases entries@.len() - i,
                {
                    if entries[i].0 == k {
                        proof {
                            lemma_key_index_unique(entries@, key@, i as int);
                        }
                        let name = entries[i].0.clone();
                        assert(name == orig[i as int].0);
                        let ghost v2 = val;
                        entries.set(i, (name, val));
                        proof {
                            lemma_key_index_unique(entries@, key@, i as int);
                            assert(key_index(orig, key@) == Some(i as int));
                            assert(entries@ == orig.update(i as int, (orig[i as int].0, v2)));
                        }
                        return JsonValue::Object(entries);
                    }
                    i += 1;
                }
                entries.push((k, val));
                proof {
                    lemma_key_index_unique(entries@, key@, i as int);
                    assert(entries@.take(orig.len() as int) == orig);
                }
                JsonValue::Object(entries)
            },
            other => other,
        }
    }

    /// `self.as_str()`.
    pub fn as_str(&self) -> (r: Option<&str>)
        ensures
            r is Some == str_of(Some(*self)) is Some,
            r is Some ==> r.unwrap()@ == str_of(Some(*self)).unwrap(),
    {
        match self {
            JsonValue::Str(s) => Some(s.as_str()),
            _ => None,
        }
    }

    /// `self.as_u64()`.
    pub fn as_u64(&self) -> (r: Option<u64>)
        ensures
            r == u64_of(Some(*self)),
    {
        match self {
            JsonValue::Number(JsonNumber::PosInt(n)) => Some(*n),
            _ => None,
        }
    }

    /// `self.as_array()`.
    pub fn as_array(&self) -> (r: Option<&Vec<JsonValue>>)
        ensures
            r is Some == array_of(Some(*self)) is Some,
            r is Some ==> r.unwrap()@ == array_of(Some(*self)).unwrap(),
    {
        match self {
            JsonValue::Array(items) => Some(items),
            _ => None,
        }
    }
}

/// `v[key].as_str()`, as characters.
pub fn field_str(v: &JsonValue, key: &str) -> (r: Option<Vec<char>>)
    ensures
        r is Some == str_of(field(*v, key@)) is Some,
        r is Some ==> r.unwrap()@ == str_of(field(*v, key@)).unwrap(),
{
    match v.get(key) {
        Some(f) => match f.as_str() {
            Some(s) => Some(chars_of(s)),
            None => None,
        },
        None => None,
    }
}

/// `v[k1][k2].as_str()`, as characters.
pub fn field2_str(v: &JsonValue, k1: &str, k2: &str) -> (r: Option<Vec<char>>)
    ensures
        r is Some == str_of(field2(*v, k1@, k2@)) is Some,
        r is Some ==> r.unwrap()@ == str_of(field2(*v, k1@, k2@)).unwrap(),
{
    match v.get(k1) {
        Some(inner) => field_str(inner, k2),
        None => None,
    }
}

/// `v[key].as_u64()`.
pub fn field_u64(v: &JsonValue, key: &str) -> (r: Option<u64>)
    ensures
        r == u64_of(field(*v, key@)),
{
    match v.get(key) {
        Some(f) => f.as_u64(),
        None => None,
    }
}

/// The string under `key`, or `default` when there is none:
/// `v[key].as_str().unwrap_or(default)`.
pub open spec fn str_or(v: JsonValue, key: Seq<char>, default: Seq<char>) -> Seq<char> {
    match str_of(field(v, key)) {
        Some(s) => s,
        None => default,
    }
}

/// `v[key].as_str().unwrap_or(default)`, as characters.
pub fn field_str_or(v: &JsonValue, key: &str, default: &str) -> (r: Vec<char>)
    ensures
        r@ == str_or(*v, key@, default@),
{
    match field_str(v, key) {
        Some(s) => s,
        None => chars_of(default),
    }
}

} // verus!
