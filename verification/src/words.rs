//! Trimming and splitting text as `str::trim`, `str::trim_start_matches`,
//! `str::trim_matches`, `str::split_whitespace` and `str::to_ascii_lowercase`
//! do, stated over character sequences.
use vstd::prelude::*;
use crate::text::{has_prefix, string_from_chars};

verus! {

/// `char::is_whitespace`: the Unicode `White_Space` property.
pub open spec fn is_white_space(c: char) -> bool {
    let n = c as u32;
    (0x9 <= n <= 0xd) || n == 0x20 || n == 0x85 || n == 0xa0 || n == 0x1680 || (0x2000 <= n
        <= 0x200a) || n == 0x2028 || n == 0x2029 || n == 0x202f || n == 0x205f || n == 0x3000
}

/// What a trim removes: white space, or one given character.
pub enum Trimmed {
    WhiteSpace,
    Char(char),
}

/// Whether a trim removes a character.
pub open spec fn trims(t: Trimmed, c: char) -> bool {
    match t {
        Trimmed::WhiteSpace => is_white_space(c),
        Trimmed::Char(x) => c == x,
    }
}

/// The text with the leading characters that `t` removes taken off.
pub open spec fn trim_start_of(s: Seq<char>, t: Trimmed) -> Seq<char>
    decreases s.len(),
{
    if s.len() > 0 && trims(t, s[0]) {
        trim_start_of(s.drop_first(), t)
    } else {
        s
    }
}

/// The text with the trailing characters that `t` removes taken off.
pub open spec fn trim_end_of(s: Seq<char>, t: Trimmed) -> Seq<char>
    decreases s.len(),
{
    if s.len() > 0 && trims(t, s.last()) {
        trim_end_of(s.drop_last(), t)
    } else {
        s
    }
}

/// The text with the characters that `t` removes taken off both ends.
pub open spec fn trim_of(s: Seq<char>, t: Trimmed) -> Seq<char> {
    trim_end_of(trim_start_of(s, t), t)
}

fn trimmed_by(t: &Trimmed, c: char) -> (r: bool)
    ensures
        r == trims(*t, c),
{
    match t {
        Trimmed::WhiteSpace => {
            let n = c as u32;
            (0x9 <= n && n <= 0xd) || n == 0x20 || n == 0x85 || n == 0xa0 || n == 0x1680 || (0x2000
                <= n && n <= 0x200a) || n == 0x2028 || n == 0x2029 || n == 0x202f || n == 0x205f
                || n == 0x3000
        },
        Trimmed::Char(x) => c == *x,
    }
}

/// The characters of `s` from `a` to `b`.
fn copy_range(s: &[char], a: usize, b: usize) -> (r: Vec<char>)
    requires
        a <= b <= s@.len(),
    ensures
        r@ == s@.subrange(a as int, b as int),
{
    let mut r: Vec<char> = Vec::new();
    let mut i: usize = a;
    while i < b
        invariant
            a <= i <= b <= s@.len(),
            r@ == s@.subrange(a as int, i as int),
        decreases b - i,
    {
        r.push(s[i]);
        assert(s@.subrange(a as int, i as int).push(s@[i as int]) == s@.subrange(a as int, i + 1));
        i += 1;
    }
    r
}

/// The index of the first character of `s` from `from` on that `t` does not
/// remove (the length when there is none).
fn start_after_trimmed(s: &[char], from: usize, t: &Trimmed) -> (i: usize)
    requires
        from <= s@.len(),
    ensures
        from <= i <= s@.len(),
        trim_start_of(s@.subrange(from as int, s@.len() as int), *t) == s@.subrange(
            i as int,
            s@.len() as int,
        ),
        i < s@.len() ==> !trims(*t, s@[i as int]),
        forall|j: int| from <= j < i ==> trims(*t, s@[j]),
{
    let mut i = from;
    while i < s.len() && trimmed_by(t, s[i])
        invariant
            from <= i <= s@.len(),
            trim_start_of(s@.subrange(from as int, s@.len() as int), *t) == trim_start_of(
                s@.subrange(i as int, s@.len() as int),
                *t,
            ),
            forall|j: int| from <= j < i ==> trims(*t, s@[j]),
        decreases s@.len() - i,
    {
        assert(s@.subrange(i as int, s@.len() as int).drop_first() == s@.subrange(
            i + 1,
            s@.len() as int,
        ));
        i += 1;
    }
    i
}

/// `trim`, `trim_start_matches(char)`, `trim_matches(char)` and friends: the
/// text with what `t` removes taken off both ends.
pub fn trim_chars(s: &[char], t: Trimmed) -> (r: Vec<char>)
    ensures
        r@ == trim_of(s@, t),
{
    assert(s@.subrange(0, s@.len() as int) == s@);
    let a = start_after_trimmed(s, 0, &t);
    let mut b = s.len();
    while b > a && trimmed_by(&t, s[b - 1])
        invariant
            a <= b <= s@.len(),
            trim_end_of(s@.subrange(a as int, s@.len() as int), t) == trim_end_of(
                s@.subrange(a as int, b as int),
                t,
            ),
        decreases b,
    {
        assert(s@.subrange(a as int, b as int).drop_last() == s@.subrange(a as int, b - 1));
        b -= 1;
    }
    copy_range(s, a, b)
}

/// `str::trim`: the text without leading and trailing white space.
pub fn trim_white_space(s: &str) -> (r: String)
    ensures
        r@ == trim_of(s@, Trimmed::WhiteSpace),
{
    let cs = crate::text::chars_of(s);
    let t = trim_chars(cs.as_slice(), Trimmed::WhiteSpace);
    string_from_chars(t.as_slice())
}

/// `str::trim_start_matches(p)` for a non-empty `p`: the text with every
/// leading repetition of `p` taken off.
pub open spec fn strip_prefix_all(s: Seq<char>, p: Seq<char>) -> Seq<char>
    decreases s.len(),
{
    if p.len() > 0 && has_prefix(s, p) {
        strip_prefix_all(s.skip(p.len() as int), p)
    } else {
        s
    }
}

fn prefix_at(s: &[char], i: usize, p: &[char]) -> (r: bool)
    requires
        i <= s@.len(),
    ensures
        r == has_prefix(s@.subrange(i as int, s@.len() as int), p@),
{
    if p.len() > s.len() - i {
        return false;
    }
    let mut k: usize = 0;
    while k < p.len()
        invariant
            k <= p@.len(),
            i + p@.len() <= s.len(),
            forall|j: int| 0 <= j < k ==> s@[i + j] == p@[j],
        decreases p@.len() - k,
    {
        if s[i + k] != p[k] {
            assert(s@.subrange(i as int, s@.len() as int)[k as int] == s@[i + k]);
            return false;
        }
        k += 1;
    }
    assert(s@.subrange(i as int, s@.len() as int).take(p@.len() as int) =~= p@);
    true
}

/// The text with every leading repetition of `p` taken off (the text itself
/// when `p` is empty).
pub fn strip_prefix_repeated(s: &[char], p: &[char]) -> (r: Vec<char>)
    ensures
        r@ == strip_prefix_all(s@, p@),
{
    let mut i: usize = 0;
    assert(s@.subrange(0, s@.len() as int) == s@);
    if p.len() == 0 {
        return copy_range(s, 0, s.len());
    }
    while prefix_at(s, i, p)
        invariant
            i <= s@.len(),
            p@.len() > 0,
            strip_prefix_all(s@, p@) == strip_prefix_all(s@.subrange(i as int, s@.len() as int), p@),
        decreases s@.len() - i,
    {
        assert(s@.subrange(i as int, s@.len() as int).skip(p@.len() as int) == s@.subrange(
            i + p@.len(),
            s@.len() as int,
        ));
        assert(i + p@.len() <= s.len());
        i += p.len();
    }
    copy_range(s, i, s.len())
}

/// The number of leading characters of `s` that are not white space.
pub open spec fn word_len(s: Seq<char>) -> nat
    decreases s.len(),
{
    if s.len() > 0 && !is_white_space(s[0]) {
        1 + word_len(s.drop_first())
    } else {
        0
    }
}

/// The words of `s` from the `n`-th on, as `split_whitespace().nth(n)` finds
/// the `n`-th: none when there are not that many.
pub open spec fn nth_word(s: Seq<char>, n: nat) -> Option<Seq<char>>
    decreases s.len(),
{
    let a = trim_start_of(s, Trimmed::WhiteSpace);
    if a.len() == 0 {
        None
    } else if n == 0 {
        Some(a.take(word_len(a) as int))
    } else {
        proof {
            lemma_trim_start_len(s, Trimmed::WhiteSpace);
            lemma_word_len_bound(a);
        }
        nth_word(a.skip(word_len(a) as int), (n - 1) as nat)
    }
}

/// Trimming the start never lengthens a text, and what is left starts with
/// a character that the trim keeps.
pub proof fn lemma_trim_start_len(s: Seq<char>, t: Trimmed)
    ensures
        trim_start_of(s, t).len() <= s.len(),
        trim_start_of(s, t).len() > 0 ==> !trims(t, trim_start_of(s, t)[0]),
    decreases s.len(),
{
    if s.len() > 0 && trims(t, s[0]) {
        lemma_trim_start_len(s.drop_first(), t);
    }
}

/// A word is no longer than the text it starts, and at least one character
/// long when the text starts with one that is not white space.
pub proof fn lemma_word_len_bound(a: Seq<char>)
    ensures
        word_len(a) <= a.len(),
        a.len() > 0 && !is_white_space(a[0]) ==> word_len(a) >= 1,
    decreases a.len(),
{
    if a.len() > 0 && !is_white_space(a[0]) {
        lemma_word_len_bound(a.drop_first());
    }
}

/// The index where the word starting at `from` ends.
fn word_end(s: &[char], from: usize) -> (i: usize)
    requires
        from <= s@.len(),
    ensures
        from <= i <= s@.len(),
        word_len(s@.subrange(from as int, s@.len() as int)) == i - from,
{
    let mut i = from;
    while i < s.len() && !trimmed_by(&Trimmed::WhiteSpace, s[i])
        invariant
            from <= i <= s@.len(),
            word_len(s@.subrange(from as int, s@.len() as int)) == (i - from) + word_len(
                s@.subrange(i as int, s@.len() as int),
            ),
        decreases s@.len() - i,
    {
        assert(s@.subrange(i as int, s@.len() as int).drop_first() == s@.subrange(
            i + 1,
            s@.len() as int,
        ));
        i += 1;
    }
    i
}

/// `split_whitespace().nth(1)`: the second word of the text, if any.
pub fn second_word(s: &[char]) -> (r: Option<Vec<char>>)
    ensures
        match r {
            Some(w) => nth_word(s@, 1) == Some(w@),
            None => nth_word(s@, 1) is None,
        },
{
    let ghost full = s@;
    assert(s@.subrange(0, s@.len() as int) == s@);
    let a = start_after_trimmed(s, 0, &Trimmed::WhiteSpace);
    if a == s.len() {
        return None;
    }
    let b = word_end(s, a);
    let ghost ta = s@.subrange(a as int, s@.len() as int);
    let ghost rest = s@.subrange(b as int, s@.len() as int);
    proof {
        assert(ta == trim_start_of(s@, Trimmed::WhiteSpace));
        assert(ta.skip((b - a) as int) == rest);
        reveal_with_fuel(nth_word, 2);
        assert(nth_word(s@, 1) == nth_word(rest, 0));
    }
    let c = start_after_trimmed(s, b, &Trimmed::WhiteSpace);
    if c == s.len() {
        proof {
            assert(trim_start_of(rest, Trimmed::WhiteSpace).len() == 0);
        }
        return None;
    }
    let d = word_end(s, c);
    proof {
        let tc = s@.subrange(c as int, s@.len() as int);
        assert(trim_start_of(rest, Trimmed::WhiteSpace) == tc);
        assert(tc.take((d - c) as int) == s@.subrange(c as int, d as int));
    }
    Some(copy_range(s, c, d))
}

/// `to_ascii_lowercase` of one character.
pub open spec fn ascii_lower_char(c: char) -> char {
    if 'A' <= c <= 'Z' {
        ((c as u32) + 32) as char
    } else {
        c
    }
}

/// `str::to_ascii_lowercase`: ASCII capitals made small, the rest kept.
pub open spec fn ascii_lower(s: Seq<char>) -> Seq<char> {
    s.map_values(|c: char| ascii_lower_char(c))
}

/// `str::to_ascii_lowercase`.
pub fn to_ascii_lower(s: &str) -> (r: String)
    ensures
        r@ == ascii_lower(s@),
{
    let cs = crate::text::chars_of(s);
    let mut out: Vec<char> = Vec::new();
    let mut i: usize = 0;
    while i < cs.len()
        invariant
            i <= cs@.len(),
            cs@ == s@,
            out@ == ascii_lower(cs@.take(i as int)),
        decreases cs@.len() - i,
    {
        let c = cs[i];
        let l = if 'A' <= c && c <= 'Z' {
            ((c as u32) + 32) as u8 as char
        } else {
            c
        };
        out.push(l);
        assert(ascii_lower(cs@.take(i + 1)) =~= ascii_lower(cs@.take(i as int)).push(
            ascii_lower_char(c),
        ));
        i += 1;
    }
    assert(cs@.take(cs@.len() as int) == cs@);
    string_from_chars(out.as_slice())
}

} // verus!
