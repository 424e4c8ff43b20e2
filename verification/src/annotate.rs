//! Parser for the `annotate:key="val",key2="val2",...:path` syntax in which the
//! next track (and the local fallback file) is handed to the engine.
//!
//! A value is written between double quotes, with an embedded `"` written as
//! `\"`. That is the only escape: a backslash before any other character stands
//! for itself.

use vstd::prelude::*;

use crate::fields::TextMap;
use crate::text::{chars_of, find_char, same_text, starts_with, string_of, trimmed};

verus! {

broadcast use vstd::string::group_string_axioms;

/// The word that opens an annotated URI.
pub const ANNOTATE_PREFIX: &'static str = "annotate:";

/// The value of a quoted text that begins at `i`, just after the opening
/// quote, and the position after its closing quote, if it has one.
pub open spec fn read_quoted(s: Seq<char>, i: int) -> (Seq<char>, Option<int>)
    decreases s.len() - i,
{
    if i >= s.len() {
        (Seq::empty(), None)
    } else if s[i] == '\\' && i + 1 < s.len() && s[i + 1] == '"' {
        let (value, end) = read_quoted(s, i + 2);
        (seq!['"'] + value, end)
    } else if s[i] == '"' {
        (Seq::empty(), Some(i + 1))
    } else {
        let (value, end) = read_quoted(s, i + 1);
        (seq![s[i]] + value, end)
    }
}

/// A closing quote lies after the opening one, inside the text.
pub proof fn lemma_read_quoted_end(s: Seq<char>, i: int)
    requires
        0 <= i,
    ensures
        read_quoted(s, i).1 matches Some(end) ==> i < end <= s.len(),
    decreases s.len() - i,
{
    if i < s.len() {
        lemma_read_quoted_end(s, i + 1);
        if i + 1 < s.len() {
            lemma_read_quoted_end(s, i + 2);
        }
    }
}

/// What the pairs from position `i` on add to `values`, and the path that
/// follows them. Text that is no `key="val"` pair is the path.
pub open spec fn read_pairs(
    s: Seq<char>,
    i: int,
    values: Map<Seq<char>, Seq<char>>,
) -> (Map<Seq<char>, Seq<char>>, Seq<char>)
    decreases s.len() - i,
{
    let eq = crate::text::find_from(s, '=', i);
    if !(0 <= i <= s.len() && eq + 1 < s.len() && s[eq + 1] == '"') {
        (values, s.skip(i))
    } else {
        proof {
            crate::text::lemma_find_from(s, '=', i);
            lemma_read_quoted_end(s, eq + 2);
        }
        let (value, end) = read_quoted(s, eq + 2);
        let more = values.insert(s.subrange(i, eq), value);
        match end {
            None => (more, Seq::empty()),
            Some(e) => if e >= s.len() {
                (more, Seq::empty())
            } else if s[e] == ',' {
                read_pairs(s, e + 1, more)
            } else if s[e] == ':' {
                (more, s.skip(e + 1))
            } else {
                (more, s.skip(e))
            },
        }
    }
}

/// The annotations and the path of a URI. Without the `annotate:` prefix the
/// whole URI is the path.
pub open spec fn parsed_uri(uri: Seq<char>) -> (Map<Seq<char>, Seq<char>>, Seq<char>) {
    if crate::text::has_prefix(uri, ANNOTATE_PREFIX@) {
        read_pairs(uri.skip(ANNOTATE_PREFIX@.len() as int), 0, Map::empty())
    } else {
        (Map::empty(), uri)
    }
}

/// The parsed form of an annotated URI: zero or more `key=value` annotations,
/// and the bare path that they describe.
#[derive(Debug, Clone)]
pub struct Annotations {
    pub values: TextMap,
    pub path: String,
}

impl Annotations {
    /// The value of `key`.
    pub fn get(&self, key: &str) -> (value: Option<&str>)
        ensures
            match value {
                Some(v) => self.values@.dom().contains(key@) && v@ == self.values@[key@],
                None => !self.values@.dom().contains(key@),
            },
    {
        self.values.get(key)
    }

    /// `true` where the value of `key` is the text `true`; any other value, or
    /// none, is `false`.
    pub fn get_bool(&self, key: &str) -> (yes: bool)
        ensures
            yes == (self.values@.dom().contains(key@) && self.values@[key@] == "true"@),
    {
        match self.get(key) {
            Some(value) => same_text(value, "true"),
            None => false,
        }
    }

    /// The value of `key` without the white space around it, as a number is
    /// read from it.
    pub fn get_trimmed(&self, key: &str) -> (value: Option<String>)
        ensures
            match value {
                Some(v) => self.values@.dom().contains(key@) && v@ == crate::text::trim(
                    self.values@[key@],
                ),
                None => !self.values@.dom().contains(key@),
            },
    {
        match self.get(key) {
            Some(value) => Some(trimmed(value)),
            None => None,
        }
    }

    /// Whether there is no annotation.
    pub fn is_empty(&self) -> (empty: bool)
        ensures
            empty == (self.values@ == Map::<Seq<char>, Seq<char>>::empty()),
    {
        self.values.is_empty()
    }

    /// How many keys are annotated.
    pub fn len(&self) -> (n: usize)
        ensures
            n == self.values@.dom().len(),
            self.values@.dom().finite(),
    {
        self.values.len()
    }
}

/// Reads a quoted value from `i`, just after the opening quote: the value, the
/// position reached, and whether a closing quote was met.
fn parse_quoted(s: &Vec<char>, from: usize) -> (r: (String, usize, bool))
    requires
        from <= s@.len(),
    ensures
        r.0@ == read_quoted(s@, from as int).0,
        read_quoted(s@, from as int).1 == (if r.2 { Some(r.1 as int) } else { None }),
        r.2 ==> from < r.1 <= s@.len(),
{
    let mut value = String::new();
    let mut i: usize = from;
    while i < s.len()
        invariant
            from <= i <= s@.len(),
            read_quoted(s@, from as int).0 == value@ + read_quoted(s@, i as int).0,
            read_quoted(s@, from as int).1 == read_quoted(s@, i as int).1,
        decreases s@.len() - i,
    {
        let c = s[i];
        let ghost before = value@;
        if c == '\\' && i + 1 < s.len() && s[i + 1] == '"' {
            value.push('"');
            assert(value@ + read_quoted(s@, i + 2).0 =~= before + (seq!['"'] + read_quoted(s@, i + 2).0));
            i += 2;
        } else if c == '"' {
            assert(value@ + Seq::<char>::empty() =~= value@);
            return (value, i + 1, true);
        } else {
            value.push(c);
            assert(value@ + read_quoted(s@, i + 1).0 =~= before + (seq![c] + read_quoted(s@, i + 1).0));
            i += 1;
        }
    }
    assert(value@ + Seq::<char>::empty() =~= value@);
    (value, i, false)
}

/// Parses an annotated URI. One that does not start with `annotate:` is taken
/// whole as the path, without annotations.
pub fn parse_annotated_uri(uri: &str) -> (a: Annotations)
    ensures
        (a.values@, a.path@) == parsed_uri(uri@),
{
    let all = chars_of(uri);
    if !starts_with(&all, ANNOTATE_PREFIX) {
        return Annotations { values: TextMap::new(), path: string_of(&all, 0, all.len()) };
    }
    let prefix = chars_of(ANNOTATE_PREFIX);
    let mut chars: Vec<char> = Vec::new();
    let mut k: usize = prefix.len();
    while k < all.len()
        invariant
            prefix@.len() <= k <= all@.len(),
            chars@ == all@.subrange(prefix@.len() as int, k as int),
        decreases all@.len() - k,
    {
        chars.push(all[k]);
        k += 1;
    }
    assert(chars@ =~= uri@.skip(ANNOTATE_PREFIX@.len() as int));

    let n = chars.len();
    let mut values = TextMap::new();
    let mut i: usize = 0;
    loop
        invariant
            n == chars@.len(),
            i <= n,
            parsed_uri(uri@) == read_pairs(chars@, i as int, values@),
        decreases n - i,
    {
        let ghost before = values@;
        let key_start = i;
        let eq = find_char(&chars, '=', i);
        if eq >= n || eq + 1 >= n || chars[eq + 1] != '"' {
            assert(chars@.skip(key_start as int) =~= chars@.subrange(key_start as int, n as int));
            return Annotations { values, path: string_of(&chars, key_start, n) };
        }
        let key = string_of(&chars, key_start, eq);
        let (value, end, closed) = parse_quoted(&chars, eq + 2);
        values.insert(key, value);
        if !closed || end >= n {
            return Annotations { values, path: String::new() };
        }
        i = end;
        let c = chars[i];
        if c == ',' {
            i += 1;
        } else {
            if c == ':' {
                i += 1;
            }
            assert(chars@.skip(i as int) =~= chars@.subrange(i as int, n as int));
            return Annotations { values, path: string_of(&chars, i, n) };
        }
    }
}

/// A value as it stands between its quotes: every `"` is written as `\"`.
pub open spec fn escaped(value: Seq<char>) -> Seq<char>
    decreases value.len(),
{
    if value.len() == 0 {
        Seq::empty()
    } else {
        (if value[0] == '"' {
            seq!['\\', '"']
        } else {
            seq![value[0]]
        }) + escaped(value.skip(1))
    }
}

/// The pairs as they are written, with commas between them.
pub open spec fn written_pairs(pairs: Seq<(Seq<char>, Seq<char>)>) -> Seq<char>
    decreases pairs.len(),
{
    if pairs.len() == 0 {
        Seq::empty()
    } else {
        let first = pairs[0].0 + seq!['=', '"'] + escaped(pairs[0].1) + seq!['"'];
        if pairs.len() == 1 {
            first
        } else {
            first + seq![','] + written_pairs(pairs.skip(1))
        }
    }
}

/// The annotated URI for these pairs and this path.
pub open spec fn annotated_uri(pairs: Seq<(Seq<char>, Seq<char>)>, path: Seq<char>) -> Seq<char> {
    ANNOTATE_PREFIX@ + written_pairs(pairs) + seq![':'] + path
}

/// A pair that survives being written: no `=` in the key, and no backslash at
/// the end of the value (it would hide the closing quote).
pub open spec fn writable_pair(pair: (Seq<char>, Seq<char>)) -> bool {
    &&& !pair.0.contains('=')
    &&& !(pair.1.len() > 0 && pair.1.last() == '\\')
}

proof fn lemma_read_escaped(s: Seq<char>, i: int, value: Seq<char>, after: Seq<char>)
    requires
        0 <= i <= s.len(),
        s.skip(i) == escaped(value) + (seq!['"'] + after),
        !(value.len() > 0 && value.last() == '\\'),
    ensures
        read_quoted(s, i) == (value, Some(i + escaped(value).len() + 1)),
    decreases value.len(),
{
    let tail = seq!['"'] + after;
    let whole = escaped(value) + tail;
    assert(whole.len() == s.len() - i);
    assert(forall|k: int| 0 <= k < whole.len() ==> whole[k] == #[trigger] s[i + k]);
    if value.len() == 0 {
        assert(whole[0] == '"');
        assert(s[i + 0] == '"');
    } else {
        let rest = value.skip(1);
        assert(rest.len() > 0 ==> rest.last() == value.last());
        if value[0] == '"' {
            assert(whole[0] == '\\' && whole[1] == '"');
            assert(s[i + 0] == '\\' && s[i + 1] == '"');
            assert(s.skip(i + 2) =~= escaped(rest) + tail) by {
                assert(escaped(value).skip(2) =~= escaped(rest));
                assert(whole.skip(2) =~= escaped(rest) + tail);
                assert(s.skip(i + 2) =~= s.skip(i).skip(2));
            }
            lemma_read_escaped(s, i + 2, rest, after);
            assert(seq!['"'] + rest =~= value);
        } else {
            assert(whole[0] == value[0]);
            assert(s[i + 0] == value[0]);
            if value[0] == '\\' {
                assert(rest.len() > 0);
                assert(escaped(rest)[0] != '"');
                assert(whole[1] == escaped(rest)[0]);
                assert(s[i + 1] == whole[1]);
            }
            assert(s.skip(i + 1) =~= escaped(rest) + tail) by {
                assert(escaped(value).skip(1) =~= escaped(rest));
                assert(whole.skip(1) =~= escaped(rest) + tail);
                assert(s.skip(i + 1) =~= s.skip(i).skip(1));
            }
            lemma_read_escaped(s, i + 1, rest, after);
            assert(seq![value[0]] + rest =~= value);
        }
    }
}

proof fn lemma_read_written(
    s: Seq<char>,
    i: int,
    pairs: Seq<(Seq<char>, Seq<char>)>,
    path: Seq<char>,
    done: Seq<(Seq<char>, Seq<char>)>,
)
    requires
        0 <= i <= s.len(),
        pairs.len() > 0,
        forall|k: int| 0 <= k < pairs.len() ==> writable_pair(#[trigger] pairs[k]),
        s.skip(i) == written_pairs(pairs) + (seq![':'] + path),
    ensures
        read_pairs(s, i, crate::fields::fields_map(done)) == (
            crate::fields::fields_map(done + pairs),
            path,
        ),
    decreases pairs.len(),
{
    let key = pairs[0].0;
    let value = pairs[0].1;
    assert(writable_pair(pairs[0]));
    let after = if pairs.len() == 1 {
        seq![':'] + path
    } else {
        seq![','] + written_pairs(pairs.skip(1)) + (seq![':'] + path)
    };
    let tail = s.skip(i);
    assert(tail =~= key + (seq!['=', '"'] + (escaped(value) + (seq!['"'] + after))));
    assert(forall|k: int| 0 <= k < tail.len() ==> tail[k] == #[trigger] s[i + k]);
    let eq = i + key.len();
    assert(tail[key.len() as int] == '=' && tail[(key.len() + 1) as int] == '"');
    assert(s[eq] == '=' && s[eq + 1] == '"');
    assert forall|j: int| i <= j < eq implies s[j] != '=' by {
        assert(tail[j - i] == s[i + (j - i)]);
        assert(tail[j - i] == key[j - i]);
        assert(key.contains(key[j - i]));
    }
    crate::text::lemma_find_from_is(s, '=', i, eq);
    assert(s.subrange(i, eq) =~= key);
    assert(s.skip(eq + 2) =~= escaped(value) + (seq!['"'] + after)) by {
        assert(s.skip(eq + 2) =~= tail.skip((key.len() + 2) as int));
    }
    lemma_read_escaped(s, eq + 2, value, after);
    let end = eq + 2 + escaped(value).len() + 1;
    assert(s.skip(end) =~= after) by {
        assert(s.skip(end) =~= s.skip(eq + 2).skip((escaped(value).len() + 1) as int));
    }
    assert(after.len() > 0);
    assert(s[end] == s.skip(end)[0]);
    let next = done.push(pairs[0]);
    assert(next.drop_last() =~= done);
    if pairs.len() == 1 {
        assert(done + pairs =~= next);
        assert(s.skip(end + 1) =~= path) by {
            assert(s.skip(end + 1) =~= s.skip(end).skip(1));
        }
    } else {
        let rest = pairs.skip(1);
        assert(forall|k: int| 0 <= k < rest.len() ==> #[trigger] rest[k] == pairs[k + 1]);
        assert(s.skip(end + 1) =~= written_pairs(rest) + (seq![':'] + path)) by {
            assert(s.skip(end + 1) =~= s.skip(end).skip(1));
        }
        lemma_read_written(s, end + 1, rest, path, next);
        assert(next + rest =~= done + pairs);
    }
}

/// Parsing undoes writing: an annotated URI written from at least one pair and
/// a path reads back as exactly those pairs (a later pair winning over an
/// earlier one of the same key) and that path, whatever commas, colons, quotes
/// or equals signs the values and the path hold.
pub proof fn law_written_uri_reads_back(pairs: Seq<(Seq<char>, Seq<char>)>, path: Seq<char>)
    requires
        pairs.len() > 0,
        forall|k: int| 0 <= k < pairs.len() ==> writable_pair(#[trigger] pairs[k]),
    ensures
        parsed_uri(annotated_uri(pairs, path)) == (crate::fields::fields_map(pairs), path),
{
    let uri = annotated_uri(pairs, path);
    let n = ANNOTATE_PREFIX@.len() as int;
    assert(uri.take(n) =~= ANNOTATE_PREFIX@);
    let s = uri.skip(n);
    assert(s.skip(0) =~= written_pairs(pairs) + (seq![':'] + path));
    let none: Seq<(Seq<char>, Seq<char>)> = Seq::empty();
    lemma_read_written(s, 0, pairs, path, none);
    assert(none + pairs =~= pairs);
}

} // verus!
