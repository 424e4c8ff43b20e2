//! Text as sequences of characters: the small vocabulary in which the rest of
//! the engine reads and writes its protocols.

use vstd::prelude::*;

verus! {

broadcast use vstd::string::group_string_axioms;

/// `String::push`: appends one character to the end of the text.
pub assume_specification[ String::push ](s: &mut String, ch: char)
    ensures
        final(s)@ == old(s)@.push(ch),
;

// ---------------------------------------------------------------------------
// Strings and character vectors.

/// The characters of `s`, in order.
pub fn chars_of(s: &str) -> (v: Vec<char>)
    ensures
        v@ == s@,
{
    let mut v: Vec<char> = Vec::new();
    for c in iter: s.chars()
        invariant
            iter.seq() == s@,
            v@ == s@.take(iter.index() as int),
    {
        v.push(c);
    }
    v
}

/// The text made of the characters `v[from..to]`.
pub fn string_of(v: &Vec<char>, from: usize, to: usize) -> (s: String)
    requires
        from <= to <= v@.len(),
    ensures
        s@ == v@.subrange(from as int, to as int),
{
    let mut s = String::new();
    let mut i: usize = from;
    while i < to
        invariant
            from <= i <= to <= v@.len(),
            s@ == v@.subrange(from as int, i as int),
        decreases to - i,
    {
        s.push(v[i]);
        i += 1;
    }
    s
}

/// Whether two texts hold the same characters.
pub fn same_text(a: &str, b: &str) -> (same: bool)
    ensures
        same == (a@ == b@),
{
    let a_chars = chars_of(a);
    let b_chars = chars_of(b);
    if a_chars.len() != b_chars.len() {
        return false;
    }
    let mut i: usize = 0;
    while i < a_chars.len()
        invariant
            i <= a_chars@.len(),
            a_chars@.len() == b_chars@.len(),
            a_chars@ == a@,
            b_chars@ == b@,
            a@.take(i as int) == b@.take(i as int),
        decreases a_chars@.len() - i,
    {
        if a_chars[i] != b_chars[i] {
            assert(a@[i as int] != b@[i as int]);
            return false;
        }
        assert(a@.take(i + 1) =~= a@.take(i as int).push(a@[i as int]));
        assert(b@.take(i + 1) =~= b@.take(i as int).push(b@[i as int]));
        i += 1;
    }
    assert(a@.take(i as int) =~= a@);
    assert(b@.take(i as int) =~= b@);
    true
}

/// Whether `s` begins with the text `p`.
pub open spec fn has_prefix(s: Seq<char>, p: Seq<char>) -> bool {
    p.len() <= s.len() && s.take(p.len() as int) == p
}

/// Whether `s` begins with `p`; `s` is given by its characters.
pub fn starts_with(s: &Vec<char>, p: &str) -> (yes: bool)
    ensures
        yes == has_prefix(s@, p@),
{
    let prefix = chars_of(p);
    if prefix.len() > s.len() {
        return false;
    }
    let mut i: usize = 0;
    while i < prefix.len()
        invariant
            i <= prefix@.len() <= s@.len(),
            prefix@ == p@,
            s@.take(i as int) == p@.take(i as int),
        decreases prefix@.len() - i,
    {
        if s[i] != prefix[i] {
            assert(s@.take(p@.len() as int)[i as int] != p@[i as int]);
            return false;
        }
        assert(s@.take(i + 1) =~= s@.take(i as int).push(s@[i as int]));
        assert(p@.take(i + 1) =~= p@.take(i as int).push(p@[i as int]));
        i += 1;
    }
    assert(p@.take(i as int) =~= p@);
    true
}

// ---------------------------------------------------------------------------
// Searching.

/// The first position at or after `i` that holds `c`, or the length of `s`.
pub open spec fn find_from(s: Seq<char>, c: char, i: int) -> int
    decreases s.len() - i,
{
    if i >= s.len() {
        s.len() as int
    } else if s[i] == c {
        i
    } else {
        find_from(s, c, i + 1)
    }
}

/// What [`find_from`] returns is the first match, or the end.
pub proof fn lemma_find_from(s: Seq<char>, c: char, i: int)
    requires
        0 <= i <= s.len(),
    ensures
        i <= find_from(s, c, i) <= s.len(),
        find_from(s, c, i) < s.len() ==> s[find_from(s, c, i)] == c,
        forall|j: int| i <= j < find_from(s, c, i) ==> s[j] != c,
    decreases s.len() - i,
{
    if i < s.len() && s[i] != c {
        lemma_find_from(s, c, i + 1);
    }
}

/// A position that holds `c`, with none before it, is what [`find_from`]
/// returns.
pub proof fn lemma_find_from_is(s: Seq<char>, c: char, i: int, at: int)
    requires
        0 <= i <= at <= s.len(),
        at < s.len() ==> s[at] == c,
        forall|j: int| i <= j < at ==> s[j] != c,
    ensures
        find_from(s, c, i) == at,
    decreases s.len() - i,
{
    if i < at {
        lemma_find_from_is(s, c, i + 1, at);
    }
}

/// The first position at or after `from` that holds `c`, or the length.
pub fn find_char(s: &Vec<char>, c: char, from: usize) -> (at: usize)
    requires
        from <= s@.len(),
    ensures
        at == find_from(s@, c, from as int),
        from <= at <= s@.len(),
{
    let mut i: usize = from;
    while i < s.len() && s[i] != c
        invariant
            from <= i <= s@.len(),
            find_from(s@, c, from as int) == find_from(s@, c, i as int),
        decreases s@.len() - i,
    {
        i += 1;
    }
    i
}

/// The text before and after the first `c`, if there is one.
pub open spec fn split_once(s: Seq<char>, c: char) -> Option<(Seq<char>, Seq<char>)> {
    let at = find_from(s, c, 0);
    if at < s.len() {
        Some((s.take(at), s.skip(at + 1)))
    } else {
        None
    }
}

// ---------------------------------------------------------------------------
// White space.

/// The characters with the Unicode property `White_Space`.
pub open spec fn is_white(c: char) -> bool {
    ||| '\u{9}' <= c <= '\u{d}'
    ||| c == ' '
    ||| c == '\u{85}'
    ||| c == '\u{a0}'
    ||| c == '\u{1680}'
    ||| '\u{2000}' <= c <= '\u{200a}'
    ||| c == '\u{2028}'
    ||| c == '\u{2029}'
    ||| c == '\u{202f}'
    ||| c == '\u{205f}'
    ||| c == '\u{3000}'
}

/// Whether `c` is white space.
pub fn char_is_white(c: char) -> (white: bool)
    ensures
        white == is_white(c),
{
    ('\u{9}' <= c && c <= '\u{d}') || c == ' ' || c == '\u{85}' || c == '\u{a0}' || c == '\u{1680}'
        || ('\u{2000}' <= c && c <= '\u{200a}') || c == '\u{2028}' || c == '\u{2029}' || c
        == '\u{202f}' || c == '\u{205f}' || c == '\u{3000}'
}

/// The first position at or after `i` that is not white space, or the length.
pub open spec fn skip_white(s: Seq<char>, i: int) -> int
    decreases s.len() - i,
{
    if i >= s.len() {
        s.len() as int
    } else if is_white(s[i]) {
        skip_white(s, i + 1)
    } else {
        i
    }
}

/// The first position at or after `i` that is white space, or the length.
pub open spec fn skip_word(s: Seq<char>, i: int) -> int
    decreases s.len() - i,
{
    if i >= s.len() {
        s.len() as int
    } else if is_white(s[i]) {
        i
    } else {
        skip_word(s, i + 1)
    }
}

/// Both scans stop inside `s`, and a word is never empty.
pub proof fn lemma_skip_bounds(s: Seq<char>, i: int)
    requires
        0 <= i <= s.len(),
    ensures
        i <= skip_white(s, i) <= s.len(),
        skip_white(s, i) < s.len() ==> !is_white(s[skip_white(s, i)]),
        i <= skip_word(s, i) <= s.len(),
        i < s.len() && !is_white(s[i]) ==> i < skip_word(s, i),
    decreases s.len() - i,
{
    if i < s.len() {
        lemma_skip_bounds(s, i + 1);
    }
}

/// `s` without the white space at its end.
pub open spec fn trim_end(s: Seq<char>) -> Seq<char>
    decreases s.len(),
{
    if s.len() > 0 && is_white(s.last()) {
        trim_end(s.drop_last())
    } else {
        s
    }
}

/// `s` without the white space at its two ends.
pub open spec fn trim(s: Seq<char>) -> Seq<char> {
    trim_end(s.skip(skip_white(s, 0)))
}

/// Trims `s[from..]` at both ends, and returns the range that is left.
pub fn trim_range(s: &Vec<char>, from: usize) -> (range: (usize, usize))
    requires
        from <= s@.len(),
    ensures
        range.0 <= range.1 <= s@.len(),
        s@.subrange(range.0 as int, range.1 as int) == trim(s@.skip(from as int)),
{
    let ghost tail = s@.skip(from as int);
    let mut a: usize = from;
    while a < s.len() && char_is_white(s[a])
        invariant
            from <= a <= s@.len(),
            tail == s@.skip(from as int),
            skip_white(tail, 0) == skip_white(tail, a - from),
        decreases s@.len() - a,
    {
        assert(tail[a - from] == s@[a as int]);
        a += 1;
    }
    proof {
        if a < s@.len() {
            assert(tail[a - from] == s@[a as int]);
        }
        assert(tail.skip(a - from) =~= s@.subrange(a as int, s@.len() as int));
    }
    let mut b: usize = s.len();
    while b > a && char_is_white(s[b - 1])
        invariant
            from <= a <= b <= s@.len(),
            trim(tail) == trim_end(s@.subrange(a as int, b as int)),
        decreases b,
    {
        assert(s@.subrange(a as int, b as int).drop_last() =~= s@.subrange(a as int, b - 1));
        b -= 1;
    }
    (a, b)
}

/// The words of `s` from position `i` on: the longest runs that hold no white
/// space.
pub open spec fn words_from(s: Seq<char>, i: int) -> Seq<Seq<char>>
    decreases s.len() - i,
{
    let a = skip_white(s, i);
    if 0 <= i <= s.len() && a < s.len() {
        let b = skip_word(s, a);
        proof {
            lemma_skip_bounds(s, i);
            lemma_skip_bounds(s, a);
        }
        seq![s.subrange(a, b)] + words_from(s, b)
    } else {
        Seq::empty()
    }
}

/// The words of `s`.
pub open spec fn words(s: Seq<char>) -> Seq<Seq<char>> {
    words_from(s, 0)
}

/// The next word at or after `from`, as a range; `None` where only white
/// space is left.
pub fn next_word(s: &Vec<char>, from: usize) -> (word: Option<(usize, usize)>)
    requires
        from <= s@.len(),
    ensures
        match word {
            Some((a, b)) => {
                &&& from <= a < b <= s@.len()
                &&& words_from(s@, from as int) == seq![s@.subrange(a as int, b as int)]
                    + words_from(s@, b as int)
            },
            None => words_from(s@, from as int).len() == 0,
        },
{
    let mut a: usize = from;
    while a < s.len() && char_is_white(s[a])
        invariant
            from <= a <= s@.len(),
            skip_white(s@, from as int) == skip_white(s@, a as int),
        decreases s@.len() - a,
    {
        a += 1;
    }
    if a == s.len() {
        return None;
    }
    let mut b: usize = a;
    while b < s.len() && !char_is_white(s[b])
        invariant
            a <= b <= s@.len(),
            skip_word(s@, a as int) == skip_word(s@, b as int),
        decreases s@.len() - b,
    {
        b += 1;
    }
    proof {
        lemma_skip_bounds(s@, a as int);
    }
    Some((a, b))
}

// ---------------------------------------------------------------------------
// Letter case.

/// The lower-case form of an ASCII letter; any other character as it is.
pub open spec fn lower_char(c: char) -> char {
    if 'A' <= c <= 'Z' {
        ((c as u32 + 32) as u32) as char
    } else {
        c
    }
}

/// `s` with its ASCII letters in lower case.
pub open spec fn lower(s: Seq<char>) -> Seq<char> {
    Seq::new(s.len(), |i: int| lower_char(s[i]))
}

/// Lower-cases one ASCII letter.
pub fn char_to_lower(c: char) -> (r: char)
    ensures
        r == lower_char(c),
{
    if 'A' <= c && c <= 'Z' {
        ((c as u8) + 32) as char
    } else {
        c
    }
}

/// The characters `s[from..to]` with the ASCII letters in lower case.
pub fn lower_of(s: &Vec<char>, from: usize, to: usize) -> (r: Vec<char>)
    requires
        from <= to <= s@.len(),
    ensures
        r@ == lower(s@.subrange(from as int, to as int)),
{
    let mut r: Vec<char> = Vec::new();
    let mut i: usize = from;
    while i < to
        invariant
            from <= i <= to <= s@.len(),
            r@ == lower(s@.subrange(from as int, i as int)),
        decreases to - i,
    {
        r.push(char_to_lower(s[i]));
        i += 1;
    }
    r
}

// ---------------------------------------------------------------------------
// Numbers.

/// The character of a decimal digit.
pub open spec fn digit_char(d: nat) -> char {
    ((48 + d) as u32) as char
}

/// `n` in decimal.
pub open spec fn decimal(n: nat) -> Seq<char>
    decreases n,
{
    if n < 10 {
        seq![digit_char(n)]
    } else {
        decimal(n / 10).push(digit_char(n % 10))
    }
}

/// Different numbers look different in decimal.
pub proof fn lemma_decimal_injective(a: nat, b: nat)
    requires
        a != b,
    ensures
        decimal(a) != decimal(b),
    decreases a + b,
{
    lemma_decimal_nonempty(a);
    lemma_decimal_nonempty(b);
    if a >= 10 && b >= 10 {
        if a / 10 != b / 10 {
            lemma_decimal_injective(a / 10, b / 10);
            assert(decimal(a).drop_last() =~= decimal(a / 10));
            assert(decimal(b).drop_last() =~= decimal(b / 10));
        } else {
            assert(a % 10 != b % 10);
            assert(decimal(a).last() == digit_char(a % 10));
            assert(decimal(b).last() == digit_char(b % 10));
        }
    } else if a >= 10 {
        lemma_decimal_nonempty(a / 10);
        assert(decimal(a).len() > 1);
    } else if b >= 10 {
        lemma_decimal_nonempty(b / 10);
        assert(decimal(b).len() > 1);
    } else {
        assert(decimal(a)[0] != decimal(b)[0]);
    }
}

proof fn lemma_decimal_nonempty(n: nat)
    ensures
        decimal(n).len() > 0,
{
}

/// Appends `n` in decimal.
pub fn push_decimal(s: &mut String, n: u64)
    ensures
        final(s)@ == old(s)@ + decimal(n as nat),
    decreases n,
{
    if n >= 10 {
        push_decimal(s, n / 10);
    }
    s.push(((48 + (n % 10)) as u8) as char);
}

/// `n` in decimal, as a text of its own.
pub fn decimal_of(n: u64) -> (s: String)
    ensures
        s@ == decimal(n as nat),
{
    let mut s = String::new();
    push_decimal(&mut s, n);
    assert(Seq::<char>::empty() + decimal(n as nat) =~= decimal(n as nat));
    s
}

// ---------------------------------------------------------------------------
// Lists of texts.

/// The text inside an optional string.
pub open spec fn opt_view(s: Option<String>) -> Option<Seq<char>> {
    match s {
        Some(t) => Some(t@),
        None => None,
    }
}

/// The texts of a list of strings.
pub open spec fn texts(v: Seq<String>) -> Seq<Seq<char>> {
    Seq::new(v.len(), |i: int| v[i]@)
}

/// Appends a text to a list.
pub fn push_text(v: &mut Vec<String>, s: &str)
    ensures
        texts(final(v)@) == texts(old(v)@).push(s@),
{
    v.push(s.to_owned());
    assert(texts(v@) =~= texts(old(v)@).push(s@));
}

/// Appends a text to a list.
pub fn push_string(v: &mut Vec<String>, s: String)
    ensures
        texts(final(v)@) == texts(old(v)@).push(s@),
{
    let ghost t = s@;
    v.push(s);
    assert(texts(v@) =~= texts(old(v)@).push(t));
}

/// Two texts, one after the other.
pub fn concat2(a: &str, b: &str) -> (s: String)
    ensures
        s@ == a@ + b@,
{
    let mut s = a.to_owned();
    s.append(b);
    s
}

/// The texts with one space between each two.
pub open spec fn joined(parts: Seq<Seq<char>>) -> Seq<char>
    decreases parts.len(),
{
    if parts.len() == 0 {
        Seq::empty()
    } else if parts.len() == 1 {
        parts[0]
    } else {
        joined(parts.drop_last()) + seq![' '] + parts.last()
    }
}

/// `s` with its words separated by single spaces and no other white space.
pub open spec fn flattened(s: Seq<char>) -> Seq<char> {
    joined(words(s))
}

/// Separates the words of `s` by single spaces and drops all other white space.
pub fn flatten(s: &str) -> (r: String)
    ensures
        r@ == flattened(s@),
{
    let chars = chars_of(s);
    let mut r = String::new();
    let mut first = true;
    let mut i: usize = 0;
    let ghost mut done: Seq<Seq<char>> = Seq::empty();
    assert(done + words_from(chars@, 0) =~= words(s@));
    loop
        invariant
            chars@ == s@,
            i <= chars@.len(),
            first == (done.len() == 0),
            r@ == joined(done),
            done + words_from(chars@, i as int) == words(s@),
        decreases chars@.len() - i,
    {
        match next_word(&chars, i) {
            None => {
                assert(done + words_from(chars@, i as int) =~= done);
                return r;
            },
            Some((a, b)) => {
                let word = string_of(&chars, a, b);
                if !first {
                    r.push(' ');
                }
                let ghost before = r@;
                r.append(word.as_str());
                proof {
                    let next = done.push(word@);
                    assert(next.drop_last() =~= done);
                    assert(r@ =~= joined(next));
                    assert(next + words_from(chars@, b as int) =~= done + words_from(
                        chars@,
                        i as int,
                    ));
                    done = next;
                }
                first = false;
                i = b;
            },
        }
    }
}

/// Whether one of the words of `s` is `word`.
pub fn has_word(s: &str, word: &str) -> (yes: bool)
    ensures
        yes == words(s@).contains(word@),
{
    let chars = chars_of(s);
    let mut i: usize = 0;
    let ghost mut done: Seq<Seq<char>> = Seq::empty();
    assert(done + words_from(chars@, 0) =~= words(s@));
    loop
        invariant
            chars@ == s@,
            i <= chars@.len(),
            forall|k: int| 0 <= k < done.len() ==> #[trigger] done[k] != word@,
            done + words_from(chars@, i as int) == words(s@),
        decreases chars@.len() - i,
    {
        match next_word(&chars, i) {
            None => {
                assert(done + words_from(chars@, i as int) =~= done);
                return false;
            },
            Some((a, b)) => {
                let found = string_of(&chars, a, b);
                if same_text(found.as_str(), word) {
                    assert(words(s@)[done.len() as int] == word@);
                    return true;
                }
                proof {
                    let next = done.push(found@);
                    assert(next + words_from(chars@, b as int) =~= done + words_from(
                        chars@,
                        i as int,
                    ));
                    done = next;
                }
                i = b;
            },
        }
    }
}

/// `s` without the white space at its two ends.
pub fn trimmed(s: &str) -> (r: String)
    ensures
        r@ == trim(s@),
{
    let chars = chars_of(s);
    let (a, b) = trim_range(&chars, 0);
    assert(chars@.skip(0) =~= chars@);
    string_of(&chars, a, b)
}

/// `s` with its ASCII letters in lower case.
pub fn lowered(s: &str) -> (r: String)
    ensures
        r@ == lower(s@),
{
    let chars = chars_of(s);
    let low = lower_of(&chars, 0, chars.len());
    let r = string_of(&low, 0, low.len());
    assert(chars@.subrange(0, chars@.len() as int) =~= chars@);
    assert(r@ =~= low@);
    r
}

/// Whether `c` occurs in `s`.
pub fn contains_char(s: &str, c: char) -> (yes: bool)
    ensures
        yes == s@.contains(c),
{
    let chars = chars_of(s);
    let at = find_char(&chars, c, 0);
    proof {
        lemma_find_from(s@, c, 0);
        if at < s@.len() {
            assert(s@[at as int] == c);
        }
    }
    at < chars.len()
}

// ---------------------------------------------------------------------------
// What is known of texts that are put together from pieces.

/// A run of white space followed by a run without it is where the next word
/// is.
pub proof fn lemma_first_word(s: Seq<char>, i: int, a: int, b: int)
    requires
        0 <= i <= a < b <= s.len(),
        forall|k: int| i <= k < a ==> is_white(#[trigger] s[k]),
        forall|k: int| a <= k < b ==> !is_white(#[trigger] s[k]),
        b < s.len() ==> is_white(s[b]),
    ensures
        words_from(s, i) == seq![s.subrange(a, b)] + words_from(s, b),
{
    lemma_skip_white_is(s, i, a);
    lemma_skip_word_is(s, a, b);
}

pub proof fn lemma_skip_white_is(s: Seq<char>, i: int, a: int)
    requires
        0 <= i <= a <= s.len(),
        forall|k: int| i <= k < a ==> is_white(#[trigger] s[k]),
        a < s.len() ==> !is_white(s[a]),
    ensures
        skip_white(s, i) == a,
    decreases a - i,
{
    if i < a {
        lemma_skip_white_is(s, i + 1, a);
    }
}

pub proof fn lemma_skip_word_is(s: Seq<char>, a: int, b: int)
    requires
        0 <= a <= b <= s.len(),
        forall|k: int| a <= k < b ==> !is_white(#[trigger] s[k]),
        b < s.len() ==> is_white(s[b]),
    ensures
        skip_word(s, a) == b,
    decreases b - a,
{
    if a < b {
        lemma_skip_word_is(s, a + 1, b);
    }
}

/// A word is not empty and holds no white space.
pub open spec fn is_word(w: Seq<char>) -> bool {
    w.len() > 0 && forall|k: int| 0 <= k < w.len() ==> !is_white(#[trigger] w[k])
}

/// What [`words_from`] lists are words.
pub proof fn lemma_words_are_words(s: Seq<char>, i: int)
    requires
        0 <= i <= s.len(),
    ensures
        forall|k: int| 0 <= k < words_from(s, i).len() ==> is_word(#[trigger] words_from(s, i)[k]),
    decreases s.len() - i,
{
    lemma_skip_bounds(s, i);
    let a = skip_white(s, i);
    if a < s.len() {
        lemma_skip_bounds(s, a);
        let b = skip_word(s, a);
        lemma_word_has_no_white(s, a);
        lemma_words_are_words(s, b);
        let rest = words_from(s, b);
        let all = words_from(s, i);
        assert(all == seq![s.subrange(a, b)] + rest);
        assert forall|k: int| 0 <= k < all.len() implies is_word(#[trigger] all[k]) by {
            if k == 0 {
                assert(is_word(s.subrange(a, b)));
            } else {
                assert(all[k] == rest[k - 1]);
            }
        }
    }
}

proof fn lemma_word_has_no_white(s: Seq<char>, a: int)
    requires
        0 <= a <= s.len(),
    ensures
        forall|k: int| a <= k < skip_word(s, a) ==> !is_white(#[trigger] s[k]),
    decreases s.len() - a,
{
    if a < s.len() && !is_white(s[a]) {
        lemma_word_has_no_white(s, a + 1);
    }
}

/// Words joined by spaces hold no white space but spaces, and have none at
/// their two ends.
pub proof fn lemma_joined(parts: Seq<Seq<char>>)
    requires
        forall|k: int| 0 <= k < parts.len() ==> is_word(#[trigger] parts[k]),
    ensures
        forall|k: int|
            0 <= k < joined(parts).len() ==> (is_white(#[trigger] joined(parts)[k]) ==> joined(
                parts,
            )[k] == ' '),
        parts.len() > 0 ==> joined(parts).len() > 0 && !is_white(joined(parts)[0]) && !is_white(
            joined(parts).last(),
        ),
        parts.len() == 0 ==> joined(parts).len() == 0,
    decreases parts.len(),
{
    if parts.len() == 1 {
        assert(is_word(parts[0]));
    } else if parts.len() > 1 {
        let front = parts.drop_last();
        assert(forall|k: int| 0 <= k < front.len() ==> #[trigger] front[k] == parts[k]);
        lemma_joined(front);
        assert(is_word(parts[parts.len() - 1]));
        let all = joined(parts);
        let head = joined(front);
        assert(all == head + seq![' '] + parts.last());
        assert forall|k: int| 0 <= k < all.len() && is_white(#[trigger] all[k]) implies all[k]
            == ' ' by {
            if k < head.len() {
                assert(all[k] == head[k]);
            } else if k > head.len() {
                assert(all[k] == parts.last()[k - head.len() - 1]);
            }
        }
        assert(all[0] == head[0]);
        assert(all.last() == parts.last().last());
    }
}

/// Trimming a text whose last character is no white space leaves what follows
/// the white space at its start.
pub proof fn lemma_trim_is(s: Seq<char>, a: int)
    requires
        0 <= a < s.len(),
        forall|k: int| 0 <= k < a ==> is_white(#[trigger] s[k]),
        !is_white(s[a]),
        !is_white(s.last()),
    ensures
        trim(s) == s.skip(a),
{
    lemma_skip_white_is(s, 0, a);
    assert(s.skip(a).last() == s.last());
}

} // verus!
