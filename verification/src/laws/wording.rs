//! Texts, named values, and what is said to the station's web application.

use vstd::prelude::*;

use crate::annotate::Annotations;
use crate::callbacks::{
    auth_body, check_status, endpoint, feedback_body, read_flag_answer, savecache_body,
    unreadable_answer, uri_body, user_body, Callback, FeedbackPayload,
};
use crate::config::CallbacksConfig;
use crate::fields::TextMap;
use crate::text::{
    char_is_white, contains_char, decimal_of, flatten, has_word, lowered, same_text, trimmed,
};

verus! {

broadcast use vstd::string::group_string_axioms;

// ---------------------------------------------------------------------------
// Texts.

/// The number that decimal digits stand for.
pub open spec fn value_of(digits: Seq<char>) -> int
    decreases digits.len(),
{
    if digits.len() == 0 {
        0
    } else {
        10 * value_of(digits.drop_last()) + (digits.last() as int - '0' as int)
    }
}

proof fn lemma_decimal(n: nat)
    ensures
        value_of(crate::text::decimal(n)) == n,
        crate::text::decimal(n).len() > 0,
        forall|i: int|
            0 <= i < crate::text::decimal(n).len() ==> crate::laws::preparing::is_numeral(
                #[trigger] crate::text::decimal(n)[i],
            ),
        n > 0 ==> crate::text::decimal(n)[0] != '0',
    decreases n,
{
    let s = crate::text::decimal(n);
    if n < 10 {
        assert(s.drop_last() =~= Seq::<char>::empty());
        assert(s.last() as int - '0' as int == n);
        assert(value_of(s.drop_last()) == 0);
    } else {
        lemma_decimal(n / 10);
        assert(s.drop_last() =~= crate::text::decimal(n / 10));
        assert(s.last() as int - '0' as int == n % 10);
        assert forall|i: int| 0 <= i < s.len() implies crate::laws::preparing::is_numeral(
            #[trigger] s[i],
        ) by {
            if i < s.len() - 1 {
                assert(s[i] == crate::text::decimal(n / 10)[i]);
            }
        }
        assert(s[0] == crate::text::decimal(n / 10)[0]);
    }
}

/// A number is written in decimal digits that stand for it, without a zero in
/// front.
pub proof fn law_numbers_are_written_in_decimal(n: u64, s: String, i: int)
    requires
        call_ensures(decimal_of, (n,), s),
    ensures
        value_of(s@) == n,
        s@.len() > 0,
        0 <= i < s@.len() ==> crate::laws::preparing::is_numeral(s@[i]),
        n > 0 ==> s@[0] != '0',
{
    lemma_decimal(n as nat);
    assert(0 <= i < s@.len() ==> crate::laws::preparing::is_numeral(
        crate::text::decimal(n as nat)[i],
    ));
}

/// Two texts are the same exactly where they have the same characters.
pub proof fn law_same_texts_have_the_same_characters(a: &str, b: &str, same: bool, i: int)
    requires
        call_ensures(same_text, (a, b), same),
    ensures
        same ==> a@.len() == b@.len(),
        same && 0 <= i < a@.len() ==> a@[i] == b@[i],
        a@ =~= b@ ==> same,
{
}

/// A character is found exactly where the text has it.
pub proof fn law_a_character_is_found_where_it_is(s: &str, c: char, yes: bool, i: int)
    requires
        call_ensures(contains_char, (s, c), yes),
    ensures
        0 <= i < s@.len() && s@[i] == c ==> yes,
        yes ==> exists|k: int| 0 <= k < s@.len() && #[trigger] s@[k] == c,
{
}

/// Spaces, tabs and line ends are white; letters, digits and punctuation are
/// not; beyond ASCII, the characters that Unicode calls white space are.
pub proof fn law_white_space_is_blank(c: char, white: bool)
    requires
        call_ensures(char_is_white, (c,), white),
    ensures
        c == ' ' || c == '\t' || c == '\n' || c == '\r' ==> white,
        '!' <= c <= '~' ==> !white,
        (c as u32) < 0x80 && white ==> c == ' ' || 9 <= c as u32 <= 13,
        (c as u32) >= 0x80 ==> (white <==> c as u32 == 0x85 || c as u32 == 0xa0 || c as u32
            == 0x1680 || 0x2000 <= c as u32 <= 0x200a || c as u32 == 0x2028 || c as u32 == 0x2029
            || c as u32 == 0x202f || c as u32 == 0x205f || c as u32 == 0x3000),
{
}

proof fn lemma_trim_end(s: Seq<char>)
    ensures
        ({
            let t = crate::text::trim_end(s);
            &&& t.len() <= s.len()
            &&& t == s.take(t.len() as int)
            &&& forall|k: int| t.len() <= k < s.len() ==> crate::text::is_white(#[trigger] s[k])
            &&& t.len() > 0 ==> !crate::text::is_white(t.last())
        }),
    decreases s.len(),
{
    if s.len() > 0 && crate::text::is_white(s.last()) {
        lemma_trim_end(s.drop_last());
        let t = crate::text::trim_end(s);
        assert(s.drop_last().take(t.len() as int) =~= s.take(t.len() as int));
        assert forall|k: int| t.len() <= k < s.len() implies crate::text::is_white(
            #[trigger] s[k],
        ) by {
            if k < s.len() - 1 {
                assert(s[k] == s.drop_last()[k]);
            }
        }
    } else {
        assert(s.take(s.len() as int) =~= s);
    }
}

proof fn lemma_skip_white(s: Seq<char>, i: int)
    requires
        0 <= i <= s.len(),
    ensures
        forall|k: int|
            i <= k < crate::text::skip_white(s, i) ==> crate::text::is_white(#[trigger] s[k]),
    decreases s.len() - i,
{
    if i < s.len() && crate::text::is_white(s[i]) {
        lemma_skip_white(s, i + 1);
    }
}

/// Trimming takes white space off both ends, all of it and nothing else.
pub proof fn law_trimming_takes_the_ends_off(s: &str, r: String) -> (from: int)
    requires
        call_ensures(trimmed, (s,), r),
    ensures
        0 <= from <= from + r@.len() <= s@.len(),
        r@ == s@.subrange(from, from + r@.len()),
        forall|k: int| 0 <= k < from ==> crate::text::is_white(#[trigger] s@[k]),
        forall|k: int| from + r@.len() <= k < s@.len() ==> crate::text::is_white(#[trigger] s@[k]),
        r@.len() > 0 ==> !crate::text::is_white(r@[0]) && !crate::text::is_white(r@.last()),
{
    let from = crate::text::skip_white(s@, 0);
    crate::text::lemma_skip_bounds(s@, 0);
    lemma_skip_white(s@, 0);
    let rest = s@.skip(from);
    lemma_trim_end(rest);
    assert(r@ =~= s@.subrange(from, from + r@.len()));
    assert forall|k: int| from + r@.len() <= k < s@.len() implies crate::text::is_white(
        #[trigger] s@[k],
    ) by {
        assert(rest[k - from] == s@[k]);
    }
    from
}

/// Lower case changes the capital letters of ASCII into their small ones, and
/// nothing else.
pub proof fn law_lower_case_changes_capitals_only(s: &str, r: String, i: int)
    requires
        call_ensures(lowered, (s,), r),
        0 <= i < s@.len(),
    ensures
        r@.len() == s@.len(),
        'A' <= s@[i] <= 'Z' ==> r@[i] as int == s@[i] as int + 32,
        !('A' <= s@[i] <= 'Z') ==> r@[i] == s@[i],
{
}

proof fn lemma_one_more_word(s: Seq<char>, c: char, w: Seq<char>, i: int)
    requires
        0 <= i <= s.len(),
        crate::text::is_white(c),
        crate::text::is_word(w),
    ensures
        crate::text::words_from(s + seq![c] + w, i) == crate::text::words_from(s, i).push(w),
    decreases s.len() - i,
{
    let t = s + seq![c] + w;
    let n = s.len() as int;
    assert(forall|k: int| 0 <= k < n ==> t[k] == #[trigger] s[k]);
    assert(t[n] == c);
    assert(forall|k: int| 0 <= k < w.len() ==> t[n + 1 + k] == #[trigger] w[k]);
    crate::text::lemma_skip_bounds(s, i);
    lemma_skip_white(s, i);
    let a = crate::text::skip_white(s, i);
    if a < n {
        crate::text::lemma_skip_white_is(t, i, a);
        crate::text::lemma_skip_bounds(s, a);
        let b = crate::text::skip_word(s, a);
        lemma_skip_word(s, a);
        assert forall|k: int| a <= k < b implies !crate::text::is_white(#[trigger] t[k]) by {
            assert(t[k] == s[k]);
        }
        assert(crate::text::is_white(t[b])) by {
            if b < n {
                assert(t[b] == s[b]);
            }
        }
        crate::text::lemma_skip_word_is(t, a, b);
        lemma_one_more_word(s, c, w, b);
        assert(t.subrange(a, b) =~= s.subrange(a, b));
        assert(crate::text::words_from(t, i) =~= crate::text::words_from(s, i).push(w));
    } else {
        assert forall|k: int| i <= k < n + 1 implies crate::text::is_white(#[trigger] t[k]) by {
            if k < n {
                assert(t[k] == s[k]);
            }
        }
        assert forall|k: int| n + 1 <= k < t.len() implies !crate::text::is_white(
            #[trigger] t[k],
        ) by {
            assert(t[n + 1 + (k - n - 1)] == w[k - n - 1]);
        }
        crate::text::lemma_first_word(t, i, n + 1, t.len() as int);
        assert(t.subrange(n + 1, t.len() as int) =~= w);
        assert(crate::text::words_from(t, t.len() as int) =~= Seq::<Seq<char>>::empty());
        assert(crate::text::words_from(s, i) =~= Seq::<Seq<char>>::empty());
        assert(crate::text::words_from(t, i) =~= crate::text::words_from(s, i).push(w));
    }
}

proof fn lemma_skip_word(s: Seq<char>, a: int)
    requires
        0 <= a <= s.len(),
    ensures
        a <= crate::text::skip_word(s, a) <= s.len(),
        forall|k: int|
            a <= k < crate::text::skip_word(s, a) ==> !crate::text::is_white(#[trigger] s[k]),
        crate::text::skip_word(s, a) < s.len() ==> crate::text::is_white(
            s[crate::text::skip_word(s, a)],
        ),
    decreases s.len() - a,
{
    if a < s.len() && !crate::text::is_white(s[a]) {
        lemma_skip_word(s, a + 1);
    }
}

/// White space of any kind tells words apart: a word that follows it is one
/// more word.
pub proof fn law_white_space_tells_words_apart(s: Seq<char>, c: char, w: Seq<char>)
    requires
        crate::text::is_white(c),
        crate::text::is_word(w),
    ensures
        crate::text::words(s + seq![c] + w) == crate::text::words(s).push(w),
        crate::text::words(w) == seq![w],
        crate::text::words(Seq::empty()) == Seq::<Seq<char>>::empty(),
{
    lemma_one_more_word(s, c, w, 0);
    crate::text::lemma_first_word(w, 0, 0, w.len() as int);
    assert(w.subrange(0, w.len() as int) =~= w);
    assert(crate::text::words_from(w, w.len() as int) =~= Seq::<Seq<char>>::empty());
    assert(crate::text::words(w) =~= seq![w]);
}

proof fn lemma_words_of_joined(parts: Seq<Seq<char>>)
    requires
        forall|k: int| 0 <= k < parts.len() ==> crate::text::is_word(#[trigger] parts[k]),
    ensures
        crate::text::words(crate::text::joined(parts)) == parts,
    decreases parts.len(),
{
    if parts.len() == 0 {
        assert(crate::text::words(crate::text::joined(parts)) =~= parts);
    } else {
        assert(crate::text::is_word(parts[parts.len() - 1]));
        if parts.len() == 1 {
            law_white_space_tells_words_apart(Seq::empty(), ' ', parts[0]);
            assert(seq![parts[0]] =~= parts);
        } else {
            let front = parts.drop_last();
            assert(forall|k: int| 0 <= k < front.len() ==> #[trigger] front[k] == parts[k]);
            lemma_words_of_joined(front);
            law_white_space_tells_words_apart(crate::text::joined(front), ' ', parts.last());
            assert(front.push(parts.last()) =~= parts);
        }
    }
}

/// Flattening keeps the words of a text and their order, puts single spaces
/// between them, and changes no text that is flat already.
pub proof fn law_flattening_keeps_the_words(
    s: &str,
    r: String,
    flat: &str,
    again: String,
)
    requires
        call_ensures(flatten, (s,), r),
        flat@ == r@,
        call_ensures(flatten, (flat,), again),
    ensures
        crate::text::words(r@) == crate::text::words(s@),
        again@ == r@,
        forall|k: int|
            0 <= k < r@.len() && crate::text::is_white(#[trigger] r@[k]) ==> r@[k] == ' ',
        r@.len() > 0 ==> !crate::text::is_white(r@[0]) && !crate::text::is_white(r@.last()),
{
    crate::text::lemma_words_are_words(s@, 0);
    lemma_words_of_joined(crate::text::words(s@));
    crate::text::lemma_joined(crate::text::words(s@));
}

/// A word is found exactly where it is one of the words of the text.
pub proof fn law_a_word_is_found_whole(
    s: &str,
    word: &str,
    yes: bool,
    before: Seq<char>,
    c: char,
)
    requires
        call_ensures(has_word, (s, word), yes),
        crate::text::is_word(word@),
        crate::text::is_white(c),
    ensures
        s@ == before + seq![c] + word@ ==> yes,
        s@ == word@ ==> yes,
        s@.len() == 0 ==> !yes,
        yes ==> exists|k: int|
            0 <= k < crate::text::words(s@).len() && #[trigger] crate::text::words(s@)[k] == word@,
{
    law_white_space_tells_words_apart(before, c, word@);
    let all = crate::text::words(before).push(word@);
    assert(all[all.len() - 1] == word@);
    assert(seq![word@][0] == word@);
    assert(crate::text::words(Seq::empty()).len() == 0);
    if s@.len() == 0 {
        assert(s@ =~= Seq::<char>::empty());
    }
}

// ---------------------------------------------------------------------------
// Named values.

/// A name has the value that was last set under it, and setting one name does
/// not touch another.
pub proof fn law_a_name_has_the_value_set_last<'a>(
    map: &mut TextMap,
    name: String,
    value: String,
    after: TextMap,
    asked: &str,
    found: Option<&'a str>,
)
    requires
        call_ensures(TextMap::insert, (map, name, value), ()),
        after == *final(map),
        call_ensures(TextMap::get, (&after, asked), found),
    ensures
        asked@ == name@ ==> found is Some && found->Some_0@ == value@,
        asked@ != name@ ==> (found is Some <==> old(map)@.dom().contains(asked@)),
        asked@ != name@ && found is Some ==> found->Some_0@ == old(map)@[asked@],
{
}

/// A new map has no names.
pub proof fn law_a_new_map_is_empty<'a>(
    map: TextMap,
    asked: &str,
    found: Option<&'a str>,
    empty: bool,
    n: usize,
)
    requires
        call_ensures(TextMap::new, (), map),
        call_ensures(TextMap::get, (&map, asked), found),
        call_ensures(TextMap::is_empty, (&map,), empty),
        call_ensures(TextMap::len, (&map,), n),
    ensures
        found is None,
        empty,
        n == 0,
{
}

/// Where two maps are merged, every name of either is there, and where both
/// have it, the second's value is.
pub proof fn law_merging_prefers_the_second<'a>(
    map: &mut TextMap,
    other: TextMap,
    after: TextMap,
    asked: &str,
    found: Option<&'a str>,
)
    requires
        call_ensures(TextMap::merge, (map, other), ()),
        after == *final(map),
        call_ensures(TextMap::get, (&after, asked), found),
    ensures
        other@.dom().contains(asked@) ==> found is Some && found->Some_0@ == other@[asked@],
        !other@.dom().contains(asked@) ==> (found is Some <==> old(map)@.dom().contains(asked@)),
        !other@.dom().contains(asked@) && found is Some ==> found->Some_0@ == old(map)@[asked@],
{
}

/// A map is empty exactly where no name has a value; a copy of a value is that
/// value.
pub proof fn law_an_empty_map_has_no_values<'a>(
    map: TextMap,
    empty: bool,
    asked: &str,
    found: Option<&'a str>,
    copy: Option<String>,
)
    requires
        call_ensures(TextMap::is_empty, (&map,), empty),
        call_ensures(TextMap::get, (&map, asked), found),
        call_ensures(TextMap::get_owned, (&map, asked), copy),
    ensures
        found is Some ==> !empty,
        copy is Some <==> found is Some,
        copy is Some ==> copy->Some_0@ == found->Some_0@,
        !empty ==> exists|name: Seq<char>| #[trigger] map@.dom().contains(name),
{
    if !empty {
        if forall|name: Seq<char>| !#[trigger] map@.dom().contains(name) {
            assert(map@ =~= Map::<Seq<char>, Seq<char>>::empty());
        }
    }
}

/// Annotations are looked up by name, as they are or without the white space
/// around them.
pub proof fn law_annotations_are_looked_up_by_name<'a>(
    a: Annotations,
    key: &str,
    value: Option<&'a str>,
    tight: Option<String>,
    empty: bool,
)
    requires
        call_ensures(Annotations::get, (&a, key), value),
        call_ensures(Annotations::get_trimmed, (&a, key), tight),
        call_ensures(Annotations::is_empty, (&a,), empty),
    ensures
        value is Some <==> a.values@.dom().contains(key@),
        value is Some ==> value->Some_0@ == a.values@[key@],
        tight is Some <==> value is Some,
        tight is Some && crate::laws::preparing::is_tight(value->Some_0@) ==> tight->Some_0@
            == value->Some_0@,
        value is Some ==> !empty,
{
    if value is Some && crate::laws::preparing::is_tight(value->Some_0@) {
        let v = value->Some_0@;
        crate::text::lemma_trim_is(v, 0);
        assert(v.skip(0) =~= v);
    }
}

// ---------------------------------------------------------------------------
// Callbacks.

/// The URL of a callback is the base URL, without slashes at its end, the
/// station, and the action. A slash more at the end of the base URL makes no
/// difference.
pub proof fn law_a_callback_is_addressed_by_station_and_action(
    cfg: CallbacksConfig,
    slashed: CallbacksConfig,
    action: &str,
    url: String,
    slashed_url: String,
)
    requires
        slashed.base_url@ == cfg.base_url@.push('/'),
        slashed.station_id == cfg.station_id,
        call_ensures(endpoint, (&cfg, action), url),
        call_ensures(endpoint, (&slashed, action), slashed_url),
    ensures
        slashed_url@ == url@,
        cfg.station_id >= 0 && (cfg.base_url@.len() == 0 || cfg.base_url@.last() != '/') ==> url@
            == cfg.base_url@ + "/api/internal/"@ + crate::text::decimal(cfg.station_id as nat)
            + "/liquidsoap/"@ + action@,
        cfg.station_id < 0 && (cfg.base_url@.len() == 0 || cfg.base_url@.last() != '/') ==> url@
            == cfg.base_url@ + "/api/internal/-"@ + crate::text::decimal((-cfg.station_id) as nat)
            + "/liquidsoap/"@ + action@,
{
    assert(slashed.base_url@.drop_last() =~= cfg.base_url@);
    reveal_strlit("/api/internal/");
    reveal_strlit("/api/internal/-");
    assert("/api/internal/-"@ =~= "/api/internal/"@ + seq!['-']);
    if cfg.station_id < 0 && (cfg.base_url@.len() == 0 || cfg.base_url@.last() != '/') {
        assert(url@ =~= cfg.base_url@ + "/api/internal/-"@ + crate::text::decimal(
            (-cfg.station_id) as nat,
        ) + "/liquidsoap/"@ + action@);
    }
}

/// Each callback has its own name.
pub proof fn law_callbacks_have_their_own_names(
    x: Callback,
    x_name: &'static str,
    y: Callback,
    y_name: &'static str,
)
    requires
        call_ensures(Callback::action, (x,), x_name),
        call_ensures(Callback::action, (y,), y_name),
    ensures
        x == Callback::NextSong <==> x_name@ == "nextsong"@,
        x == Callback::Auth <==> x_name@ == "auth"@,
        x == Callback::DjOn <==> x_name@ == "djon"@,
        x == Callback::DjOff <==> x_name@ == "djoff"@,
        x == Callback::Feedback <==> x_name@ == "feedback"@,
        x == Callback::Cp <==> x_name@ == "cp"@,
        x == Callback::SaveCache <==> x_name@ == "savecache"@,
        x != y ==> x_name@ != y_name@,
{
    reveal_strlit("nextsong");
    reveal_strlit("auth");
    reveal_strlit("djon");
    reveal_strlit("djoff");
    reveal_strlit("feedback");
    reveal_strlit("cp");
    reveal_strlit("savecache");
    assert("nextsong"@.len() == 8 && "nextsong"@[0] == 'n');
    assert("auth"@.len() == 4 && "auth"@[0] == 'a');
    assert("djon"@.len() == 4 && "djon"@[0] == 'd');
    assert("djoff"@.len() == 5);
    assert("feedback"@.len() == 8 && "feedback"@[0] == 'f');
    assert("cp"@.len() == 2);
    assert("savecache"@.len() == 9);
}

/// Deciding on a DJ and storing what was computed may take half as long as the
/// other callbacks; a copy of a track may take as long as it is given.
pub proof fn law_callbacks_have_their_time(callback: Callback, cp_secs: u64, secs: u64)
    requires
        call_ensures(Callback::timeout_secs, (callback, cp_secs), secs),
    ensures
        callback == Callback::Auth || callback == Callback::SaveCache ==> secs == 5,
        callback == Callback::Cp ==> secs == cp_secs,
        callback != Callback::Auth && callback != Callback::SaveCache && callback != Callback::Cp
            ==> secs == 10,
{
}

/// An answer is good exactly where its status is 200.
pub proof fn law_only_200_is_success(
    url: &str,
    code: u16,
    status: &str,
    r: Result<(), String>,
)
    requires
        call_ensures(check_status, (url, code, status), r),
    ensures
        r is Ok <==> code == 200,
        r is Err ==> r->Err_0@ == url@ + " returned non-200 status: "@ + status@,
{
}

/// White space as JSON has it.
pub open spec fn is_json_blank(s: Seq<char>) -> bool {
    forall|k: int|
        0 <= k < s.len() ==> (#[trigger] s[k]) == ' ' || s[k] == '\t' || s[k] == '\n' || s[k]
            == '\r'
}

/// A boolean answer is read as it is, whatever white space stands around it;
/// and what is read was there.
pub proof fn law_boolean_answers_are_read(
    callback: Callback,
    body: &str,
    r: Result<bool, String>,
    before: Seq<char>,
    after: Seq<char>,
)
    requires
        call_ensures(read_flag_answer, (callback, body), r),
    ensures
        is_json_blank(before) && is_json_blank(after) && body@ == before + "true"@ + after ==> r
            == Ok::<bool, String>(true),
        is_json_blank(before) && is_json_blank(after) && body@ == before + "false"@ + after ==> r
            == Ok::<bool, String>(false),
        r is Ok ==> exists|at: int|
            #[trigger] crate::codec::is_flag_at(body@, r->Ok_0, at),
{
    crate::codec::lemma_json_flag_is_one(body@);
    reveal_strlit("true");
    reveal_strlit("false");
    let at = before.len() as int;
    if is_json_blank(before) && is_json_blank(after) {
        if body@ == before + "true"@ + after {
            assert(body@.subrange(at, at + 4) =~= "true"@);
            lemma_flag_at(body@, before, true, after);
        }
        if body@ == before + "false"@ + after {
            assert(body@.subrange(at, at + 5) =~= "false"@);
            lemma_flag_at(body@, before, false, after);
        }
    }
}

proof fn lemma_flag_at(body: Seq<char>, before: Seq<char>, flag: bool, after: Seq<char>)
    requires
        is_json_blank(before),
        is_json_blank(after),
        body == before + crate::codec::flag_word(flag) + after,
    ensures
        crate::codec::is_json_flag(body, flag),
{
    let word = crate::codec::flag_word(flag);
    let at = before.len() as int;
    assert(body.subrange(at, at + word.len()) =~= word);
    assert forall|k: int| 0 <= k < at implies crate::codec::is_json_white(#[trigger] body[k]) by {
        assert(body[k] == before[k]);
    }
    assert forall|k: int| at + word.len() <= k < body.len() implies crate::codec::is_json_white(
        #[trigger] body[k],
    ) by {
        assert(body[k] == after[k - at - word.len()]);
    }
    assert(crate::codec::is_flag_at(body, flag, at));
}

/// Who went on or off the air stands in the body under `user`, and the track
/// that is asked for under `uri`; each is a JSON string.
pub proof fn law_bodies_name_what_they_are_about(
    text: &str,
    json: Seq<char>,
    user: String,
    uri: String,
)
    requires
        json == crate::codec::json_string(text@),
        call_ensures(user_body, (text,), user),
        call_ensures(uri_body, (text,), uri),
    ensures
        user@ == "{\"user\":"@ + json + "}"@,
        uri@ == "{\"uri\":"@ + json + "}"@,
{
    reveal_strlit("{\"user\":");
    reveal_strlit("{\"uri\":");
    reveal_strlit("}");
    reveal_strlit("user");
    reveal_strlit("uri");
    assert(user@ =~= "{\"user\":"@ + json + "}"@);
    assert(uri@ =~= "{\"uri\":"@ + json + "}"@);
}

proof fn lemma_two_members(a: Seq<char>, b: Seq<char>)
    ensures
        crate::callbacks::json_object(seq![a, b]) == seq!['{'] + a + seq![','] + b + seq!['}'],
{
    let parts = seq![a, b];
    assert(parts.drop_last() =~= seq![a]);
    assert(crate::callbacks::comma_separated(seq![a]) == a);
    assert(crate::callbacks::comma_separated(parts) =~= a + seq![','] + b);
    assert(crate::callbacks::json_object(parts) =~= seq!['{'] + a + seq![','] + b + seq!['}']);
}

/// A DJ's user name and password are sent each under its own name, and so are
/// the key and the data of what is stored.
pub proof fn law_bodies_of_two_keep_them_apart(
    first: &str,
    first_json: Seq<char>,
    second: &str,
    second_json: Seq<char>,
    auth: String,
    savecache: String,
)
    requires
        first_json == crate::codec::json_string(first@),
        second_json == crate::codec::json_string(second@),
        call_ensures(auth_body, (first, second), auth),
        call_ensures(savecache_body, (first, second), savecache),
    ensures
        auth@ == "{\"password\":"@ + second_json + ",\"user\":"@ + first_json + "}"@,
        savecache@ == "{\"cache_key\":"@ + first_json + ",\"data\":"@ + second@ + "}"@,
{
    reveal_strlit("{\"password\":");
    reveal_strlit(",\"user\":");
    reveal_strlit("{\"cache_key\":");
    reveal_strlit(",\"data\":");
    reveal_strlit("}");
    reveal_strlit("user");
    reveal_strlit("password");
    reveal_strlit("cache_key");
    reveal_strlit("data");
    lemma_two_members(
        crate::callbacks::json_member("password"@, second_json),
        crate::callbacks::json_member("user"@, first_json),
    );
    lemma_two_members(
        crate::callbacks::json_member("cache_key"@, first_json),
        crate::callbacks::json_member("data"@, second@),
    );
    assert(auth@ =~= "{\"password\":"@ + second_json + ",\"user\":"@ + first_json + "}"@);
    assert(savecache@ =~= "{\"cache_key\":"@ + first_json + ",\"data\":"@ + second@ + "}"@);
}

proof fn lemma_member_is_there(parts: Seq<Seq<char>>, k: int) -> (around: (Seq<char>, Seq<char>))
    requires
        0 <= k < parts.len(),
    ensures
        crate::callbacks::comma_separated(parts) == around.0 + parts[k] + around.1,
    decreases parts.len(),
{
    let all = crate::callbacks::comma_separated(parts);
    if parts.len() == 1 {
        assert(all =~= Seq::<char>::empty() + parts[k] + Seq::<char>::empty());
        (Seq::empty(), Seq::empty())
    } else {
        let front = parts.drop_last();
        let head = crate::callbacks::comma_separated(front);
        if k == parts.len() - 1 {
            assert(all =~= (head + seq![',']) + parts[k] + Seq::<char>::empty());
            (head + seq![','], Seq::empty())
        } else {
            let (before, after) = lemma_member_is_there(front, k);
            assert(front[k] == parts[k]);
            assert(all =~= before + parts[k] + (after + seq![','] + parts.last()));
            (before, after + seq![','] + parts.last())
        }
    }
}

/// Whether `text` is a JSON object that has this text under this name.
pub open spec fn has_member(body: Seq<char>, name: Seq<char>, json: Seq<char>) -> bool {
    crate::laws::outputs::has_part(body, seq!['"'] + name + seq!['"', ':'] + json)
}

proof fn lemma_has_member(
    body: Seq<char>,
    members: Seq<Seq<char>>,
    k: int,
    name: Seq<char>,
    text: Seq<char>,
)
    requires
        body == crate::callbacks::json_object(members),
        0 <= k < members.len(),
        members[k] == crate::callbacks::text_member(name, text),
    ensures
        has_member(body, name, crate::codec::json_string(text)),
{
    let (before, after) = lemma_member_is_there(members, k);
    let part = seq!['"'] + name + seq!['"', ':'] + crate::codec::json_string(text);
    assert(body =~= (seq!['{'] + before) + part + (after + seq!['}']));
}

/// One more member, if there is a text for it, comes last and leaves the others
/// where they are.
proof fn lemma_with_text(members: Seq<Seq<char>>, name: Seq<char>, text: Option<Seq<char>>, k: int)
    ensures
        0 <= k < members.len() ==> k < crate::callbacks::with_text(members, name, text).len()
            && crate::callbacks::with_text(members, name, text)[k] == members[k],
        text is Some ==> crate::callbacks::with_text(members, name, text).len() == members.len() + 1
            && crate::callbacks::with_text(members, name, text).last()
            == crate::callbacks::text_member(name, text->Some_0),
        text is None ==> crate::callbacks::with_text(members, name, text) == members,
{
}

/// A report says under each name what the payload has under it, as a JSON
/// string; where the payload has nothing at all, it is an empty object.
pub proof fn law_a_report_has_every_field_under_its_name(
    p: FeedbackPayload,
    body: String,
    text: &str,
    json: Seq<char>,
)
    requires
        call_ensures(feedback_body, (&p,), body),
        json == crate::codec::json_string(text@),
    ensures
        p.song_id is Some && p.song_id->Some_0@ == text@ ==> has_member(
            body@,
            "song_id"@,
            json,
        ),
        p.media_id is Some && p.media_id->Some_0@ == text@ ==> has_member(
            body@,
            "media_id"@,
            json,
        ),
        p.playlist_id is Some && p.playlist_id->Some_0@ == text@ ==> has_member(
            body@,
            "playlist_id"@,
            json,
        ),
        p.sq_id is Some && p.sq_id->Some_0@ == text@ ==> has_member(body@, "sq_id"@, json),
        p.artist is Some && p.artist->Some_0@ == text@ ==> has_member(body@, "artist"@, json),
        p.title is Some && p.title->Some_0@ == text@ ==> has_member(body@, "title"@, json),
        p.song_id is None && p.media_id is None && p.playlist_id is None && p.sq_id is None
            && p.artist is None && p.title is None ==> body@ == seq!['{', '}'],
{
    let m0 = Seq::<Seq<char>>::empty();
    let m1 = crate::callbacks::with_text(m0, "song_id"@, crate::text::opt_view(p.song_id));
    let m2 = crate::callbacks::with_text(m1, "media_id"@, crate::text::opt_view(p.media_id));
    let m3 = crate::callbacks::with_text(m2, "playlist_id"@, crate::text::opt_view(p.playlist_id));
    let m4 = crate::callbacks::with_text(m3, "sq_id"@, crate::text::opt_view(p.sq_id));
    let m5 = crate::callbacks::with_text(m4, "artist"@, crate::text::opt_view(p.artist));
    let m6 = crate::callbacks::feedback_members(p);
    if p.song_id is Some && p.song_id->Some_0@ == text@ {
        lemma_has_member(body@, m6, 0, "song_id"@, text@);
    }
    if p.media_id is Some && p.media_id->Some_0@ == text@ {
        lemma_has_member(body@, m6, m1.len() as int, "media_id"@, text@);
    }
    if p.playlist_id is Some && p.playlist_id->Some_0@ == text@ {
        lemma_has_member(body@, m6, m2.len() as int, "playlist_id"@, text@);
    }
    if p.sq_id is Some && p.sq_id->Some_0@ == text@ {
        lemma_has_member(body@, m6, m3.len() as int, "sq_id"@, text@);
    }
    if p.artist is Some && p.artist->Some_0@ == text@ {
        lemma_has_member(body@, m6, m4.len() as int, "artist"@, text@);
    }
    if p.title is Some && p.title->Some_0@ == text@ {
        lemma_has_member(body@, m6, m5.len() as int, "title"@, text@);
    }
    if m6.len() == 0 {
        assert(body@ =~= seq!['{', '}']);
    }
}

/// What could not be read is quoted, with the callback and the error.
pub proof fn law_unreadable_answers_are_quoted(
    callback: Callback,
    name: &'static str,
    error: &str,
    body: &str,
    message: String,
)
    requires
        call_ensures(Callback::action, (callback,), name),
        call_ensures(unreadable_answer, (callback, error, body), message),
    ensures
        message@ == "failed to parse "@ + name@ + " response: "@ + error@ + " (body: "@ + body@
            + ")"@,
{
}

/// A report of one field is that field alone.
pub proof fn law_a_report_of_one_field_is_that_field(p: FeedbackPayload, body: String)
    requires
        call_ensures(feedback_body, (&p,), body),
    ensures
        p.title is Some && p.artist is None && p.song_id is None && p.media_id is None && p.sq_id
            is None && p.playlist_id is None ==> body@ == "{\"title\":"@
            + crate::codec::json_string(p.title->Some_0@) + "}"@,
        p.title is None && p.artist is Some && p.song_id is None && p.media_id is None && p.sq_id
            is None && p.playlist_id is None ==> body@ == "{\"artist\":"@
            + crate::codec::json_string(p.artist->Some_0@) + "}"@,
        p.title is None && p.artist is None && p.song_id is Some && p.media_id is None && p.sq_id
            is None && p.playlist_id is None ==> body@ == "{\"song_id\":"@
            + crate::codec::json_string(p.song_id->Some_0@) + "}"@,
        p.title is None && p.artist is None && p.song_id is None && p.media_id is Some && p.sq_id
            is None && p.playlist_id is None ==> body@ == "{\"media_id\":"@
            + crate::codec::json_string(p.media_id->Some_0@) + "}"@,
{
    reveal_strlit("}");
    reveal_strlit("title");
    reveal_strlit("artist");
    reveal_strlit("song_id");
    reveal_strlit("media_id");
    reveal_strlit("{\"title\":");
    reveal_strlit("{\"artist\":");
    reveal_strlit("{\"song_id\":");
    reveal_strlit("{\"media_id\":");
    let members = crate::callbacks::feedback_members(p);
    if members.len() == 1 {
        assert(crate::callbacks::comma_separated(members) == members[0]);
        if p.title is Some {
            assert(body@ =~= "{\"title\":"@ + crate::codec::json_string(p.title->Some_0@) + "}"@);
        } else if p.artist is Some {
            assert(body@ =~= "{\"artist\":"@ + crate::codec::json_string(p.artist->Some_0@)
                + "}"@);
        } else if p.song_id is Some {
            assert(body@ =~= "{\"song_id\":"@ + crate::codec::json_string(p.song_id->Some_0@)
                + "}"@);
        } else if p.media_id is Some {
            assert(body@ =~= "{\"media_id\":"@ + crate::codec::json_string(p.media_id->Some_0@)
                + "}"@);
        }
    }
}

/// Annotations are counted by their names.
pub proof fn law_annotations_are_counted_by_name(a: Annotations, n: usize, empty: bool)
    requires
        call_ensures(Annotations::len, (&a,), n),
        call_ensures(Annotations::is_empty, (&a,), empty),
    ensures
        n == a.values@.dom().len(),
        empty ==> n == 0,
{
}

} // verus!
