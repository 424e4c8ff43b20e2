//! Tracks between decoding and playing: cue points, gains and fades.

use vstd::prelude::*;

use crate::annotate::Annotations;
use crate::decode::{parse_leading_number, DecodedTrack};
use crate::prepare::{
    apply_gain, given_numbers, number_texts, prepare_annotated, prepare_track, track_numbers,
    GivenNumbers, NumberTexts, PreparedTrack, TrackMetadata, TrackNumbers,
};

verus! {

broadcast use vstd::string::group_string_axioms;

// ---------------------------------------------------------------------------
// Numbers in texts.

/// A decimal digit.
pub open spec fn is_numeral(c: char) -> bool {
    c == '0' || c == '1' || c == '2' || c == '3' || c == '4' || c == '5' || c == '6' || c == '7'
        || c == '8' || c == '9'
}

proof fn lemma_numeral(c: char)
    ensures
        is_numeral(c) <==> crate::decode::is_digit(c),
{
}

proof fn lemma_number_end(s: Seq<char>, i: int, seen_dot: bool)
    requires
        0 <= i <= s.len(),
    ensures
        ({
            let end = crate::decode::number_end(s, i, seen_dot);
            &&& i <= end <= s.len()
            &&& forall|k: int| i <= k < end ==> is_numeral(#[trigger] s[k]) || s[k] == '.'
            &&& forall|j: int, k: int|
                i <= j < k < end ==> !((#[trigger] s[j]) == '.' && (#[trigger] s[k]) == '.')
            &&& seen_dot ==> forall|k: int| i <= k < end ==> (#[trigger] s[k]) != '.'
            &&& end < s.len() ==> !is_numeral(s[end])
            &&& end < s.len() && s[end] == '.' ==> seen_dot || exists|k: int|
                i <= k < end && (#[trigger] s[k]) == '.'
        }),
    decreases s.len() - i,
{
    if i < s.len() {
        lemma_numeral(s[i]);
        if crate::decode::is_digit(s[i]) {
            lemma_number_end(s, i + 1, seen_dot);
            let end = crate::decode::number_end(s, i, seen_dot);
            if end < s.len() && s[end] == '.' && !seen_dot {
                let k = choose|k: int| i + 1 <= k < end && (#[trigger] s[k]) == '.';
                assert(s[k] == '.');
            }
        } else if s[i] == '.' && !seen_dot {
            lemma_number_end(s, i + 1, true);
            assert(s[i] == '.');
        }
    }
}

/// The number at the start of a text, such as `-3.2` in `-3.2 dB`, is the
/// longest start of the text, white space aside, that is a sign, if there is
/// one, and digits with at most one dot among them; and there is one exactly
/// where such a start has a digit in it.
pub proof fn law_a_leading_number_is_all_of_it(s: &str, number: Option<String>)
    requires
        call_ensures(parse_leading_number, (s,), number),
    ensures
        number is Some ==> {
            let t = crate::text::trim(s@);
            let n = number->Some_0@;
            &&& n.len() <= t.len() && t.take(n.len() as int) == n
            &&& forall|k: int|
                0 < k < n.len() ==> is_numeral(#[trigger] n[k]) || n[k] == '.'
            &&& is_numeral(n[0]) || n[0] == '.' || n[0] == '-' || n[0] == '+'
            &&& exists|k: int| 0 <= k < n.len() && is_numeral(#[trigger] n[k])
            &&& forall|j: int, k: int|
                0 <= j < k < n.len() ==> !((#[trigger] n[j]) == '.' && (#[trigger] n[k]) == '.')
            &&& n.len() < t.len() ==> !is_numeral(t[n.len() as int])
        },
        number is None ==> {
            let t = crate::text::trim(s@);
            &&& t.len() > 0 ==> !is_numeral(t[0])
            &&& t.len() > 1 && (t[0] == '-' || t[0] == '+' || t[0] == '.') ==> !is_numeral(t[1])
        },
{
    let t = crate::text::trim(s@);
    let start = crate::decode::number_start(t);
    let end = crate::decode::number_end(t, start, false);
    lemma_number_end(t, start, false);
    if number is Some {
        let n = number->Some_0@;
        let k = choose|k: int| start <= k < end && crate::decode::is_digit(#[trigger] t[k]);
        lemma_numeral(t[k]);
        assert(n == t.take(end));
        assert(n[k] == t[k]);
        assert(n[0] == t[0]);
        assert forall|k: int| 0 < k < n.len() implies is_numeral(#[trigger] n[k]) || n[k] == '.' by {
            assert(n[k] == t[k]);
        }
        assert forall|j: int, k: int| 0 <= j < k < n.len() implies !((#[trigger] n[j]) == '.'
            && (#[trigger] n[k]) == '.') by {
            assert(n[j] == t[j] && n[k] == t[k]);
        }
    } else {
        if t.len() > 0 {
            lemma_numeral(t[0]);
            if is_numeral(t[0]) {
                assert(start == 0);
                assert(end > 0);
                assert(crate::decode::is_digit(t[0]));
            }
        }
        if t.len() > 1 && (t[0] == '-' || t[0] == '+' || t[0] == '.') && is_numeral(t[1]) {
            lemma_numeral(t[1]);
            if t[0] == '.' {
                assert(crate::decode::number_end(t, 0, false) == crate::decode::number_end(
                    t,
                    1,
                    true,
                ));
                lemma_number_end(t, 2, true);
                assert(crate::decode::number_end(t, 1, true) == crate::decode::number_end(
                    t,
                    2,
                    true,
                ));
            } else {
                lemma_number_end(t, 2, false);
                assert(crate::decode::number_end(t, 1, false) == crate::decode::number_end(
                    t,
                    2,
                    false,
                ));
            }
            assert(end > 1);
            assert(crate::decode::is_digit(t[1]));
        }
    }
}

/// A text without white space at its two ends.
pub open spec fn is_tight(s: Seq<char>) -> bool {
    &&& s.len() > 0
    &&& !crate::text::is_white(s[0])
    &&& !crate::text::is_white(s.last())
}

proof fn lemma_tight(s: Seq<char>)
    requires
        is_tight(s),
    ensures
        crate::text::trim(s) == s,
{
    crate::text::lemma_trim_is(s, 0);
    assert(s.skip(0) =~= s);
}

/// `text` is there, and says this.
pub open spec fn says(text: Option<String>, value: Seq<char>) -> bool {
    text is Some && text->Some_0@ == value
}

/// Each number of a track is the annotation of its own name. Cue points and
/// fades count where cue points are switched on, and the replay gain always.
pub proof fn law_numbers_are_the_annotations_of_their_names(
    pairs: Seq<(Seq<char>, Seq<char>)>,
    path: Seq<char>,
    uri: &str,
    a: Annotations,
    on: bool,
    texts: NumberTexts,
    k: int,
)
    requires
        crate::laws::reports::is_parsed_from(pairs, path, uri, a),
        call_ensures(Annotations::get_bool, (&a, "azuracast_autocue"), on),
        call_ensures(number_texts, (&a,), texts),
    ensures
        crate::laws::reports::is_last_of_its_name(pairs, k) && is_tight(pairs[k].1) ==> {
            &&& on && pairs[k].0 == "autocue_cue_in"@ ==> says(texts.cue_in, pairs[k].1)
            &&& on && pairs[k].0 == "autocue_cue_out"@ ==> says(texts.cue_out, pairs[k].1)
            &&& on && pairs[k].0 == "autocue_fade_in"@ ==> says(texts.fade_in, pairs[k].1)
            &&& on && pairs[k].0 == "autocue_fade_out"@ ==> says(texts.fade_out, pairs[k].1)
            &&& on && pairs[k].0 == "autocue_start_next"@ ==> says(texts.start_next, pairs[k].1)
            &&& pairs[k].0 == "replaygain_track_gain"@ ==> says(texts.replaygain, pairs[k].1)
        },
        !on ==> texts.cue_in is None && texts.cue_out is None && texts.fade_in is None
            && texts.fade_out is None && texts.start_next is None,
        crate::laws::reports::is_unnamed(pairs, "autocue_cue_in"@) ==> texts.cue_in is None,
        crate::laws::reports::is_unnamed(pairs, "autocue_cue_out"@) ==> texts.cue_out is None,
        crate::laws::reports::is_unnamed(pairs, "autocue_fade_in"@) ==> texts.fade_in is None,
        crate::laws::reports::is_unnamed(pairs, "autocue_fade_out"@) ==> texts.fade_out is None,
        crate::laws::reports::is_unnamed(pairs, "autocue_start_next"@) ==> texts.start_next
            is None,
        crate::laws::reports::is_unnamed(pairs, "replaygain_track_gain"@) ==> texts.replaygain
            is None,
        crate::laws::reports::is_unnamed(pairs, "liq_amplify"@) ==> texts.amplify is None,
{
    lemma_named(pairs, path, uri, a, k);
    if crate::laws::reports::is_last_of_its_name(pairs, k) && is_tight(pairs[k].1) {
        lemma_tight(pairs[k].1);
    }
}

/// What the names of numbers read back as.
proof fn lemma_named(
    pairs: Seq<(Seq<char>, Seq<char>)>,
    path: Seq<char>,
    uri: &str,
    a: Annotations,
    k: int,
)
    requires
        crate::laws::reports::is_parsed_from(pairs, path, uri, a),
    ensures
        crate::laws::reports::is_last_of_its_name(pairs, k) ==> a.values@.dom().contains(pairs[k].0)
            && a.values@[pairs[k].0] == pairs[k].1,
        forall|name: Seq<char>| #[trigger]
            crate::laws::reports::is_unnamed(pairs, name) ==> !a.values@.dom().contains(name),
{
    crate::laws::reports::law_annotations_read_back(pairs, path, uri, a, k, Seq::empty());
    assert forall|name: Seq<char>| #[trigger]
        crate::laws::reports::is_unnamed(pairs, name) implies !a.values@.dom().contains(name) by {
        crate::laws::reports::law_annotations_read_back(pairs, path, uri, a, k, name);
    }
}

/// A track's own gain is the number at the start of its `liq_amplify`
/// annotation, with or without cue points.
pub proof fn law_the_gain_is_the_number_of_its_annotation(
    pairs: Seq<(Seq<char>, Seq<char>)>,
    path: Seq<char>,
    uri: &str,
    a: Annotations,
    texts: NumberTexts,
    k: int,
    value: &str,
    number: Option<String>,
)
    requires
        crate::laws::reports::is_parsed_from(pairs, path, uri, a),
        call_ensures(number_texts, (&a,), texts),
        crate::laws::reports::is_last_of_its_name(pairs, k),
        pairs[k].0 == "liq_amplify"@,
        value@ == pairs[k].1,
        call_ensures(parse_leading_number, (value,), number),
    ensures
        crate::text::opt_view(texts.amplify) == crate::text::opt_view(number),
{
    lemma_named(pairs, path, uri, a, k);
}

/// The caller reads this number in this text; no text is no number.
pub open spec fn reads<N, P: Fn(&str) -> Option<N>>(
    parse: P,
    text: Option<String>,
    number: Option<N>,
) -> bool {
    match text {
        Some(t) => exists|s: &str| s@ == t@ && #[trigger] call_ensures(parse, (s,), number),
        None => number is None,
    }
}

/// Each number is read from its own text.
pub proof fn law_numbers_are_read_from_their_own_texts<N, P: Fn(&str) -> Option<N>>(
    texts: NumberTexts,
    parse: P,
    given: GivenNumbers<N>,
)
    requires
        call_ensures(given_numbers::<N, P>, (&texts, &parse), given),
    ensures
        reads(parse, texts.cue_in, given.cue_in),
        reads(parse, texts.cue_out, given.cue_out),
        reads(parse, texts.fade_in, given.fade_in),
        reads(parse, texts.fade_out, given.fade_out),
        reads(parse, texts.start_next, given.start_next),
        reads(parse, texts.amplify, given.amplify),
        reads(parse, texts.replaygain, given.replaygain),
{
}

// ---------------------------------------------------------------------------
// Cue points.

/// The caller's functions on times are those of whole seconds.
pub open spec fn counts_seconds<
    C: Fn(i64, i64, i64) -> i64,
    L: Fn(i64, i64) -> i64,
    G: Fn(i64, i64) -> i64,
    M: Fn(i64, i64) -> i64,
    F: Fn(i64, u32) -> usize,
>(clamp: C, lesser: L, greater: G, minus: M, to_frames: F) -> bool {
    &&& forall|x: i64, lo: i64, hi: i64, r: i64| #[trigger]
        call_ensures(clamp, (x, lo, hi), r) ==> (x < lo ==> r == lo) && (hi < x ==> r == hi) && (lo
            <= x <= hi ==> r == x)
    &&& forall|x: i64, y: i64, r: i64| #[trigger]
        call_ensures(lesser, (x, y), r) ==> (x <= y ==> r == x) && (y <= x ==> r == y)
    &&& forall|x: i64, y: i64, r: i64| #[trigger]
        call_ensures(greater, (x, y), r) ==> (x <= y ==> r == y) && (y <= x ==> r == x)
    &&& forall|x: i64, y: i64, r: i64| #[trigger] call_ensures(minus, (x, y), r) ==> r == x - y
    &&& forall|x: i64, rate: u32, r: usize| #[trigger]
        call_ensures(to_frames, (x, rate), r) ==> r == x * rate
}

/// Cue points in whole seconds. The track starts at the first one and ends
/// before the last one; a cue point that is not given is the start or the end
/// of the track, one outside of the track is moved to the nearer end of it, and
/// one before the first is moved to the first. The time of the next track is
/// counted from the first cue point, and is not negative.
pub proof fn law_cue_points_stay_in_the_track<
    C: Fn(i64, i64, i64) -> i64,
    L: Fn(i64, i64) -> i64,
    G: Fn(i64, i64) -> i64,
    M: Fn(i64, i64) -> i64,
    F: Fn(i64, u32) -> usize,
>(
    given: GivenNumbers<i64>,
    duration: i64,
    rate: u32,
    clamp: C,
    lesser: L,
    greater: G,
    minus: M,
    to_frames: F,
    numbers: TrackNumbers<i64>,
    first: int,
)
    requires
        counts_seconds(clamp, lesser, greater, minus, to_frames),
        duration >= 0,
        rate > 0,
        call_ensures(
            track_numbers::<i64, C, L, G, M, F>,
            (&given, 0i64, duration, rate, &clamp, &lesser, &greater, &minus, &to_frames),
            numbers,
        ),
        numbers.start_frame == first * rate,
    ensures
        0 <= numbers.start_frame <= numbers.end_frame <= duration * rate,
        given.cue_in is None ==> numbers.start_frame == 0,
        given.cue_in matches Some(c) ==> {
            &&& c <= 0 ==> numbers.start_frame == 0
            &&& 0 <= c <= duration ==> numbers.start_frame == c * rate
            &&& c >= duration ==> numbers.start_frame == duration * rate
        },
        given.cue_out is None ==> numbers.end_frame == duration * rate,
        given.cue_out matches Some(c) ==> {
            &&& first <= c <= duration ==> numbers.end_frame == c * rate
            &&& c >= duration ==> numbers.end_frame == duration * rate
            &&& c <= first ==> numbers.end_frame == numbers.start_frame
        },
        given.start_next is None <==> numbers.start_next is None,
        given.start_next matches Some(c) ==> {
            &&& c >= first ==> numbers.start_next == Some((c - first) as i64)
            &&& c <= first ==> numbers.start_next == Some(0i64)
        },
        numbers.fade_in == given.fade_in,
        numbers.fade_out == given.fade_out,
        numbers.amplify == given.amplify,
        numbers.replaygain == given.replaygain,
{
    let (cue_in, cue_out) = choose|cue_in: i64, cue_out: i64|
        #![trigger crate::prepare::is_cue_in(clamp, greater, given.cue_in, 0i64, duration, cue_in), crate::prepare::is_cue_out(lesser, greater, given.cue_out, duration, cue_in, cue_out)]
        {
            &&& crate::prepare::is_cue_in(clamp, greater, given.cue_in, 0i64, duration, cue_in)
            &&& crate::prepare::is_cue_out(
                lesser,
                greater,
                given.cue_out,
                duration,
                cue_in,
                cue_out,
            )
            &&& call_ensures(to_frames, (cue_in, rate), numbers.start_frame)
            &&& call_ensures(to_frames, (cue_out, rate), numbers.end_frame)
            &&& crate::prepare::is_counted_from(
                minus,
                greater,
                given.start_next,
                cue_in,
                0i64,
                numbers.start_next,
            )
        };
    assert(0 <= cue_in <= cue_out <= duration);
    assert(numbers.start_frame == cue_in * rate);
    assert(numbers.end_frame == cue_out * rate);
    assert(cue_in == first) by (nonlinear_arith)
        requires
            cue_in * rate == first * rate,
            rate > 0,
    ;
    assert(0 <= cue_in * rate <= cue_out * rate <= duration * rate) by (nonlinear_arith)
        requires
            0 <= cue_in <= cue_out <= duration,
            rate > 0,
    ;
    assert(0 * rate == 0) by (nonlinear_arith);
}

// ---------------------------------------------------------------------------
// Preparing.

/// A track without a gain of its own, and with replay gain off or nowhere
/// given, keeps its samples. Without cue points it keeps all of them; with cue
/// points it keeps exactly those from the first to before the last.
pub proof fn law_a_track_is_cut_to_its_cue_points<
    S: Copy,
    N: Copy,
    L: Copy,
    T: Fn(N) -> L,
    G: Fn(S, L) -> S,
>(
    decoded: DecodedTrack<S, N>,
    a: Annotations,
    on: bool,
    enabled: bool,
    numbers: TrackNumbers<N>,
    to_linear: T,
    scale: G,
    track: PreparedTrack<S, N>,
    frames: int,
    i: int,
)
    requires
        decoded.channels > 0,
        decoded.samples@.len() == frames * decoded.channels,
        call_ensures(Annotations::get_bool, (&a, "azuracast_autocue"), on),
        call_ensures(
            prepare_track::<S, N, L, T, G>,
            (decoded, &a, enabled, numbers, &to_linear, &scale),
            track,
        ),
        numbers.amplify is None,
        !enabled || (numbers.replaygain is None && decoded.replaygain_track_gain_db is None),
    ensures
        !on ==> track.decoded.samples@ == decoded.samples@,
        on && numbers.start_frame < numbers.end_frame <= frames ==> {
            &&& track.decoded.samples@.len() == (numbers.end_frame - numbers.start_frame)
                * decoded.channels
            &&& 0 <= i < track.decoded.samples@.len() ==> track.decoded.samples@[i]
                == decoded.samples@[numbers.start_frame * decoded.channels + i]
        },
        on && numbers.end_frame <= numbers.start_frame ==> track.decoded.samples@
            == decoded.samples@,
        on && numbers.start_frame >= frames ==> track.decoded.samples@ == decoded.samples@,
        on && numbers.start_frame < frames < numbers.end_frame ==> track.decoded.samples@
            == decoded.samples@.skip(numbers.start_frame * decoded.channels),
        track.decoded.sample_rate == decoded.sample_rate,
        track.decoded.channels == decoded.channels,
{
    let c = decoded.channels as int;
    vstd::arithmetic::div_mod::lemma_fundamental_div_mod_converse(
        decoded.samples@.len() as int,
        c,
        frames,
        0,
    );
    let s = numbers.start_frame as int;
    let e = numbers.end_frame as int;
    if on && s < frames < e {
        assert(0 <= s * c <= frames * c) by (nonlinear_arith)
            requires
                0 <= s < frames,
                c > 0,
        ;
        assert(decoded.samples@.subrange(s * c, frames * c) =~= decoded.samples@.skip(s * c));
    }
    if on && s < e <= frames {
        assert(0 <= s * c <= e * c <= frames * c && e * c - s * c == (e - s) * c)
            by (nonlinear_arith)
            requires
                0 <= s < e <= frames,
                c > 0,
        ;
    }
}

/// Each sample is turned up by the track's own gain, where it has one and there
/// is no replay gain; and by the replay gain, where there is one and no gain of
/// its own. What the annotations say of the replay gain goes before what the
/// file says.
pub proof fn law_gains_reach_every_sample<
    S: Copy,
    N: Copy,
    L: Copy,
    T: Fn(N) -> L,
    G: Fn(S, L) -> S,
>(
    decoded: DecodedTrack<S, N>,
    a: Annotations,
    enabled: bool,
    numbers: TrackNumbers<N>,
    to_linear: T,
    scale: G,
    track: PreparedTrack<S, N>,
    db: N,
) -> (linear: L)
    requires
        call_ensures(Annotations::get_bool, (&a, "azuracast_autocue"), false),
        call_ensures(
            prepare_track::<S, N, L, T, G>,
            (decoded, &a, enabled, numbers, &to_linear, &scale),
            track,
        ),
        (numbers.amplify == Some(db) && !enabled) || (numbers.amplify is None && enabled
            && numbers.replaygain == Some(db)) || (numbers.amplify is None && enabled
            && numbers.replaygain is None && decoded.replaygain_track_gain_db == Some(db)),
    ensures
        call_ensures(to_linear, (db,), linear),
        track.decoded.samples@.len() == decoded.samples@.len(),
        forall|i: int|
            0 <= i < decoded.samples@.len() ==> call_ensures(
                scale,
                (decoded.samples@[i], linear),
                #[trigger] track.decoded.samples@[i],
            ),
{
    let before = decoded.samples@;
    let after = track.decoded.samples@;
    let second = crate::prepare::chosen_replaygain(
        enabled,
        numbers.replaygain,
        decoded.replaygain_track_gain_db,
    );
    let amplified = choose|amplified: Seq<S>|
        crate::prepare::is_gained(to_linear, scale, before, numbers.amplify, amplified)
            && crate::prepare::is_gained(to_linear, scale, amplified, second, after);
    assert(crate::prepare::is_gained(to_linear, scale, before, Some(db), after));
    choose|linear: L|
        #![trigger call_ensures(to_linear, (db,), linear)]
        call_ensures(to_linear, (db,), linear) && crate::prepare::is_scaled(
            scale,
            before,
            linear,
            after,
        )
}

/// Where a track has both gains, its own is applied first and the replay gain
/// to what comes of it.
pub proof fn law_gains_add_up<S: Copy, N: Copy, L: Copy, T: Fn(N) -> L, G: Fn(S, L) -> S>(
    decoded: DecodedTrack<S, N>,
    a: Annotations,
    numbers: TrackNumbers<N>,
    to_linear: T,
    scale: G,
    track: PreparedTrack<S, N>,
    own: N,
    replaygain: N,
) -> (r: (L, Seq<S>, L))
    requires
        call_ensures(Annotations::get_bool, (&a, "azuracast_autocue"), false),
        call_ensures(
            prepare_track::<S, N, L, T, G>,
            (decoded, &a, true, numbers, &to_linear, &scale),
            track,
        ),
        numbers.amplify == Some(own),
        numbers.replaygain == Some(replaygain),
    ensures
        call_ensures(to_linear, (own,), r.0),
        call_ensures(to_linear, (replaygain,), r.2),
        r.1.len() == decoded.samples@.len() == track.decoded.samples@.len(),
        forall|i: int|
            #![trigger r.1[i]]
            0 <= i < r.1.len() ==> call_ensures(scale, (decoded.samples@[i], r.0), r.1[i])
                && call_ensures(scale, (r.1[i], r.2), track.decoded.samples@[i]),
{
    let before = decoded.samples@;
    let after = track.decoded.samples@;
    let amplified = choose|amplified: Seq<S>|
        crate::prepare::is_gained(to_linear, scale, before, Some(own), amplified)
            && crate::prepare::is_gained(to_linear, scale, amplified, Some(replaygain), after);
    let x = choose|x: L|
        #![trigger call_ensures(to_linear, (own,), x)]
        call_ensures(to_linear, (own,), x) && crate::prepare::is_scaled(
            scale,
            before,
            x,
            amplified,
        );
    let y = choose|y: L|
        #![trigger call_ensures(to_linear, (replaygain,), y)]
        call_ensures(to_linear, (replaygain,), y) && crate::prepare::is_scaled(
            scale,
            amplified,
            y,
            after,
        );
    assert forall|i: int| #![trigger amplified[i]] 0 <= i < amplified.len() implies call_ensures(
        scale,
        (decoded.samples@[i], x),
        amplified[i],
    ) && call_ensures(scale, (amplified[i], y), track.decoded.samples@[i]) by {
        assert(after[i] == after[i]);
    }
    (x, amplified, y)
}

/// A gain that is not given changes nothing, and one that is given reaches
/// every sample alike.
pub proof fn law_no_gain_changes_nothing<
    S: Copy,
    N: Copy,
    L: Copy,
    T: Fn(N) -> L,
    G: Fn(S, L) -> S,
>(samples: Vec<S>, db: Option<N>, to_linear: T, scale: G, out: Vec<S>)
    requires
        call_ensures(apply_gain::<S, N, L, T, G>, (samples, db, &to_linear, &scale), out),
    ensures
        db is None ==> out@ == samples@,
        out@.len() == samples@.len(),
{
}

/// A prepared track carries the metadata of its annotations, is a jingle where
/// they say so, has fades and a start of the next track only with cue points,
/// and is neither filler nor live.
pub proof fn law_a_prepared_track_is_what_its_annotations_say<
    S: Copy,
    N: Copy,
    L: Copy,
    T: Fn(N) -> L,
    G: Fn(S, L) -> S,
>(
    decoded: DecodedTrack<S, N>,
    a: Annotations,
    on: bool,
    jingle: bool,
    m: TrackMetadata,
    enabled: bool,
    numbers: TrackNumbers<N>,
    to_linear: T,
    scale: G,
    track: PreparedTrack<S, N>,
)
    requires
        call_ensures(Annotations::get_bool, (&a, "azuracast_autocue"), on),
        call_ensures(Annotations::get_bool, (&a, "jingle_mode"), jingle),
        call_ensures(TrackMetadata::from_annotations, (&a,), m),
        call_ensures(
            prepare_track::<S, N, L, T, G>,
            (decoded, &a, enabled, numbers, &to_linear, &scale),
            track,
        ),
    ensures
        track.metadata@ == m@,
        track.jingle_mode == jingle,
        on ==> track.fade_in_override == numbers.fade_in && track.fade_out_override
            == numbers.fade_out && track.start_next == numbers.start_next,
        !on ==> track.fade_in_override is None && track.fade_out_override is None
            && track.start_next is None,
        !track.is_error_file,
        !track.is_live,
{
}

/// An annotation counts as set exactly where its value is `true`.
pub proof fn law_only_true_is_true(a: Annotations, key: &str, yes: bool)
    requires
        call_ensures(Annotations::get_bool, (&a, key), yes),
    ensures
        yes <==> a.values@.dom().contains(key@) && a.values@[key@] == seq!['t', 'r', 'u', 'e'],
{
    reveal_strlit("true");
    assert("true"@ =~= seq!['t', 'r', 'u', 'e']);
}

/// From annotations to samples: of a track that lasts a whole number of
/// seconds, with cue points on that read as whole seconds inside of it, what
/// lies between them is played, with the fades that its annotations name.
pub proof fn law_a_track_is_played_between_its_cue_points<
    S: Copy,
    L: Copy,
    P: Fn(&str) -> Option<i64>,
    Q: Fn(usize, u32) -> i64,
    C: Fn(i64, i64, i64) -> i64,
    A: Fn(i64, i64) -> i64,
    B: Fn(i64, i64) -> i64,
    M: Fn(i64, i64) -> i64,
    F: Fn(i64, u32) -> usize,
    T: Fn(i64) -> L,
    G: Fn(S, L) -> S,
>(
    decoded: DecodedTrack<S, i64>,
    a: Annotations,
    texts: NumberTexts,
    parse: P,
    seconds: Q,
    clamp: C,
    lesser: A,
    greater: B,
    minus: M,
    to_frames: F,
    to_linear: T,
    scale: G,
    track: PreparedTrack<S, i64>,
    duration: i64,
    cue_in: i64,
    cue_out: i64,
    i: int,
)
    requires
        counts_seconds(clamp, lesser, greater, minus, to_frames),
        decoded.channels > 0,
        decoded.sample_rate > 0,
        0 <= cue_in < cue_out <= duration,
        decoded.samples@.len() == duration * decoded.sample_rate * decoded.channels,
        decoded.samples@.len() <= usize::MAX,
        forall|n: usize, rate: u32, d: i64| #[trigger]
            call_ensures(seconds, (n, rate), d) ==> d * rate <= n < (d + 1) * rate,
        call_ensures(Annotations::get_bool, (&a, "azuracast_autocue"), true),
        call_ensures(number_texts, (&a,), texts),
        texts.cue_in is Some,
        texts.cue_out is Some,
        texts.amplify is None,
        forall|s: &str, n: Option<i64>| #[trigger]
            call_ensures(parse, (s,), n) && s@ == texts.cue_in->Some_0@ ==> n == Some(cue_in),
        forall|s: &str, n: Option<i64>| #[trigger]
            call_ensures(parse, (s,), n) && s@ == texts.cue_out->Some_0@ ==> n == Some(cue_out),
        call_ensures(
            prepare_annotated::<S, i64, L, P, Q, C, A, B, M, F, T, G>,
            (
                decoded,
                &a,
                false,
                0i64,
                &parse,
                &seconds,
                &clamp,
                &lesser,
                &greater,
                &minus,
                &to_frames,
                &to_linear,
                &scale,
            ),
            track,
        ),
        0 <= i < track.decoded.samples@.len(),
    ensures
        track.decoded.samples@.len() == (cue_out - cue_in) * decoded.sample_rate
            * decoded.channels,
        track.decoded.samples@[i] == decoded.samples@[cue_in * decoded.sample_rate
            * decoded.channels + i],
        reads(parse, texts.fade_in, track.fade_in_override),
        reads(parse, texts.fade_out, track.fade_out_override),
        texts.start_next is None ==> track.start_next is None,
        track.start_next matches Some(n) ==> n >= 0,
{
    let rate = decoded.sample_rate as int;
    let ch = decoded.channels as int;
    let values = a.values@;
    let (given, numbers) = choose|given: GivenNumbers<i64>, numbers: TrackNumbers<i64>|
        {
            &&& #[trigger] crate::prepare::is_given(parse, values, given)
            &&& crate::prepare::is_numbered(
                seconds,
                clamp,
                lesser,
                greater,
                minus,
                to_frames,
                0i64,
                decoded,
                crate::prepare::has_autocue(values),
                given,
                numbers,
            )
            &&& #[trigger] crate::prepare::is_prepared(
                to_linear,
                scale,
                decoded,
                values,
                false,
                numbers,
                track,
            )
        };
    assert(given.cue_in == Some(cue_in));
    assert(given.cue_out == Some(cue_out));
    assert(given.amplify is None);
    let frames = duration * rate;
    vstd::arithmetic::div_mod::lemma_fundamental_div_mod_converse(
        decoded.samples@.len() as int,
        ch,
        frames,
        0,
    );
    assert(decoded.frame_count() == frames);
    assert(frames <= decoded.samples@.len()) by (nonlinear_arith)
        requires
            decoded.samples@.len() == frames * ch,
            ch > 0,
            frames >= 0,
            decoded.samples@.len() >= 0,
    {
        assert(frames >= 0);
    }
    assert(0 <= frames) by (nonlinear_arith)
        requires
            frames == duration * rate,
            duration >= 0,
            rate > 0,
    ;
    let d = choose|d: i64|
        #![trigger crate::prepare::is_cued(clamp, lesser, greater, minus, to_frames, given, 0i64, d, decoded.sample_rate, numbers)]
        call_ensures(seconds, (decoded.frame_count() as usize, decoded.sample_rate), d)
            && crate::prepare::is_cued(
            clamp,
            lesser,
            greater,
            minus,
            to_frames,
            given,
            0i64,
            d,
            decoded.sample_rate,
            numbers,
        );
    assert(d == duration) by (nonlinear_arith)
        requires
            d * rate <= duration * rate < (d + 1) * rate,
            rate > 0,
    ;
    let (x, y) = choose|x: i64, y: i64|
        #![trigger crate::prepare::is_cue_in(clamp, greater, given.cue_in, 0i64, duration, x), crate::prepare::is_cue_out(lesser, greater, given.cue_out, duration, x, y)]
        {
            &&& crate::prepare::is_cue_in(clamp, greater, given.cue_in, 0i64, duration, x)
            &&& crate::prepare::is_cue_out(lesser, greater, given.cue_out, duration, x, y)
            &&& call_ensures(to_frames, (x, decoded.sample_rate), numbers.start_frame)
            &&& call_ensures(to_frames, (y, decoded.sample_rate), numbers.end_frame)
            &&& crate::prepare::is_counted_from(
                minus,
                greater,
                given.start_next,
                x,
                0i64,
                numbers.start_next,
            )
        };
    assert(x == cue_in && y == cue_out);
    let s = cue_in * rate;
    let e = cue_out * rate;
    assert(numbers.start_frame == s && numbers.end_frame == e);
    assert(0 <= s < e <= frames) by (nonlinear_arith)
        requires
            s == cue_in * rate,
            e == cue_out * rate,
            frames == duration * rate,
            0 <= cue_in < cue_out <= duration,
            rate > 0,
    ;
    assert(0 <= s * ch <= e * ch <= frames * ch && e * ch - s * ch == (cue_out - cue_in) * rate
        * ch) by (nonlinear_arith)
        requires
            0 <= s < e <= frames,
            s == cue_in * rate,
            e == cue_out * rate,
            ch > 0,
    ;
}

/// A track that is prepared by its annotations carries their metadata, is a
/// jingle where they say so, and, without cue points and a gain of its own, is
/// turned up by the replay gain of its file where replay gain is on and the
/// annotations name none; where it is off, it keeps its samples.
pub proof fn law_annotations_prepare_the_track<
    S: Copy,
    N: Copy,
    L: Copy,
    P: Fn(&str) -> Option<N>,
    Q: Fn(usize, u32) -> N,
    C: Fn(N, N, N) -> N,
    A: Fn(N, N) -> N,
    B: Fn(N, N) -> N,
    M: Fn(N, N) -> N,
    F: Fn(N, u32) -> usize,
    T: Fn(N) -> L,
    G: Fn(S, L) -> S,
>(
    decoded: DecodedTrack<S, N>,
    a: Annotations,
    jingle: bool,
    m: TrackMetadata,
    texts: NumberTexts,
    enabled: bool,
    zero: N,
    parse: P,
    seconds: Q,
    clamp: C,
    lesser: A,
    greater: B,
    minus: M,
    to_frames: F,
    to_linear: T,
    scale: G,
    track: PreparedTrack<S, N>,
    db: N,
) -> (linear: L)
    requires
        call_ensures(Annotations::get_bool, (&a, "azuracast_autocue"), false),
        call_ensures(Annotations::get_bool, (&a, "jingle_mode"), jingle),
        call_ensures(TrackMetadata::from_annotations, (&a,), m),
        call_ensures(number_texts, (&a,), texts),
        texts.amplify is None,
        texts.replaygain is None,
        decoded.replaygain_track_gain_db == Some(db),
        call_ensures(
            prepare_annotated::<S, N, L, P, Q, C, A, B, M, F, T, G>,
            (
                decoded,
                &a,
                enabled,
                zero,
                &parse,
                &seconds,
                &clamp,
                &lesser,
                &greater,
                &minus,
                &to_frames,
                &to_linear,
                &scale,
            ),
            track,
        ),
    ensures
        track.metadata@ == m@,
        track.jingle_mode == jingle,
        !track.is_live && !track.is_error_file,
        track.fade_in_override is None && track.fade_out_override is None && track.start_next
            is None,
        track.decoded.sample_rate == decoded.sample_rate,
        track.decoded.channels == decoded.channels,
        track.decoded.samples@.len() == decoded.samples@.len(),
        !enabled ==> track.decoded.samples@ == decoded.samples@,
        enabled ==> call_ensures(to_linear, (db,), linear) && forall|i: int|
            0 <= i < decoded.samples@.len() ==> call_ensures(
                scale,
                (decoded.samples@[i], linear),
                #[trigger] track.decoded.samples@[i],
            ),
{
    let values = a.values@;
    let (given, numbers) = choose|given: GivenNumbers<N>, numbers: TrackNumbers<N>|
        {
            &&& #[trigger] crate::prepare::is_given(parse, values, given)
            &&& crate::prepare::is_numbered(
                seconds,
                clamp,
                lesser,
                greater,
                minus,
                to_frames,
                zero,
                decoded,
                crate::prepare::has_autocue(values),
                given,
                numbers,
            )
            &&& #[trigger] crate::prepare::is_prepared(
                to_linear,
                scale,
                decoded,
                values,
                enabled,
                numbers,
                track,
            )
        };
    let before = decoded.samples@;
    let after = track.decoded.samples@;
    let second = crate::prepare::chosen_replaygain(enabled, numbers.replaygain, Some(db));
    let amplified = choose|amplified: Seq<S>|
        crate::prepare::is_gained(to_linear, scale, before, numbers.amplify, amplified)
            && crate::prepare::is_gained(to_linear, scale, amplified, second, after);
    assert(numbers.amplify is None && numbers.replaygain is None);
    assert(crate::prepare::is_gained(to_linear, scale, before, second, after));
    choose|linear: L|
        #![trigger call_ensures(to_linear, (db,), linear)]
        call_ensures(to_linear, (db,), linear) && crate::prepare::is_scaled(
            scale,
            before,
            linear,
            after,
        )
}

} // verus!
