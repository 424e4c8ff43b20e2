//! What is told of the tracks that play: metadata, feedback and songs.

use vstd::prelude::*;

use crate::annotate::{parse_annotated_uri, Annotations};
use crate::callbacks::FeedbackPayload;
use crate::control::ControlSignals;
use crate::feedback::{now_playing_for, FeedbackDedup};
use crate::fields::TextMap;
use crate::output::NowPlaying;
use crate::pipeline::take_overrides;
use crate::prepare::{
    prepare_fallback_track, prepare_live_chunk, MetadataView, PreparedTrack, TrackMetadata,
};

verus! {

broadcast use vstd::string::group_string_axioms;

// ---------------------------------------------------------------------------
// Names and values.

/// The names of annotations are all different.
pub proof fn lemma_metadata_names()
    ensures
        "title"@ != "artist"@,
        "title"@ != "song_id"@,
        "title"@ != "media_id"@,
        "title"@ != "sq_id"@,
        "title"@ != "playlist_id"@,
        "title"@ != "media_unique_id"@,
        "artist"@ != "song_id"@,
        "artist"@ != "media_id"@,
        "artist"@ != "sq_id"@,
        "artist"@ != "playlist_id"@,
        "artist"@ != "media_unique_id"@,
        "song_id"@ != "media_id"@,
        "song_id"@ != "sq_id"@,
        "song_id"@ != "playlist_id"@,
        "song_id"@ != "media_unique_id"@,
        "media_id"@ != "sq_id"@,
        "media_id"@ != "playlist_id"@,
        "media_id"@ != "media_unique_id"@,
        "sq_id"@ != "playlist_id"@,
        "sq_id"@ != "media_unique_id"@,
        "playlist_id"@ != "media_unique_id"@,
{
    reveal_strlit("title");
    reveal_strlit("artist");
    reveal_strlit("song_id");
    reveal_strlit("media_id");
    reveal_strlit("sq_id");
    reveal_strlit("playlist_id");
    reveal_strlit("media_unique_id");
    assert("title"@.len() == 5 && "title"@[0] == 't');
    assert("artist"@.len() == 6);
    assert("song_id"@.len() == 7);
    assert("media_id"@.len() == 8);
    assert("sq_id"@.len() == 5 && "sq_id"@[0] == 's');
    assert("playlist_id"@.len() == 11);
    assert("media_unique_id"@.len() == 15);
}

/// Whether `pairs[k]` is the last pair of its name.
pub open spec fn is_last_of_its_name(pairs: Seq<(Seq<char>, Seq<char>)>, k: int) -> bool {
    &&& 0 <= k < pairs.len()
    &&& forall|j: int| k < j < pairs.len() ==> (#[trigger] pairs[j]).0 != pairs[k].0
}

/// Whether no pair has this name.
pub open spec fn is_unnamed(pairs: Seq<(Seq<char>, Seq<char>)>, name: Seq<char>) -> bool {
    forall|j: int| 0 <= j < pairs.len() ==> (#[trigger] pairs[j]).0 != name
}

/// The last pair of a name gives it its value.
pub proof fn lemma_last_pair_wins(pairs: Seq<(Seq<char>, Seq<char>)>, k: int)
    requires
        is_last_of_its_name(pairs, k),
    ensures
        crate::fields::fields_map(pairs).dom().contains(pairs[k].0),
        crate::fields::fields_map(pairs)[pairs[k].0] == pairs[k].1,
    decreases pairs.len(),
{
    if k < pairs.len() - 1 {
        let front = pairs.drop_last();
        assert(forall|j: int| 0 <= j < front.len() ==> front[j] == #[trigger] pairs[j]);
        lemma_last_pair_wins(front, k);
        assert(pairs[pairs.len() - 1].0 != pairs[k].0);
    }
}

/// A name of no pair has no value.
pub proof fn lemma_unnamed(pairs: Seq<(Seq<char>, Seq<char>)>, name: Seq<char>)
    requires
        is_unnamed(pairs, name),
    ensures
        !crate::fields::fields_map(pairs).dom().contains(name),
    decreases pairs.len(),
{
    if pairs.len() > 0 {
        let front = pairs.drop_last();
        assert(forall|j: int| 0 <= j < front.len() ==> front[j] == #[trigger] pairs[j]);
        lemma_unnamed(front, name);
        assert(pairs[pairs.len() - 1].0 != name);
    }
}

/// The URI of these pairs and this path, and what is parsed from it.
pub open spec fn is_parsed_from(
    pairs: Seq<(Seq<char>, Seq<char>)>,
    path: Seq<char>,
    uri: &str,
    a: Annotations,
) -> bool {
    &&& pairs.len() > 0
    &&& forall|k: int|
        0 <= k < pairs.len() ==> crate::annotate::writable_pair(#[trigger] pairs[k])
    &&& uri@ == crate::annotate::annotated_uri(pairs, path)
    &&& call_ensures(parse_annotated_uri, (uri,), a)
}

/// Reading a URI that was written from pairs gives each name the value of its
/// last pair, no value to a name without a pair, and the path.
pub proof fn law_annotations_read_back(
    pairs: Seq<(Seq<char>, Seq<char>)>,
    path: Seq<char>,
    uri: &str,
    a: Annotations,
    k: int,
    name: Seq<char>,
)
    requires
        is_parsed_from(pairs, path, uri, a),
    ensures
        a.path@ == path,
        is_last_of_its_name(pairs, k) ==> a.values@.dom().contains(pairs[k].0)
            && a.values@[pairs[k].0] == pairs[k].1,
        is_unnamed(pairs, name) ==> !a.values@.dom().contains(name),
{
    crate::annotate::law_written_uri_reads_back(pairs, path);
    if is_last_of_its_name(pairs, k) {
        lemma_last_pair_wins(pairs, k);
    }
    if is_unnamed(pairs, name) {
        lemma_unnamed(pairs, name);
    }
}

/// A URI that does not begin with `annotate:` is a path as it stands.
pub proof fn law_a_plain_uri_is_a_path(uri: &str, a: Annotations, name: Seq<char>)
    requires
        call_ensures(parse_annotated_uri, (uri,), a),
        uri@.len() < 9 || uri@.take(9) != "annotate:"@,
    ensures
        a.path@ == uri@,
        !a.values@.dom().contains(name),
{
    reveal_strlit("annotate:");
    assert("annotate:"@.len() == 9);
}

/// Each field of a track's metadata is the annotation of its own name, and
/// nothing where there is none.
pub proof fn law_metadata_is_the_annotation_of_its_name(
    pairs: Seq<(Seq<char>, Seq<char>)>,
    path: Seq<char>,
    uri: &str,
    a: Annotations,
    m: TrackMetadata,
    k: int,
)
    requires
        is_parsed_from(pairs, path, uri, a),
        call_ensures(TrackMetadata::from_annotations, (&a,), m),
    ensures
        is_last_of_its_name(pairs, k) ==> {
            &&& pairs[k].0 == "title"@ ==> m@.title == Some(pairs[k].1)
            &&& pairs[k].0 == "artist"@ ==> m@.artist == Some(pairs[k].1)
            &&& pairs[k].0 == "song_id"@ ==> m@.song_id == Some(pairs[k].1)
            &&& pairs[k].0 == "media_id"@ ==> m@.media_id == Some(pairs[k].1)
            &&& pairs[k].0 == "sq_id"@ ==> m@.sq_id == Some(pairs[k].1)
            &&& pairs[k].0 == "playlist_id"@ ==> m@.playlist_id == Some(pairs[k].1)
            &&& pairs[k].0 == "media_unique_id"@ ==> m@.media_unique_id == Some(pairs[k].1)
        },
        is_unnamed(pairs, "title"@) ==> m@.title is None,
        is_unnamed(pairs, "artist"@) ==> m@.artist is None,
        is_unnamed(pairs, "song_id"@) ==> m@.song_id is None,
        is_unnamed(pairs, "media_id"@) ==> m@.media_id is None,
        is_unnamed(pairs, "sq_id"@) ==> m@.sq_id is None,
        is_unnamed(pairs, "playlist_id"@) ==> m@.playlist_id is None,
        is_unnamed(pairs, "media_unique_id"@) ==> m@.media_unique_id is None,
{
    law_annotations_read_back(pairs, path, uri, a, k, "title"@);
    law_annotations_read_back(pairs, path, uri, a, k, "artist"@);
    law_annotations_read_back(pairs, path, uri, a, k, "song_id"@);
    law_annotations_read_back(pairs, path, uri, a, k, "media_id"@);
    law_annotations_read_back(pairs, path, uri, a, k, "sq_id"@);
    law_annotations_read_back(pairs, path, uri, a, k, "playlist_id"@);
    law_annotations_read_back(pairs, path, uri, a, k, "media_unique_id"@);
}

/// Whether two tracks are reported alike.
pub open spec fn agree_on_reported(x: MetadataView, y: MetadataView) -> bool {
    &&& x.title == y.title
    &&& x.artist == y.artist
    &&& x.song_id == y.song_id
    &&& x.media_id == y.media_id
    &&& x.sq_id == y.sq_id
    &&& x.playlist_id == y.playlist_id
}

/// Annotations and overrides mean the same by the same names: a track without
/// metadata that is overridden with the annotations of another is reported as
/// the other is. An override never touches the unique id.
pub proof fn law_overrides_speak_the_language_of_annotations(
    a: Annotations,
    annotated: TrackMetadata,
    empty: TrackMetadata,
    m: &mut TrackMetadata,
)
    requires
        call_ensures(TrackMetadata::from_annotations, (&a,), annotated),
        call_ensures(<TrackMetadata as Default>::default, (), empty),
        call_ensures(TrackMetadata::apply_overrides, (m, &a.values), ()),
    ensures
        *old(m) == empty ==> agree_on_reported(final(m)@, annotated@),
        final(m)@.media_unique_id == old(m)@.media_unique_id,
{
}

/// An override of one name changes the field of that name and no other, and a
/// name that is not reported changes nothing.
pub proof fn law_an_override_changes_its_own_field(
    overrides: TextMap,
    name: Seq<char>,
    value: Seq<char>,
    m: &mut TrackMetadata,
)
    requires
        overrides@ == Map::<Seq<char>, Seq<char>>::empty().insert(name, value),
        call_ensures(TrackMetadata::apply_overrides, (m, &overrides), ()),
    ensures
        name == "title"@ ==> final(m)@ == (MetadataView { title: Some(value), ..old(m)@ }),
        name == "artist"@ ==> final(m)@ == (MetadataView { artist: Some(value), ..old(m)@ }),
        name == "song_id"@ ==> final(m)@ == (MetadataView { song_id: Some(value), ..old(m)@ }),
        name == "media_id"@ ==> final(m)@ == (MetadataView { media_id: Some(value), ..old(m)@ }),
        name == "sq_id"@ ==> final(m)@ == (MetadataView { sq_id: Some(value), ..old(m)@ }),
        name == "playlist_id"@ ==> final(m)@ == (MetadataView {
            playlist_id: Some(value),
            ..old(m)@
        }),
        name != "title"@ && name != "artist"@ && name != "song_id"@ && name != "media_id"@ && name
            != "sq_id"@ && name != "playlist_id"@ ==> final(m)@ == old(m)@,
{
    lemma_metadata_names();
}

/// A pending override is applied once: what was set by name is there in the
/// track's metadata, the rest is as it was, and nothing is pending any more.
pub proof fn law_a_pending_override_reaches_the_track(
    control: &mut ControlSignals,
    m: &mut TrackMetadata,
    changed: bool,
)
    requires
        call_ensures(take_overrides, (control, m), changed),
    ensures
        !changed ==> final(m)@ == old(m)@,
        old(control)@.overrides.dom().contains("title"@) ==> changed && final(m)@.title == Some(
            old(control)@.overrides["title"@],
        ),
        !old(control)@.overrides.dom().contains("title"@) ==> final(m)@.title == old(m)@.title,
        old(control)@.overrides.dom().contains("artist"@) ==> changed && final(m)@.artist == Some(
            old(control)@.overrides["artist"@],
        ),
        !old(control)@.overrides.dom().contains("artist"@) ==> final(m)@.artist
            == old(m)@.artist,
        final(control)@.overrides.dom() =~= Set::<Seq<char>>::empty(),
        final(control)@.skip == old(control)@.skip,
{
    if !changed {
        assert(old(control)@.overrides.dom() =~= Set::<Seq<char>>::empty());
    }
}

// ---------------------------------------------------------------------------
// Feedback.

/// A track has nothing to report exactly where it has no title, no artist, no
/// media id and no song id: any one of them is enough, and its places in queue
/// and playlist are not.
pub proof fn law_any_name_is_enough_to_report(m: TrackMetadata, empty: bool)
    requires
        call_ensures(TrackMetadata::is_empty, (&m,), empty),
    ensures
        m.title is Some ==> !empty,
        m.artist is Some ==> !empty,
        m.media_id is Some ==> !empty,
        m.song_id is Some ==> !empty,
        !empty ==> m.title is Some || m.artist is Some || m.media_id is Some || m.song_id is Some,
{
}

/// A track that is neither filler nor a jingle and has something to report is
/// reported whenever its title differs from the last reported one, and
/// whenever its artist does.
pub proof fn law_a_new_title_or_artist_is_reported<S, N>(
    dedup: FeedbackDedup,
    track: PreparedTrack<S, N>,
    report: Option<FeedbackPayload>,
)
    requires
        call_ensures(FeedbackDedup::report_for::<S, N>, (&dedup, &track), report),
        !track.is_error_file,
        !track.jingle_mode,
        track.metadata.title is Some || track.metadata.artist is Some || track.metadata.media_id
            is Some || track.metadata.song_id is Some,
    ensures
        track.metadata@.title != dedup@.title ==> report is Some,
        track.metadata@.artist != dedup@.artist ==> report is Some,
        track.metadata@.title == dedup@.title && track.metadata@.artist == dedup@.artist ==> report
            is None,
{
}

/// A report says of each field what the track's metadata says of it.
pub proof fn law_a_report_says_what_the_metadata_says<S, N>(
    dedup: FeedbackDedup,
    track: PreparedTrack<S, N>,
    report: Option<FeedbackPayload>,
)
    requires
        call_ensures(FeedbackDedup::report_for::<S, N>, (&dedup, &track), report),
        report is Some,
    ensures
        ({
            let p = report->Some_0;
            &&& crate::text::opt_view(p.title) == track.metadata@.title
            &&& crate::text::opt_view(p.artist) == track.metadata@.artist
            &&& crate::text::opt_view(p.song_id) == track.metadata@.song_id
            &&& crate::text::opt_view(p.media_id) == track.metadata@.media_id
            &&& crate::text::opt_view(p.sq_id) == track.metadata@.sq_id
            &&& crate::text::opt_view(p.playlist_id) == track.metadata@.playlist_id
        }),
        !track.is_error_file,
        !track.jingle_mode,
{
}

/// Nothing is reported before it was tried: a new engine reports the first
/// track with anything to say of it, unless that is neither title nor artist.
pub proof fn law_the_first_track_is_reported<S, N>(
    dedup: FeedbackDedup,
    track: PreparedTrack<S, N>,
    report: Option<FeedbackPayload>,
)
    requires
        call_ensures(FeedbackDedup::new, (), dedup),
        call_ensures(FeedbackDedup::report_for::<S, N>, (&dedup, &track), report),
        !track.is_error_file,
        !track.jingle_mode,
    ensures
        track.metadata.title is Some || track.metadata.artist is Some ==> report is Some,
        track.metadata.title is None && track.metadata.artist is None ==> report is None,
{
}

/// A report that was answered well is not repeated, one that failed is, and a
/// different song is reported after either.
pub proof fn law_a_report_is_repeated_only_where_it_failed<S, N>(
    dedup: &mut FeedbackDedup,
    track: PreparedTrack<S, N>,
    report: Option<FeedbackPayload>,
    ok: bool,
    after: FeedbackDedup,
    again: Option<FeedbackPayload>,
    other: PreparedTrack<S, N>,
    other_report: Option<FeedbackPayload>,
)
    requires
        call_ensures(FeedbackDedup::report_for::<S, N>, (old(dedup), &track), report),
        report is Some,
        call_ensures(FeedbackDedup::report_answered, (dedup, &track.metadata, ok), ()),
        after == *final(dedup),
        call_ensures(FeedbackDedup::report_for::<S, N>, (&after, &track), again),
        call_ensures(FeedbackDedup::report_for::<S, N>, (&after, &other), other_report),
        !other.is_error_file,
        !other.jingle_mode,
        other.metadata.title is Some,
    ensures
        ok ==> again is None,
        !ok ==> again is Some,
        ok && other.metadata@.title != track.metadata@.title ==> other_report is Some,
        ok && other.metadata@.artist != track.metadata@.artist ==> other_report is Some,
{
}

/// Listeners are told the title and the artist of every track that is neither
/// filler nor a jingle, and of no other.
pub proof fn law_listeners_see_the_song<S, N>(
    track: PreparedTrack<S, N>,
    song: Option<NowPlaying>,
)
    requires
        call_ensures(now_playing_for::<S, N>, (&track,), song),
    ensures
        song is None <==> track.is_error_file || track.jingle_mode,
        song is Some ==> song->Some_0@.title == track.metadata@.title && song->Some_0@.artist
            == track.metadata@.artist,
{
}

/// Filler and live audio are played as they are, and neither is ever reported;
/// listeners are told nothing of filler.
pub proof fn law_filler_and_live_audio_are_not_reported<S, N>(
    decoded: crate::decode::DecodedTrack<S, N>,
    filler: PreparedTrack<S, N>,
    live: PreparedTrack<S, N>,
    dedup: FeedbackDedup,
    filler_report: Option<FeedbackPayload>,
    live_report: Option<FeedbackPayload>,
    filler_song: Option<NowPlaying>,
)
    requires
        call_ensures(prepare_fallback_track::<S, N>, (decoded,), filler),
        call_ensures(prepare_live_chunk::<S, N>, (decoded,), live),
        call_ensures(FeedbackDedup::report_for::<S, N>, (&dedup, &filler), filler_report),
        call_ensures(FeedbackDedup::report_for::<S, N>, (&dedup, &live), live_report),
        call_ensures(now_playing_for::<S, N>, (&filler,), filler_song),
    ensures
        filler.decoded == decoded && live.decoded == decoded,
        filler_report is None && live_report is None && filler_song is None,
        live.is_live && !filler.is_live,
        filler.fade_in_override is None && filler.fade_out_override is None && filler.start_next
            is None,
        live.fade_in_override is None && live.fade_out_override is None && live.start_next is None,
{
}

/// A song is shown as its artist, a dash and its title; where one of the two is
/// missing, as the other; and not at all where both are.
pub proof fn law_a_song_is_shown_whole(song: NowPlaying, text: Option<String>)
    requires
        call_ensures(NowPlaying::song_string, (&song,), text),
    ensures
        text is None <==> song.artist is None && song.title is None,
        song.artist is Some && song.title is Some ==> {
            let (t, a, s) = (text->Some_0@, song.artist->Some_0@, song.title->Some_0@);
            &&& t.len() == a.len() + 3 + s.len()
            &&& t.take(a.len() as int) == a
            &&& t.subrange(a.len() as int, a.len() as int + 3) == seq![' ', '-', ' ']
            &&& t.skip(a.len() as int + 3) == s
        },
        song.artist is Some && song.title is None ==> text->Some_0@ == song.artist->Some_0@,
        song.artist is None && song.title is Some ==> text->Some_0@ == song.title->Some_0@,
{
    reveal_strlit(" - ");
    if song.artist is Some && song.title is Some {
        let (t, a, s) = (text->Some_0@, song.artist->Some_0@, song.title->Some_0@);
        assert(t == a + " - "@ + s);
        assert(t.take(a.len() as int) =~= a);
        assert(t.subrange(a.len() as int, a.len() as int + 3) =~= seq![' ', '-', ' ']);
        assert(t.skip(a.len() as int + 3) =~= s);
    }
}

/// Two songs are the same exactly where title and artist both are.
pub proof fn law_songs_differ_by_title_or_artist(x: NowPlaying, y: NowPlaying, same: bool)
    requires
        call_ensures(NowPlaying::same_song, (&x, &y), same),
    ensures
        x@.title != y@.title ==> !same,
        x@.artist != y@.artist ==> !same,
        x@.title == y@.title && x@.artist == y@.artist ==> same,
{
}

// ---------------------------------------------------------------------------
// Annotations that are not well-formed, and copies.

proof fn lemma_annotate_prefix(rest: Seq<char>)
    ensures
        crate::annotate::parsed_uri("annotate:"@ + rest) == crate::annotate::read_pairs(
            rest,
            0,
            Map::empty(),
        ),
{
    let uri = "annotate:"@ + rest;
    assert(uri.take("annotate:"@.len() as int) =~= "annotate:"@);
    assert(uri.skip("annotate:"@.len() as int) =~= rest);
}

/// Text after `annotate:` that is no pair is the path.
pub proof fn law_text_that_is_no_pair_is_the_path(
    uri: &str,
    rest: Seq<char>,
    a: Annotations,
    name: Seq<char>,
)
    requires
        uri@ == "annotate:"@ + rest,
        !rest.contains('='),
        call_ensures(parse_annotated_uri, (uri,), a),
    ensures
        a.path@ == rest,
        !a.values@.dom().contains(name),
{
    lemma_annotate_prefix(rest);
    crate::text::lemma_find_from(rest, '=', 0);
    let at = crate::text::find_from(rest, '=', 0);
    if at < rest.len() {
        assert(rest.contains(rest[at]));
    }
    assert(rest.skip(0) =~= rest);
}

proof fn lemma_unquoted(s: Seq<char>, i: int)
    requires
        0 <= i <= s.len(),
        forall|k: int| i <= k < s.len() ==> (#[trigger] s[k]) != '"',
    ensures
        crate::annotate::read_quoted(s, i) == (s.skip(i), None::<int>),
    decreases s.len() - i,
{
    if i < s.len() {
        lemma_unquoted(s, i + 1);
        assert(s[i] != '"');
        if i + 1 < s.len() {
            assert(s[i + 1] != '"');
        }
        assert(seq![s[i]] + s.skip(i + 1) =~= s.skip(i));
    } else {
        assert(s.skip(i) =~= Seq::<char>::empty());
    }
}

/// A value whose quote is never closed is all that follows it, and there is no
/// path.
pub proof fn law_an_open_quote_takes_the_rest(
    uri: &str,
    key: Seq<char>,
    value: Seq<char>,
    a: Annotations,
)
    requires
        uri@ == "annotate:"@ + (key + seq!['=', '"'] + value),
        !key.contains('='),
        !value.contains('"'),
        call_ensures(parse_annotated_uri, (uri,), a),
    ensures
        a.path@.len() == 0,
        a.values@.dom().contains(key),
        a.values@[key] == value,
{
    let rest = key + seq!['=', '"'] + value;
    lemma_annotate_prefix(rest);
    let eq = key.len() as int;
    assert(rest[eq] == '=' && rest[eq + 1] == '"');
    assert forall|j: int| 0 <= j < eq implies rest[j] != '=' by {
        assert(rest[j] == key[j]);
        assert(key.contains(key[j]));
    }
    crate::text::lemma_find_from_is(rest, '=', 0, eq);
    assert forall|k: int| eq + 2 <= k < rest.len() implies (#[trigger] rest[k]) != '"' by {
        assert(rest[k] == value[k - eq - 2]);
        assert(value.contains(value[k - eq - 2]));
    }
    lemma_unquoted(rest, eq + 2);
    assert(rest.skip(eq + 2) =~= value);
    assert(rest.subrange(0, eq) =~= key);
}

/// A copy says what was copied.
pub proof fn law_copies_are_alike(
    metadata: TrackMetadata,
    metadata_copy: TrackMetadata,
    song: NowPlaying,
    song_copy: NowPlaying,
    text: Option<String>,
    text_copy: Option<String>,
    other: Option<String>,
    same: bool,
)
    requires
        call_ensures(<TrackMetadata as Clone>::clone, (&metadata,), metadata_copy),
        call_ensures(<NowPlaying as Clone>::clone, (&song,), song_copy),
        call_ensures(crate::output::clone_text, (&text,), text_copy),
        call_ensures(crate::output::same_opt_text, (&text, &other), same),
    ensures
        metadata_copy@ == metadata@,
        song_copy@ == song@,
        crate::text::opt_view(text_copy) == crate::text::opt_view(text),
        text is None ==> (same <==> other is None),
        text is Some ==> (same <==> other is Some && other->Some_0@ == text->Some_0@),
{
}

/// Nothing is known before anything was said.
pub proof fn law_defaults_say_nothing(
    metadata: TrackMetadata,
    empty: bool,
    song: NowPlaying,
    text: Option<String>,
    dedup: FeedbackDedup,
    payload: FeedbackPayload,
    auth: crate::callbacks::DjAuthResponse,
)
    requires
        call_ensures(<TrackMetadata as Default>::default, (), metadata),
        call_ensures(TrackMetadata::is_empty, (&metadata,), empty),
        call_ensures(<NowPlaying as Default>::default, (), song),
        call_ensures(NowPlaying::song_string, (&song,), text),
        call_ensures(<FeedbackDedup as Default>::default, (), dedup),
        call_ensures(<FeedbackPayload as Default>::default, (), payload),
        call_ensures(<crate::callbacks::DjAuthResponse as Default>::default, (), auth),
    ensures
        empty,
        metadata.sq_id is None && metadata.playlist_id is None && metadata.media_unique_id is None,
        text is None,
        dedup.last_title is None && dedup.last_artist is None,
        payload.title is None && payload.artist is None && payload.song_id is None
            && payload.media_id is None && payload.sq_id is None && payload.playlist_id is None,
        !auth.allow && auth.username is None && auth.display_name is None,
{
}

/// An override goes by name: each reported field has the value that the
/// override has under the field's name, and keeps its own where there is none.
pub proof fn law_overrides_go_by_name(overrides: TextMap, m: &mut TrackMetadata)
    requires
        call_ensures(TrackMetadata::apply_overrides, (m, &overrides), ()),
    ensures
        forall|name: Seq<char>| #[trigger]
            overrides@.dom().contains(name) ==> {
                &&& name == "title"@ ==> final(m)@.title == Some(overrides@[name])
                &&& name == "artist"@ ==> final(m)@.artist == Some(overrides@[name])
                &&& name == "song_id"@ ==> final(m)@.song_id == Some(overrides@[name])
                &&& name == "media_id"@ ==> final(m)@.media_id == Some(overrides@[name])
                &&& name == "sq_id"@ ==> final(m)@.sq_id == Some(overrides@[name])
                &&& name == "playlist_id"@ ==> final(m)@.playlist_id == Some(overrides@[name])
            },
        !overrides@.dom().contains("title"@) ==> final(m)@.title == old(m)@.title,
        !overrides@.dom().contains("artist"@) ==> final(m)@.artist == old(m)@.artist,
        !overrides@.dom().contains("song_id"@) ==> final(m)@.song_id == old(m)@.song_id,
        !overrides@.dom().contains("media_id"@) ==> final(m)@.media_id == old(m)@.media_id,
        !overrides@.dom().contains("sq_id"@) ==> final(m)@.sq_id == old(m)@.sq_id,
        !overrides@.dom().contains("playlist_id"@) ==> final(m)@.playlist_id
            == old(m)@.playlist_id,
{
}

/// Taking a pending override is applying it.
pub proof fn law_taking_an_override_is_applying_it(
    control: &mut ControlSignals,
    taken: &mut TrackMetadata,
    changed: bool,
    overrides: TextMap,
    applied: &mut TrackMetadata,
)
    requires
        call_ensures(take_overrides, (control, taken), changed),
        overrides@ == old(control)@.overrides,
        old(applied)@ == old(taken)@,
        call_ensures(TrackMetadata::apply_overrides, (applied, &overrides), ()),
    ensures
        final(taken)@ == final(applied)@,
{
}

} // verus!
