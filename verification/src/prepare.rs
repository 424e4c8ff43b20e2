//! Tracks that are ready to be played: cut to their cue points, at their
//! volume, with the metadata that is reported of them.

use vstd::prelude::*;

use crate::annotate::Annotations;
use crate::decode::{parse_leading_number, DecodedTrack};
use crate::fields::TextMap;
use crate::output::clone_text;

verus! {

broadcast use vstd::string::group_string_axioms;

// ---------------------------------------------------------------------------
// Metadata.

/// What is reported of a track.
#[derive(Debug)]
pub struct TrackMetadata {
    pub title: Option<String>,
    pub artist: Option<String>,
    pub song_id: Option<String>,
    pub media_id: Option<String>,
    pub sq_id: Option<String>,
    pub playlist_id: Option<String>,
    /// The unique id of the media file; not part of what is reported.
    pub media_unique_id: Option<String>,
}

/// Metadata as mathematical texts.
pub struct MetadataView {
    pub title: Option<Seq<char>>,
    pub artist: Option<Seq<char>>,
    pub song_id: Option<Seq<char>>,
    pub media_id: Option<Seq<char>>,
    pub sq_id: Option<Seq<char>>,
    pub playlist_id: Option<Seq<char>>,
    pub media_unique_id: Option<Seq<char>>,
}

impl View for TrackMetadata {
    type V = MetadataView;

    open spec fn view(&self) -> MetadataView {
        MetadataView {
            title: crate::text::opt_view(self.title),
            artist: crate::text::opt_view(self.artist),
            song_id: crate::text::opt_view(self.song_id),
            media_id: crate::text::opt_view(self.media_id),
            sq_id: crate::text::opt_view(self.sq_id),
            playlist_id: crate::text::opt_view(self.playlist_id),
            media_unique_id: crate::text::opt_view(self.media_unique_id),
        }
    }
}

/// No metadata at all.
pub open spec fn no_metadata() -> MetadataView {
    MetadataView {
        title: None,
        artist: None,
        song_id: None,
        media_id: None,
        sq_id: None,
        playlist_id: None,
        media_unique_id: None,
    }
}

impl Default for TrackMetadata {
    fn default() -> (m: TrackMetadata)
        ensures
            m@ == no_metadata(),
    {
        TrackMetadata {
            title: None,
            artist: None,
            song_id: None,
            media_id: None,
            sq_id: None,
            playlist_id: None,
            media_unique_id: None,
        }
    }
}

impl Clone for TrackMetadata {
    fn clone(&self) -> (m: TrackMetadata)
        ensures
            m == *self,
    {
        TrackMetadata {
            title: clone_text(&self.title),
            artist: clone_text(&self.artist),
            song_id: clone_text(&self.song_id),
            media_id: clone_text(&self.media_id),
            sq_id: clone_text(&self.sq_id),
            playlist_id: clone_text(&self.playlist_id),
            media_unique_id: clone_text(&self.media_unique_id),
        }
    }
}

/// The metadata that annotations name.
pub open spec fn metadata_in(values: Map<Seq<char>, Seq<char>>) -> MetadataView {
    MetadataView {
        title: crate::fields::lookup(values, "title"@),
        artist: crate::fields::lookup(values, "artist"@),
        song_id: crate::fields::lookup(values, "song_id"@),
        media_id: crate::fields::lookup(values, "media_id"@),
        sq_id: crate::fields::lookup(values, "sq_id"@),
        playlist_id: crate::fields::lookup(values, "playlist_id"@),
        media_unique_id: crate::fields::lookup(values, "media_unique_id"@),
    }
}

/// The value of a name, or else what there was.
pub open spec fn overridden(
    overrides: Map<Seq<char>, Seq<char>>,
    name: Seq<char>,
    before: Option<Seq<char>>,
) -> Option<Seq<char>> {
    if overrides.dom().contains(name) {
        Some(overrides[name])
    } else {
        before
    }
}

/// Metadata with overrides applied: the six fields that are reported take
/// their new values, name by name, and everything else stays.
pub open spec fn with_overrides(
    before: MetadataView,
    overrides: Map<Seq<char>, Seq<char>>,
) -> MetadataView {
    MetadataView {
        title: overridden(overrides, "title"@, before.title),
        artist: overridden(overrides, "artist"@, before.artist),
        song_id: overridden(overrides, "song_id"@, before.song_id),
        media_id: overridden(overrides, "media_id"@, before.media_id),
        sq_id: overridden(overrides, "sq_id"@, before.sq_id),
        playlist_id: overridden(overrides, "playlist_id"@, before.playlist_id),
        media_unique_id: before.media_unique_id,
    }
}

/// Overrides one field.
fn override_field(field: &mut Option<String>, overrides: &TextMap, name: &str)
    ensures
        crate::text::opt_view(*final(field)) == overridden(
            overrides@,
            name@,
            crate::text::opt_view(*old(field)),
        ),
{
    match overrides.get(name) {
        Some(value) => {
            *field = Some(value.to_owned());
        },
        None => {},
    }
}

impl TrackMetadata {
    /// The metadata that annotations name.
    pub fn from_annotations(a: &Annotations) -> (m: TrackMetadata)
        ensures
            m@ == metadata_in(a.values@),
    {
        TrackMetadata {
            title: a.values.get_owned("title"),
            artist: a.values.get_owned("artist"),
            song_id: a.values.get_owned("song_id"),
            media_id: a.values.get_owned("media_id"),
            sq_id: a.values.get_owned("sq_id"),
            playlist_id: a.values.get_owned("playlist_id"),
            media_unique_id: a.values.get_owned("media_unique_id"),
        }
    }

    /// Whether there is nothing to report: no title, no artist, no media id and
    /// no song id.
    pub fn is_empty(&self) -> (empty: bool)
        ensures
            empty == nothing_to_report(self@),
    {
        self.title.is_none() && self.artist.is_none() && self.media_id.is_none()
            && self.song_id.is_none()
    }

    /// Applies a metadata override. New values win over what there was; names
    /// that are not reported are ignored.
    pub fn apply_overrides(&mut self, overrides: &TextMap)
        ensures
            final(self)@ == with_overrides(old(self)@, overrides@),
    {
        override_field(&mut self.title, overrides, "title");
        override_field(&mut self.artist, overrides, "artist");
        override_field(&mut self.song_id, overrides, "song_id");
        override_field(&mut self.media_id, overrides, "media_id");
        override_field(&mut self.sq_id, overrides, "sq_id");
        override_field(&mut self.playlist_id, overrides, "playlist_id");
    }
}

/// Whether there is nothing to report.
pub open spec fn nothing_to_report(m: MetadataView) -> bool {
    m.title is None && m.artist is None && m.media_id is None && m.song_id is None
}

/// Applying an override twice is the same as applying it once, and an empty
/// override changes nothing.
pub proof fn law_overrides_are_idempotent(
    before: MetadataView,
    overrides: Map<Seq<char>, Seq<char>>,
)
    ensures
        with_overrides(with_overrides(before, overrides), overrides) == with_overrides(
            before,
            overrides,
        ),
        with_overrides(before, Map::empty()) == before,
{
}

/// Applying two overrides one after the other is the same as applying what
/// they accumulate to.
pub proof fn law_overrides_apply_in_order(
    before: MetadataView,
    first: Map<Seq<char>, Seq<char>>,
    second: Map<Seq<char>, Seq<char>>,
)
    ensures
        with_overrides(with_overrides(before, first), second) == with_overrides(
            before,
            first.union_prefer_right(second),
        ),
{
}

// ---------------------------------------------------------------------------
// Preparing.

/// A track that is ready to be played.
#[derive(Debug, Clone)]
pub struct PreparedTrack<S, N> {
    pub decoded: DecodedTrack<S, N>,
    pub metadata: TrackMetadata,
    /// A jingle: it plays, and nothing is reported of it.
    pub jingle_mode: bool,
    /// Filler for when nothing else can be played: nothing is reported of it
    /// either.
    pub is_error_file: bool,
    /// The track's own fade-in, in seconds.
    pub fade_in_override: Option<N>,
    /// The track's own fade-out, in seconds.
    pub fade_out_override: Option<N>,
    /// When the next track may start, in seconds from this one's start.
    pub start_next: Option<N>,
    /// Whether this is a chunk of the live source.
    pub is_live: bool,
}

/// The annotation that switches cue points on.
pub open spec fn has_autocue(values: Map<Seq<char>, Seq<char>>) -> bool {
    crate::fields::lookup(values, "azuracast_autocue"@) == Some("true"@)
}

/// The numbers among a track's annotations, still as text.
#[derive(Debug)]
pub struct NumberTexts {
    pub cue_in: Option<String>,
    pub cue_out: Option<String>,
    pub fade_in: Option<String>,
    pub fade_out: Option<String>,
    pub start_next: Option<String>,
    /// The gain to apply, in dB.
    pub amplify: Option<String>,
    /// The replay gain, in dB.
    pub replaygain: Option<String>,
}

/// The value of a name without the white space around it.
pub open spec fn trimmed_value(values: Map<Seq<char>, Seq<char>>, name: Seq<char>) -> Option<
    Seq<char>,
> {
    match crate::fields::lookup(values, name) {
        Some(v) => Some(crate::text::trim(v)),
        None => None,
    }
}

/// The same, if cue points are on.
pub open spec fn cue_value(values: Map<Seq<char>, Seq<char>>, name: Seq<char>) -> Option<Seq<char>> {
    if has_autocue(values) {
        trimmed_value(values, name)
    } else {
        None
    }
}

/// The number at the start of a track's own gain.
pub open spec fn gain_value(values: Map<Seq<char>, Seq<char>>) -> Option<Seq<char>> {
    match crate::fields::lookup(values, "liq_amplify"@) {
        Some(text) => crate::decode::leading_number(text),
        None => None,
    }
}

/// Collects the numbers among a track's annotations. Cue points count only
/// where they are switched on; of the gain only the number at its start does.
pub fn number_texts(annotations: &Annotations) -> (texts: NumberTexts)
    ensures
        ({
            let values = annotations.values@;
            &&& crate::text::opt_view(texts.cue_in) == cue_value(values, "autocue_cue_in"@)
            &&& crate::text::opt_view(texts.cue_out) == cue_value(values, "autocue_cue_out"@)
            &&& crate::text::opt_view(texts.fade_in) == cue_value(values, "autocue_fade_in"@)
            &&& crate::text::opt_view(texts.fade_out) == cue_value(values, "autocue_fade_out"@)
            &&& crate::text::opt_view(texts.start_next) == cue_value(values, "autocue_start_next"@)
            &&& crate::text::opt_view(texts.amplify) == gain_value(values)
            &&& crate::text::opt_view(texts.replaygain) == trimmed_value(
                values,
                "replaygain_track_gain"@,
            )
        }),
{
    let amplify = match annotations.get("liq_amplify") {
        Some(text) => parse_leading_number(text),
        None => None,
    };
    let replaygain = annotations.get_trimmed("replaygain_track_gain");
    if annotations.get_bool("azuracast_autocue") {
        NumberTexts {
            cue_in: annotations.get_trimmed("autocue_cue_in"),
            cue_out: annotations.get_trimmed("autocue_cue_out"),
            fade_in: annotations.get_trimmed("autocue_fade_in"),
            fade_out: annotations.get_trimmed("autocue_fade_out"),
            start_next: annotations.get_trimmed("autocue_start_next"),
            amplify,
            replaygain,
        }
    } else {
        NumberTexts {
            cue_in: None,
            cue_out: None,
            fade_in: None,
            fade_out: None,
            start_next: None,
            amplify,
            replaygain,
        }
    }
}

/// The numbers among a track's annotations, as read: times in seconds, gains
/// in dB.
#[derive(Debug, Clone, Copy)]
pub struct GivenNumbers<N> {
    pub cue_in: Option<N>,
    pub cue_out: Option<N>,
    pub fade_in: Option<N>,
    pub fade_out: Option<N>,
    pub start_next: Option<N>,
    pub amplify: Option<N>,
    pub replaygain: Option<N>,
}

/// What a track is prepared with: its cue points as frames, the rest as given.
#[derive(Debug, Clone, Copy)]
pub struct TrackNumbers<N> {
    /// The frame that the track starts at.
    pub start_frame: usize,
    /// The frame that the track ends before.
    pub end_frame: usize,
    pub fade_in: Option<N>,
    pub fade_out: Option<N>,
    /// When the next track may start, counted from the first cue point.
    pub start_next: Option<N>,
    pub amplify: Option<N>,
    pub replaygain: Option<N>,
}

/// Whether `number` is what the caller reads in a text; no text is no number.
pub open spec fn is_read<N, P: Fn(&str) -> Option<N>>(
    parse: P,
    text: Option<Seq<char>>,
    number: Option<N>,
) -> bool {
    match text {
        None => number is None,
        Some(t) => exists|s: &str| s@ == t && #[trigger] call_ensures(parse, (s,), number),
    }
}

/// Whether these are the numbers that the caller reads in the annotations of a
/// track.
pub open spec fn is_given<N, P: Fn(&str) -> Option<N>>(
    parse: P,
    values: Map<Seq<char>, Seq<char>>,
    given: GivenNumbers<N>,
) -> bool {
    &&& is_read(parse, cue_value(values, "autocue_cue_in"@), given.cue_in)
    &&& is_read(parse, cue_value(values, "autocue_cue_out"@), given.cue_out)
    &&& is_read(parse, cue_value(values, "autocue_fade_in"@), given.fade_in)
    &&& is_read(parse, cue_value(values, "autocue_fade_out"@), given.fade_out)
    &&& is_read(parse, cue_value(values, "autocue_start_next"@), given.start_next)
    &&& is_read(parse, gain_value(values), given.amplify)
    &&& is_read(parse, trimmed_value(values, "replaygain_track_gain"@), given.replaygain)
}

/// Reads one number.
fn read_number<N, P: Fn(&str) -> Option<N>>(text: &Option<String>, parse: &P) -> (number: Option<N>)
    requires
        forall|s: &str| #[trigger] call_requires(*parse, (s,)),
    ensures
        is_read(*parse, crate::text::opt_view(*text), number),
{
    match text {
        Some(t) => {
            let s = t.as_str();
            let number = parse(s);
            assert(s@ == t@ && call_ensures(*parse, (s,), number));
            number
        },
        None => None,
    }
}

/// Reads the numbers among a track's annotations from their texts. What number
/// a text is, if any, is the caller's to say.
pub fn given_numbers<N, P: Fn(&str) -> Option<N>>(texts: &NumberTexts, parse: &P) -> (given:
    GivenNumbers<N>)
    requires
        forall|s: &str| #[trigger] call_requires(*parse, (s,)),
    ensures
        is_read(*parse, crate::text::opt_view(texts.cue_in), given.cue_in),
        is_read(*parse, crate::text::opt_view(texts.cue_out), given.cue_out),
        is_read(*parse, crate::text::opt_view(texts.fade_in), given.fade_in),
        is_read(*parse, crate::text::opt_view(texts.fade_out), given.fade_out),
        is_read(*parse, crate::text::opt_view(texts.start_next), given.start_next),
        is_read(*parse, crate::text::opt_view(texts.amplify), given.amplify),
        is_read(*parse, crate::text::opt_view(texts.replaygain), given.replaygain),
{
    GivenNumbers {
        cue_in: read_number(&texts.cue_in, parse),
        cue_out: read_number(&texts.cue_out, parse),
        fade_in: read_number(&texts.fade_in, parse),
        fade_out: read_number(&texts.fade_out, parse),
        start_next: read_number(&texts.start_next, parse),
        amplify: read_number(&texts.amplify, parse),
        replaygain: read_number(&texts.replaygain, parse),
    }
}

/// A number that is given, or another one.
pub open spec fn given_or<N>(given: Option<N>, otherwise: N) -> N {
    match given {
        Some(n) => n,
        None => otherwise,
    }
}

/// Whether `cue` is the first cue point: the given one, or the start of the
/// track, moved into the track.
pub open spec fn is_cue_in<N, C: Fn(N, N, N) -> N, G: Fn(N, N) -> N>(
    clamp: C,
    greater: G,
    given: Option<N>,
    zero: N,
    duration: N,
    cue: N,
) -> bool {
    exists|end: N|
        #![trigger call_ensures(greater, (duration, zero), end)]
        call_ensures(greater, (duration, zero), end) && call_ensures(
            clamp,
            (given_or(given, zero), zero, end),
            cue,
        )
}

/// Whether `cue` is the last cue point: the given one, or the end of the
/// track, neither past the end nor before the first cue point.
pub open spec fn is_cue_out<N, L: Fn(N, N) -> N, G: Fn(N, N) -> N>(
    lesser: L,
    greater: G,
    given: Option<N>,
    duration: N,
    cue_in: N,
    cue: N,
) -> bool {
    exists|bounded: N|
        #![trigger call_ensures(lesser, (given_or(given, duration), duration), bounded)]
        call_ensures(lesser, (given_or(given, duration), duration), bounded) && call_ensures(
            greater,
            (bounded, cue_in),
            cue,
        )
}

/// Whether `counted` is the time `given`, counted from `start` and not
/// negative.
pub open spec fn is_counted_from<N, M: Fn(N, N) -> N, G: Fn(N, N) -> N>(
    minus: M,
    greater: G,
    given: Option<N>,
    start: N,
    zero: N,
    counted: Option<N>,
) -> bool {
    match (given, counted) {
        (None, None) => true,
        (Some(given), Some(counted)) => exists|rest: N|
            #![trigger call_ensures(minus, (given, start), rest)]
            call_ensures(minus, (given, start), rest) && call_ensures(
                greater,
                (rest, zero),
                counted,
            ),
        _ => false,
    }
}

/// Whether `numbers` has the given cue points as frames.
pub open spec fn is_cued<
    N,
    C: Fn(N, N, N) -> N,
    L: Fn(N, N) -> N,
    G: Fn(N, N) -> N,
    M: Fn(N, N) -> N,
    F: Fn(N, u32) -> usize,
>(
    clamp: C,
    lesser: L,
    greater: G,
    minus: M,
    to_frames: F,
    given: GivenNumbers<N>,
    zero: N,
    duration: N,
    sample_rate: u32,
    numbers: TrackNumbers<N>,
) -> bool {
    exists|cue_in: N, cue_out: N|
        #![trigger is_cue_in(clamp, greater, given.cue_in, zero, duration, cue_in), is_cue_out(lesser, greater, given.cue_out, duration, cue_in, cue_out)]
        {
            &&& is_cue_in(clamp, greater, given.cue_in, zero, duration, cue_in)
            &&& is_cue_out(lesser, greater, given.cue_out, duration, cue_in, cue_out)
            &&& call_ensures(to_frames, (cue_in, sample_rate), numbers.start_frame)
            &&& call_ensures(to_frames, (cue_out, sample_rate), numbers.end_frame)
            &&& is_counted_from(
                minus,
                greater,
                given.start_next,
                cue_in,
                zero,
                numbers.start_next,
            )
        }
}

/// The caller's function of two numbers accepts all of them.
pub open spec fn accepts_pairs<N, F: Fn(N, N) -> N>(f: F) -> bool {
    forall|x: N, y: N| #[trigger] call_requires(f, (x, y))
}

/// Turns the given numbers into those that a track of `duration` seconds is
/// prepared with. The arithmetic on them is the caller's: `clamp` moves a
/// number into a range, `lesser` and `greater` pick one of two, `minus`
/// subtracts, and `to_frames` counts the frames in a number of seconds at a
/// sample rate.
pub fn track_numbers<
    N: Copy,
    C: Fn(N, N, N) -> N,
    L: Fn(N, N) -> N,
    G: Fn(N, N) -> N,
    M: Fn(N, N) -> N,
    F: Fn(N, u32) -> usize,
>(
    given: &GivenNumbers<N>,
    zero: N,
    duration: N,
    sample_rate: u32,
    clamp: &C,
    lesser: &L,
    greater: &G,
    minus: &M,
    to_frames: &F,
) -> (numbers: TrackNumbers<N>)
    requires
        forall|x: N, y: N|
            call_ensures(*greater, (duration, zero), y) ==> #[trigger] call_requires(
                *clamp,
                (x, zero, y),
            ),
        accepts_pairs(*lesser),
        accepts_pairs(*greater),
        accepts_pairs(*minus),
        forall|x: N, rate: u32| #[trigger] call_requires(*to_frames, (x, rate)),
    ensures
        is_cued(
            *clamp,
            *lesser,
            *greater,
            *minus,
            *to_frames,
            *given,
            zero,
            duration,
            sample_rate,
            numbers,
        ),
        numbers.fade_in == given.fade_in,
        numbers.fade_out == given.fade_out,
        numbers.amplify == given.amplify,
        numbers.replaygain == given.replaygain,
{
    let end = greater(duration, zero);
    let first = match given.cue_in {
        Some(n) => n,
        None => zero,
    };
    let cue_in = clamp(first, zero, end);
    let last = match given.cue_out {
        Some(n) => n,
        None => duration,
    };
    let bounded = lesser(last, duration);
    let cue_out = greater(bounded, cue_in);
    let start_next = match given.start_next {
        Some(n) => {
            let rest = minus(n, cue_in);
            Some(greater(rest, zero))
        },
        None => None,
    };
    let numbers = TrackNumbers {
        start_frame: to_frames(cue_in, sample_rate),
        end_frame: to_frames(cue_out, sample_rate),
        fade_in: given.fade_in,
        fade_out: given.fade_out,
        start_next,
        amplify: given.amplify,
        replaygain: given.replaygain,
    };
    assert(is_cue_in(*clamp, *greater, given.cue_in, zero, duration, cue_in));
    assert(is_cue_out(*lesser, *greater, given.cue_out, duration, cue_in, cue_out));
    numbers
}

/// The samples between two cue points, both clamped to the track. Where
/// nothing would be left, the samples stay as they are.
pub open spec fn between_cues<S>(samples: Seq<S>, channels: usize, start: nat, end: nat) -> Seq<S> {
    let frames = crate::crossfade::frames_in(samples.len(), channels);
    let s = crate::crossfade::least(start, frames);
    let e = crate::crossfade::least(end, frames);
    if e > s {
        samples.subrange(s * channels, e * channels)
    } else {
        samples
    }
}

/// Cuts a track to its cue points.
fn cut_to_cues<S: Copy>(samples: Vec<S>, channels: usize, start: usize, end: usize) -> (out: Vec<S>)
    requires
        channels > 0,
    ensures
        out@ == between_cues(samples@, channels, start as nat, end as nat),
{
    let frames = samples.len() / channels;
    let s = if start < frames {
        start
    } else {
        frames
    };
    let e = if end < frames {
        end
    } else {
        frames
    };
    if e <= s {
        return samples;
    }
    proof {
        vstd::arithmetic::div_mod::lemma_fundamental_div_mod(samples@.len() as int, channels as int);
    }
    assert(0 <= s * channels <= e * channels <= samples@.len()) by (nonlinear_arith)
        requires
            0 <= s < e <= frames,
            channels * frames <= samples@.len(),
            channels > 0,
    ;
    let from = s * channels;
    let to = e * channels;
    let mut out: Vec<S> = Vec::new();
    let mut i: usize = from;
    while i < to
        invariant
            from <= i <= to <= samples@.len(),
            out@ == samples@.subrange(from as int, i as int),
        decreases to - i,
    {
        out.push(samples[i]);
        i += 1;
    }
    out
}

/// Whether `after` is `before` with a gain applied to every sample; without a
/// gain it is `before`.
pub open spec fn is_gained<S, N, L, T: Fn(N) -> L, G: Fn(S, L) -> S>(
    to_linear: T,
    scale: G,
    before: Seq<S>,
    db: Option<N>,
    after: Seq<S>,
) -> bool {
    match db {
        None => after == before,
        Some(db) => exists|linear: L|
            #![trigger call_ensures(to_linear, (db,), linear)]
            call_ensures(to_linear, (db,), linear) && is_scaled(scale, before, linear, after),
    }
}

/// Whether `after` is `before` with every sample scaled.
pub open spec fn is_scaled<S, L, G: Fn(S, L) -> S>(
    scale: G,
    before: Seq<S>,
    linear: L,
    after: Seq<S>,
) -> bool {
    &&& after.len() == before.len()
    &&& forall|i: int|
        0 <= i < after.len() ==> call_ensures(scale, (before[i], linear), #[trigger] after[i])
}

/// The caller's conversion accepts every number of dB.
pub open spec fn conversion_is_total<N, L, T: Fn(N) -> L>(to_linear: T) -> bool {
    forall|db: N| #[trigger] call_requires(to_linear, (db,))
}

/// The caller's scaling accepts every sample and gain.
pub open spec fn scaling_is_total<S, L, G: Fn(S, L) -> S>(scale: G) -> bool {
    forall|s: S, l: L| #[trigger] call_requires(scale, (s, l))
}

/// Applies a gain, if there is one.
pub fn apply_gain<S: Copy, N: Copy, L: Copy, T: Fn(N) -> L, G: Fn(S, L) -> S>(
    samples: Vec<S>,
    db: Option<N>,
    to_linear: &T,
    scale: &G,
) -> (out: Vec<S>)
    requires
        conversion_is_total::<N, L, T>(*to_linear),
        scaling_is_total::<S, L, G>(*scale),
    ensures
        is_gained(*to_linear, *scale, samples@, db, out@),
{
    match db {
        None => samples,
        Some(db) => {
            let linear = to_linear(db);
            let mut out: Vec<S> = Vec::new();
            let mut i: usize = 0;
            while i < samples.len()
                invariant
                    scaling_is_total::<S, L, G>(*scale),
                    i <= samples@.len(),
                    out@.len() == i,
                    forall|k: int|
                        0 <= k < i ==> call_ensures(
                            *scale,
                            (samples@[k], linear),
                            #[trigger] out@[k],
                        ),
                decreases samples@.len() - i,
            {
                out.push(scale(samples[i], linear));
                i += 1;
            }
            assert(is_scaled(*scale, samples@, linear, out@));
            assert(call_ensures(*to_linear, (db,), linear));
            out
        },
    }
}

/// The replay gain of a track: what its annotations say goes before what its
/// file says, and neither counts where replay gain is off.
pub open spec fn chosen_replaygain<N>(
    enabled: bool,
    annotated: Option<N>,
    tagged: Option<N>,
) -> Option<N> {
    if !enabled {
        None
    } else if annotated is Some {
        annotated
    } else {
        tagged
    }
}

/// The part of a track that is played: what lies between its cue points, if
/// those are on.
pub open spec fn played_part<S, N>(
    decoded: DecodedTrack<S, N>,
    cued: bool,
    numbers: TrackNumbers<N>,
) -> Seq<S> {
    if cued {
        between_cues(
            decoded.samples@,
            decoded.channels as usize,
            numbers.start_frame as nat,
            numbers.end_frame as nat,
        )
    } else {
        decoded.samples@
    }
}

/// Whether `after` is `before` with two gains applied, one after the other.
pub open spec fn is_gained_twice<S, N, L, T: Fn(N) -> L, G: Fn(S, L) -> S>(
    to_linear: T,
    scale: G,
    before: Seq<S>,
    first: Option<N>,
    second: Option<N>,
    after: Seq<S>,
) -> bool {
    exists|amplified: Seq<S>|
        #![trigger is_gained(to_linear, scale, before, first, amplified)]
        is_gained(to_linear, scale, before, first, amplified) && is_gained(
            to_linear,
            scale,
            amplified,
            second,
            after,
        )
}

/// Whether `track` is a decoded track, prepared with these numbers.
pub open spec fn is_prepared<S, N, L, T: Fn(N) -> L, G: Fn(S, L) -> S>(
    to_linear: T,
    scale: G,
    decoded: DecodedTrack<S, N>,
    values: Map<Seq<char>, Seq<char>>,
    replaygain_enabled: bool,
    numbers: TrackNumbers<N>,
    track: PreparedTrack<S, N>,
) -> bool {
    let cued = has_autocue(values);
    &&& is_gained_twice(
        to_linear,
        scale,
        played_part(decoded, cued, numbers),
        numbers.amplify,
        chosen_replaygain(
            replaygain_enabled,
            numbers.replaygain,
            decoded.replaygain_track_gain_db,
        ),
        track.decoded.samples@,
    )
    &&& track.decoded.sample_rate == decoded.sample_rate
    &&& track.decoded.channels == decoded.channels
    &&& track.decoded.replaygain_track_gain_db == decoded.replaygain_track_gain_db
    &&& track.metadata@ == metadata_in(values)
    &&& track.jingle_mode == (crate::fields::lookup(values, "jingle_mode"@) == Some("true"@))
    &&& track.fade_in_override == if cued {
        numbers.fade_in
    } else {
        None
    }
    &&& track.fade_out_override == if cued {
        numbers.fade_out
    } else {
        None
    }
    &&& track.start_next == if cued {
        numbers.start_next
    } else {
        None
    }
    &&& !track.is_error_file
    &&& !track.is_live
}

/// Prepares a decoded track: cuts it to its cue points, if those are on, and
/// applies its own gain and then its replay gain.
pub fn prepare_track<S: Copy, N: Copy, L: Copy, T: Fn(N) -> L, G: Fn(S, L) -> S>(
    decoded: DecodedTrack<S, N>,
    annotations: &Annotations,
    replaygain_enabled: bool,
    numbers: TrackNumbers<N>,
    to_linear: &T,
    scale: &G,
) -> (track: PreparedTrack<S, N>)
    requires
        has_autocue(annotations.values@) ==> decoded.channels > 0,
        conversion_is_total::<N, L, T>(*to_linear),
        scaling_is_total::<S, L, G>(*scale),
    ensures
        is_prepared(
            *to_linear,
            *scale,
            decoded,
            annotations.values@,
            replaygain_enabled,
            numbers,
            track,
        ),
{
    let sample_rate = decoded.sample_rate;
    let channels = decoded.channels;
    let tagged = decoded.replaygain_track_gain_db;
    let cued = annotations.get_bool("azuracast_autocue");
    let cut = if cued {
        cut_to_cues(
            decoded.samples,
            channels as usize,
            numbers.start_frame,
            numbers.end_frame,
        )
    } else {
        decoded.samples
    };
    let ghost cut_samples = cut@;
    let amplified = apply_gain(cut, numbers.amplify, to_linear, scale);
    let ghost amplified_samples = amplified@;
    let replaygain = if !replaygain_enabled {
        None
    } else if numbers.replaygain.is_some() {
        numbers.replaygain
    } else {
        tagged
    };
    let samples = apply_gain(amplified, replaygain, to_linear, scale);
    assert(cut_samples == played_part(decoded, cued, numbers));
    assert(is_gained(*to_linear, *scale, cut_samples, numbers.amplify, amplified_samples));
    PreparedTrack {
        decoded: DecodedTrack { samples, sample_rate, channels, replaygain_track_gain_db: tagged },
        metadata: TrackMetadata::from_annotations(annotations),
        jingle_mode: annotations.get_bool("jingle_mode"),
        is_error_file: false,
        fade_in_override: if cued {
            numbers.fade_in
        } else {
            None
        },
        fade_out_override: if cued {
            numbers.fade_out
        } else {
            None
        },
        start_next: if cued {
            numbers.start_next
        } else {
            None
        },
        is_live: false,
    }
}

/// Whether these are the numbers that a track is prepared with: what was given,
/// and the cue points, if those are on, as frames of this track.
pub open spec fn is_numbered<
    S,
    N,
    Q: Fn(usize, u32) -> N,
    C: Fn(N, N, N) -> N,
    A: Fn(N, N) -> N,
    B: Fn(N, N) -> N,
    M: Fn(N, N) -> N,
    F: Fn(N, u32) -> usize,
>(
    seconds: Q,
    clamp: C,
    lesser: A,
    greater: B,
    minus: M,
    to_frames: F,
    zero: N,
    decoded: DecodedTrack<S, N>,
    cued: bool,
    given: GivenNumbers<N>,
    numbers: TrackNumbers<N>,
) -> bool {
    &&& numbers.fade_in == given.fade_in
    &&& numbers.fade_out == given.fade_out
    &&& numbers.amplify == given.amplify
    &&& numbers.replaygain == given.replaygain
    &&& cued ==> exists|duration: N|
        #![trigger is_cued(clamp, lesser, greater, minus, to_frames, given, zero, duration, decoded.sample_rate, numbers)]
        call_ensures(seconds, (decoded.frame_count() as usize, decoded.sample_rate), duration)
            && is_cued(
            clamp,
            lesser,
            greater,
            minus,
            to_frames,
            given,
            zero,
            duration,
            decoded.sample_rate,
            numbers,
        )
}

/// Prepares a decoded track by its annotations. The arithmetic on numbers is
/// the caller's: `parse` reads one in a text, `seconds` says how long a number
/// of frames takes at a sample rate, and the rest is that of
/// [`track_numbers`] and [`prepare_track`].
pub fn prepare_annotated<
    S: Copy,
    N: Copy,
    L: Copy,
    P: Fn(&str) -> Option<N>,
    Q: Fn(usize, u32) -> N,
    C: Fn(N, N, N) -> N,
    A: Fn(N, N) -> N,
    B: Fn(N, N) -> N,
    M: Fn(N, N) -> N,
    F: Fn(N, u32) -> usize,
    T: Fn(N) -> L,
    G: Fn(S, L) -> S,
>(
    decoded: DecodedTrack<S, N>,
    annotations: &Annotations,
    replaygain_enabled: bool,
    zero: N,
    parse: &P,
    seconds: &Q,
    clamp: &C,
    lesser: &A,
    greater: &B,
    minus: &M,
    to_frames: &F,
    to_linear: &T,
    scale: &G,
) -> (track: PreparedTrack<S, N>)
    requires
        has_autocue(annotations.values@) ==> decoded.channels > 0,
        forall|s: &str| #[trigger] call_requires(*parse, (s,)),
        forall|n: usize, rate: u32| #[trigger] call_requires(*seconds, (n, rate)),
        forall|d: N, x: N, y: N|
            #![trigger call_ensures(*greater, (d, zero), y), call_requires(*clamp, (x, zero, y))]
            call_ensures(*greater, (d, zero), y) ==> call_requires(*clamp, (x, zero, y)),
        accepts_pairs(*lesser),
        accepts_pairs(*greater),
        accepts_pairs(*minus),
        forall|x: N, rate: u32| #[trigger] call_requires(*to_frames, (x, rate)),
        conversion_is_total::<N, L, T>(*to_linear),
        scaling_is_total::<S, L, G>(*scale),
    ensures
        exists|given: GivenNumbers<N>, numbers: TrackNumbers<N>|
            {
                &&& #[trigger] is_given(*parse, annotations.values@, given)
                &&& is_numbered(
                    *seconds,
                    *clamp,
                    *lesser,
                    *greater,
                    *minus,
                    *to_frames,
                    zero,
                    decoded,
                    has_autocue(annotations.values@),
                    given,
                    numbers,
                )
                &&& #[trigger] is_prepared(
                    *to_linear,
                    *scale,
                    decoded,
                    annotations.values@,
                    replaygain_enabled,
                    numbers,
                    track,
                )
            },
{
    let texts = number_texts(annotations);
    let given = given_numbers(&texts, parse);
    assert(is_given(*parse, annotations.values@, given));
    let numbers = if annotations.get_bool("azuracast_autocue") {
        let duration = seconds(decoded.frames(), decoded.sample_rate);
        let numbers = track_numbers(
            &given,
            zero,
            duration,
            decoded.sample_rate,
            clamp,
            lesser,
            greater,
            minus,
            to_frames,
        );
        assert(call_ensures(
            *seconds,
            (decoded.frame_count() as usize, decoded.sample_rate),
            duration,
        ));
        numbers
    } else {
        TrackNumbers {
            start_frame: 0,
            end_frame: 0,
            fade_in: given.fade_in,
            fade_out: given.fade_out,
            start_next: given.start_next,
            amplify: given.amplify,
            replaygain: given.replaygain,
        }
    };
    prepare_track(decoded, annotations, replaygain_enabled, numbers, to_linear, scale)
}

/// Filler audio: nothing is ever reported of it.
pub fn prepare_fallback_track<S, N>(decoded: DecodedTrack<S, N>) -> (track: PreparedTrack<S, N>)
    ensures
        track.decoded == decoded,
        track.metadata@ == no_metadata(),
        !track.jingle_mode,
        track.is_error_file,
        track.fade_in_override is None,
        track.fade_out_override is None,
        track.start_next is None,
        !track.is_live,
{
    PreparedTrack {
        decoded,
        metadata: TrackMetadata::default(),
        jingle_mode: false,
        is_error_file: true,
        fade_in_override: None,
        fade_out_override: None,
        start_next: None,
        is_live: false,
    }
}

/// A chunk of the live source. It has no metadata, so nothing is reported of
/// it.
pub fn prepare_live_chunk<S, N>(decoded: DecodedTrack<S, N>) -> (track: PreparedTrack<S, N>)
    ensures
        track.decoded == decoded,
        track.metadata@ == no_metadata(),
        !track.jingle_mode,
        !track.is_error_file,
        track.fade_in_override is None,
        track.fade_out_override is None,
        track.start_next is None,
        track.is_live,
{
    PreparedTrack {
        decoded,
        metadata: TrackMetadata::default(),
        jingle_mode: false,
        is_error_file: false,
        fade_in_override: None,
        fade_out_override: None,
        start_next: None,
        is_live: true,
    }
}

} // verus!
