//! Which tracks are reported to the station, and to the listeners.

use vstd::prelude::*;

use crate::callbacks::FeedbackPayload;
use crate::output::{clone_text, same_opt_text, NowPlaying};
use crate::prepare::{PreparedTrack, TrackMetadata};

verus! {

broadcast use vstd::string::group_string_axioms;

/// Remembers what was last reported, so that nothing is reported twice in a
/// row.
#[derive(Debug)]
pub struct FeedbackDedup {
    pub last_title: Option<String>,
    pub last_artist: Option<String>,
}

/// The title and artist that were last reported.
pub struct ReportedView {
    pub title: Option<Seq<char>>,
    pub artist: Option<Seq<char>>,
}

impl View for FeedbackDedup {
    type V = ReportedView;

    open spec fn view(&self) -> ReportedView {
        ReportedView {
            title: crate::text::opt_view(self.last_title),
            artist: crate::text::opt_view(self.last_artist),
        }
    }
}

impl Default for FeedbackDedup {
    fn default() -> (d: FeedbackDedup)
        ensures
            d.last_title is None,
            d.last_artist is None,
    {
        FeedbackDedup { last_title: None, last_artist: None }
    }
}

/// Whether a track is reported: not if it is filler or a jingle, not if there
/// is nothing to report, and not if its title and artist are those that were
/// last reported.
pub open spec fn is_reported(
    last: ReportedView,
    is_error_file: bool,
    jingle_mode: bool,
    metadata: crate::prepare::MetadataView,
) -> bool {
    &&& !is_error_file
    &&& !jingle_mode
    &&& !crate::prepare::nothing_to_report(metadata)
    &&& !(metadata.title == last.title && metadata.artist == last.artist)
}

/// Whether a payload says what this metadata says.
pub open spec fn reports(payload: FeedbackPayload, metadata: crate::prepare::MetadataView) -> bool {
    &&& crate::text::opt_view(payload.song_id) == metadata.song_id
    &&& crate::text::opt_view(payload.media_id) == metadata.media_id
    &&& crate::text::opt_view(payload.playlist_id) == metadata.playlist_id
    &&& crate::text::opt_view(payload.sq_id) == metadata.sq_id
    &&& crate::text::opt_view(payload.artist) == metadata.artist
    &&& crate::text::opt_view(payload.title) == metadata.title
}

/// What has been reported last, once a report was answered: a report that
/// failed does not count.
pub open spec fn after_report(
    last: ReportedView,
    title: Option<Seq<char>>,
    artist: Option<Seq<char>>,
    ok: bool,
) -> ReportedView {
    if ok {
        ReportedView { title, artist }
    } else {
        last
    }
}

impl FeedbackDedup {
    /// Nothing has been reported yet.
    pub fn new() -> (d: FeedbackDedup)
        ensures
            d.last_title is None,
            d.last_artist is None,
    {
        FeedbackDedup { last_title: None, last_artist: None }
    }

    /// The report to send for `track`, if there is one to send.
    pub fn report_for<S, N>(&self, track: &PreparedTrack<S, N>) -> (payload: Option<
        FeedbackPayload,
    >)
        ensures
            match payload {
                Some(p) => {
                    &&& is_reported(
                        self@,
                        track.is_error_file,
                        track.jingle_mode,
                        track.metadata@,
                    )
                    &&& reports(p, track.metadata@)
                },
                None => !is_reported(
                    self@,
                    track.is_error_file,
                    track.jingle_mode,
                    track.metadata@,
                ),
            },
    {
        if track.is_error_file || track.jingle_mode || track.metadata.is_empty() {
            return None;
        }
        let meta: &TrackMetadata = &track.metadata;
        if same_opt_text(&meta.title, &self.last_title) && same_opt_text(
            &meta.artist,
            &self.last_artist,
        ) {
            return None;
        }
        Some(
            FeedbackPayload {
                song_id: clone_text(&meta.song_id),
                media_id: clone_text(&meta.media_id),
                playlist_id: clone_text(&meta.playlist_id),
                sq_id: clone_text(&meta.sq_id),
                artist: clone_text(&meta.artist),
                title: clone_text(&meta.title),
            },
        )
    }

    /// Takes note of the answer to a report. Where it failed, nothing changes:
    /// the same track can be reported again.
    pub fn report_answered(&mut self, metadata: &TrackMetadata, ok: bool)
        ensures
            final(self)@ == after_report(
                old(self)@,
                metadata@.title,
                metadata@.artist,
                ok,
            ),
    {
        if ok {
            self.last_title = clone_text(&metadata.title);
            self.last_artist = clone_text(&metadata.artist);
        }
    }
}

/// What listeners are told when `track` starts: its title and artist, unless
/// it is filler or a jingle.
pub fn now_playing_for<S, N>(track: &PreparedTrack<S, N>) -> (song: Option<NowPlaying>)
    ensures
        match song {
            Some(s) => {
                &&& !track.is_error_file && !track.jingle_mode
                &&& s@.title == track.metadata@.title
                &&& s@.artist == track.metadata@.artist
            },
            None => track.is_error_file || track.jingle_mode,
        },
{
    if track.is_error_file || track.jingle_mode {
        return None;
    }
    Some(
        NowPlaying {
            title: clone_text(&track.metadata.title),
            artist: clone_text(&track.metadata.artist),
        },
    )
}

/// A track that was just reported is not reported again; where the report
/// failed, it still is.
pub proof fn law_nothing_is_reported_twice_in_a_row(
    last: ReportedView,
    is_error_file: bool,
    jingle_mode: bool,
    metadata: crate::prepare::MetadataView,
)
    requires
        is_reported(last, is_error_file, jingle_mode, metadata),
    ensures
        !is_reported(
            after_report(last, metadata.title, metadata.artist, true),
            is_error_file,
            jingle_mode,
            metadata,
        ),
        is_reported(
            after_report(last, metadata.title, metadata.artist, false),
            is_error_file,
            jingle_mode,
            metadata,
        ),
{
}

/// A jingle or filler between two plays of one song leaves no trace: it is not
/// reported, and the song is not reported again either.
pub proof fn law_jingles_and_filler_leave_no_trace(
    last: ReportedView,
    is_error_file: bool,
    jingle_mode: bool,
    filler: crate::prepare::MetadataView,
    song: crate::prepare::MetadataView,
)
    requires
        is_error_file || jingle_mode,
        is_reported(last, false, false, song),
    ensures
        ({
            let after_song = after_report(last, song.title, song.artist, true);
            &&& !is_reported(after_song, is_error_file, jingle_mode, filler)
            &&& !is_reported(after_song, false, false, song)
        }),
{
}

/// Nothing is ever reported of live audio or of filler, whatever was reported
/// before.
pub proof fn law_audio_without_metadata_is_not_reported(
    last: ReportedView,
    is_error_file: bool,
    jingle_mode: bool,
)
    ensures
        !is_reported(last, is_error_file, jingle_mode, crate::prepare::no_metadata()),
{
}

} // verus!
