//! Where the next track comes from.
//!
//! In order of priority: an interrupting request, the live source, an ordinary
//! request, the station's rotation. Where all of them fail there is the
//! fallback file, and where that fails too there is silence: something can
//! always be played.

use vstd::prelude::*;

use crate::decode::{DecodedTrack, PIPELINE_CHANNELS, PIPELINE_SAMPLE_RATE};
use crate::output::clone_text;
use crate::prepare::{prepare_fallback_track, PreparedTrack};
use crate::queue::TrackQueues;

verus! {

broadcast use vstd::string::group_string_axioms;

/// Seconds between two attempts at a station that has nothing to play.
pub const RETRY_DELAY_SECS: u32 = 10;

/// What happened while a track was fetched.
#[derive(Debug)]
pub enum FetchEvent {
    /// A track is needed.
    Start,
    /// A requested track could not be prepared.
    QueuedTrackFailed,
    /// The live source ended before it gave a chunk.
    LiveEnded,
    /// The station named its next track.
    NextSong(String),
    /// The station did not name a track.
    NextSongFailed,
    /// The track that the station named could not be prepared.
    AutoDjTrackFailed,
    /// The fallback file could not be decoded.
    FallbackFailed,
}

/// What to do next. A track that comes of it is the next track.
#[derive(Debug)]
pub enum FetchAction {
    /// Prepare this requested track.
    PlayQueued(String),
    /// Wait for the next chunk of the live source.
    PlayLive,
    /// Ask the station for its next track.
    AskAutoDj,
    /// Prepare this track of the station's rotation.
    PlayAutoDj(String),
    /// Decode this fallback file.
    PlayFallback(String),
    /// Wait, and play silence for that long.
    PlaySilence,
}

/// The action and the queues after an interrupting request was looked for, and
/// then the other sources.
pub open spec fn from_the_top(
    before: crate::queue::QueuesView,
    live_ready: bool,
    after: crate::queue::QueuesView,
    action: FetchAction,
) -> bool {
    if before.interrupting.len() > 0 {
        &&& action matches FetchAction::PlayQueued(uri)
        &&& uri@ == before.interrupting[0]
        &&& after.interrupting == before.interrupting.skip(1)
        &&& after.requests == before.requests
    } else if live_ready {
        action is PlayLive && after == before
    } else {
        from_requests(before, after, action)
    }
}

/// The action and the queues after an ordinary request was looked for, and
/// then the station's rotation.
pub open spec fn from_requests(
    before: crate::queue::QueuesView,
    after: crate::queue::QueuesView,
    action: FetchAction,
) -> bool {
    &&& after.interrupting == before.interrupting
    &&& if before.requests.len() > 0 {
        &&& action matches FetchAction::PlayQueued(uri)
        &&& uri@ == before.requests[0]
        &&& after.requests == before.requests.skip(1)
    } else {
        action is AskAutoDj && after.requests == before.requests
    }
}

/// What follows from an event.
pub open spec fn fetch_step(
    event: FetchEvent,
    before: crate::queue::QueuesView,
    live_ready: bool,
    fallback: Option<Seq<char>>,
    after: crate::queue::QueuesView,
    action: FetchAction,
) -> bool {
    match event {
        FetchEvent::Start | FetchEvent::QueuedTrackFailed => from_the_top(
            before,
            live_ready,
            after,
            action,
        ),
        FetchEvent::LiveEnded => from_requests(before, after, action),
        FetchEvent::NextSong(uri) => {
            &&& after == before
            &&& action matches FetchAction::PlayAutoDj(u)
            &&& u@ == uri@
        },
        FetchEvent::NextSongFailed | FetchEvent::AutoDjTrackFailed => {
            &&& after == before
            &&& match fallback {
                Some(path) => action matches FetchAction::PlayFallback(p) && p@ == path,
                None => action is PlaySilence,
            }
        },
        FetchEvent::FallbackFailed => action is PlaySilence && after == before,
    }
}

/// Takes the next ordinary request, or turns to the station's rotation.
fn next_request(queues: &mut TrackQueues) -> (action: FetchAction)
    ensures
        from_requests(old(queues)@, final(queues)@, action),
{
    match queues.pop_requests() {
        Some(uri) => FetchAction::PlayQueued(uri),
        None => FetchAction::AskAutoDj,
    }
}

/// Decides where to look for the next track. A requested track that cannot be
/// prepared is passed over, and the search starts again; one of the station's
/// rotation is made up for by the fallback file.
pub fn next_fetch_action(
    event: FetchEvent,
    queues: &mut TrackQueues,
    live_ready: bool,
    fallback: &Option<String>,
) -> (action: FetchAction)
    ensures
        fetch_step(
            event,
            old(queues)@,
            live_ready,
            crate::text::opt_view(*fallback),
            final(queues)@,
            action,
        ),
{
    match event {
        FetchEvent::Start | FetchEvent::QueuedTrackFailed => {
            match queues.pop_interrupting() {
                Some(uri) => {
                    return FetchAction::PlayQueued(uri);
                },
                None => {},
            }
            if live_ready {
                FetchAction::PlayLive
            } else {
                next_request(queues)
            }
        },
        FetchEvent::LiveEnded => next_request(queues),
        FetchEvent::NextSong(uri) => FetchAction::PlayAutoDj(uri),
        FetchEvent::NextSongFailed | FetchEvent::AutoDjTrackFailed => match clone_text(fallback) {
            Some(path) => FetchAction::PlayFallback(path),
            None => FetchAction::PlaySilence,
        },
        FetchEvent::FallbackFailed => FetchAction::PlaySilence,
    }
}

/// The event by which an action fails, if it can fail.
pub open spec fn failure_of(action: FetchAction) -> Option<FetchEvent> {
    match action {
        FetchAction::PlayQueued(_) => Some(FetchEvent::QueuedTrackFailed),
        FetchAction::PlayLive => Some(FetchEvent::LiveEnded),
        FetchAction::AskAutoDj => Some(FetchEvent::NextSongFailed),
        FetchAction::PlayAutoDj(_) => Some(FetchEvent::AutoDjTrackFailed),
        FetchAction::PlayFallback(_) => Some(FetchEvent::FallbackFailed),
        FetchAction::PlaySilence => None,
    }
}

/// How much is left to try after an event: first the requests, then the other
/// sources in turn.
pub open spec fn left_to_try(event: FetchEvent, queues: crate::queue::QueuesView) -> (nat, nat) {
    (
        queues.interrupting.len() + queues.requests.len(),
        match event {
            FetchEvent::Start | FetchEvent::QueuedTrackFailed => 5,
            FetchEvent::LiveEnded => 4,
            FetchEvent::NextSong(_) => 3,
            FetchEvent::NextSongFailed | FetchEvent::AutoDjTrackFailed => 2,
            FetchEvent::FallbackFailed => 1,
        },
    )
}

/// A fetch cannot go on for ever without new requests: an action that fails
/// leaves fewer requests, or as many and fewer other sources, to be tried
/// after it, and so does the station's naming a track. The last resort,
/// silence, cannot fail.
pub proof fn law_fetching_always_ends(
    event: FetchEvent,
    before: crate::queue::QueuesView,
    live_ready: bool,
    fallback: Option<Seq<char>>,
    after: crate::queue::QueuesView,
    action: FetchAction,
)
    requires
        fetch_step(event, before, live_ready, fallback, after, action),
    ensures
        failure_of(action) matches Some(next) ==> {
            let now = left_to_try(event, before);
            let then = left_to_try(next, after);
            then.0 < now.0 || (then.0 == now.0 && then.1 < now.1)
        },
        failure_of(action) is None <==> action is PlaySilence,
        action is AskAutoDj ==> forall|uri: String|
            {
                let now = left_to_try(event, before);
                let then = #[trigger] left_to_try(FetchEvent::NextSong(uri), after);
                then.0 == now.0 && then.1 < now.1
            },
{
}

/// The live source is outranked by interrupting requests alone: while it is
/// ready and there are none, nothing else is played.
pub proof fn law_live_outranks_requests_and_rotation(
    before: crate::queue::QueuesView,
    fallback: Option<Seq<char>>,
    after: crate::queue::QueuesView,
    action: FetchAction,
)
    requires
        fetch_step(FetchEvent::Start, before, true, fallback, after, action),
    ensures
        before.interrupting.len() == 0 ==> action is PlayLive && after == before,
        before.interrupting.len() > 0 ==> (action matches FetchAction::PlayQueued(uri) && uri@
            == before.interrupting[0]),
{
}

/// How many samples of silence fill the time until the next attempt.
pub open spec fn silence_len() -> nat {
    (RETRY_DELAY_SECS * PIPELINE_SAMPLE_RATE * PIPELINE_CHANNELS) as nat
}

/// Silence that fills the time until the next attempt. It is filler: nothing
/// is reported of it.
pub fn silence_track<S: Copy, N>(zero: S) -> (track: PreparedTrack<S, N>)
    ensures
        track.decoded.samples@ == Seq::new(silence_len(), |i: int| zero),
        track.decoded.sample_rate == PIPELINE_SAMPLE_RATE,
        track.decoded.channels == PIPELINE_CHANNELS,
        track.decoded.replaygain_track_gain_db is None,
        track.is_error_file,
        track.metadata@ == crate::prepare::no_metadata(),
        !track.jingle_mode,
        !track.is_live,
        track.fade_in_override is None,
        track.fade_out_override is None,
        track.start_next is None,
{
    let frames: u32 = RETRY_DELAY_SECS * PIPELINE_SAMPLE_RATE;
    assert(frames == 441_000);
    let total: usize = frames as usize * PIPELINE_CHANNELS as usize;
    let mut samples: Vec<S> = Vec::new();
    while samples.len() < total
        invariant
            samples@.len() <= total,
            forall|i: int| 0 <= i < samples@.len() ==> #[trigger] samples@[i] == zero,
        decreases total - samples@.len(),
    {
        samples.push(zero);
    }
    assert(samples@ =~= Seq::new(silence_len(), |i: int| zero));
    prepare_fallback_track(DecodedTrack::in_pipeline_format(samples))
}

} // verus!
