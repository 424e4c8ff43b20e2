//! Where the next track comes from.

use vstd::prelude::*;

use crate::autodj::{next_fetch_action, silence_track, FetchAction, FetchEvent};
use crate::callbacks::FeedbackPayload;
use crate::feedback::{now_playing_for, FeedbackDedup};
use crate::output::NowPlaying;
use crate::prepare::PreparedTrack;
use crate::queue::TrackQueues;

verus! {

broadcast use vstd::string::group_string_axioms;

// ---------------------------------------------------------------------------
// The queues.

/// The queue names that callers know.
proof fn lemma_queue_names()
    ensures
        "requests"@ != "interrupting_requests"@,
{
    reveal_strlit("requests");
    reveal_strlit("interrupting_requests");
    assert("requests"@.len() == 8);
    assert("interrupting_requests"@.len() == 21);
}

/// A new engine has nothing queued.
pub proof fn law_queues_start_empty(queues: TrackQueues, name: &str, empty: bool)
    requires
        call_ensures(TrackQueues::new, (), queues),
        call_ensures(TrackQueues::is_empty, (&queues, name), empty),
    ensures
        empty,
        queues@.requests.len() == 0,
        queues@.interrupting.len() == 0,
{
}

/// A pushed entry is the last of the queue that was named, nothing else
/// changes, and only the two known names are accepted.
pub proof fn law_a_push_goes_to_the_end_of_its_queue(
    queues: &mut TrackQueues,
    name: &str,
    uri: String,
    r: Result<(), String>,
    k: int,
)
    requires
        call_ensures(TrackQueues::push, (queues, name, uri), r),
    ensures
        r is Ok <==> name@ == "requests"@ || name@ == "interrupting_requests"@,
        r is Err ==> final(queues)@ == old(queues)@ && r->Err_0@ == "unknown queue '"@ + name@
            + "'"@,
        name@ == "requests"@ ==> {
            &&& final(queues)@.requests.len() == old(queues)@.requests.len() + 1
            &&& final(queues)@.requests.last() == uri@
            &&& 0 <= k < old(queues)@.requests.len() ==> final(queues)@.requests[k]
                == old(queues)@.requests[k]
            &&& final(queues)@.interrupting == old(queues)@.interrupting
        },
        name@ == "interrupting_requests"@ ==> {
            &&& final(queues)@.interrupting.len() == old(queues)@.interrupting.len() + 1
            &&& final(queues)@.interrupting.last() == uri@
            &&& 0 <= k < old(queues)@.interrupting.len() ==> final(queues)@.interrupting[k]
                == old(queues)@.interrupting[k]
            &&& final(queues)@.requests == old(queues)@.requests
        },
{
    lemma_queue_names();
}

/// A queue is not empty once something was pushed onto it, and a push onto one
/// queue does not fill the other.
pub proof fn law_a_push_fills_its_queue(
    queues: &mut TrackQueues,
    name: &str,
    uri: String,
    r: Result<(), String>,
    after: TrackQueues,
    asked: &str,
    empty_before: bool,
    empty: bool,
)
    requires
        call_ensures(TrackQueues::is_empty, (old(queues), asked), empty_before),
        call_ensures(TrackQueues::push, (queues, name, uri), r),
        after == *final(queues),
        call_ensures(TrackQueues::is_empty, (&after, asked), empty),
    ensures
        asked@ == name@ && r is Ok ==> !empty,
        asked@ != name@ ==> empty == empty_before,
        r is Err ==> empty == empty_before,
{
    lemma_queue_names();
}

/// What comes out of the two queues: the oldest interrupting entry, or, where
/// there is none, the oldest ordinary one; and that entry alone leaves.
pub proof fn law_entries_leave_oldest_first(
    queues: &mut TrackQueues,
    uri: Option<String>,
    k: int,
)
    requires
        call_ensures(TrackQueues::pop_next, (queues,), uri),
    ensures
        uri is None <==> old(queues)@.requests.len() == 0 && old(queues)@.interrupting.len() == 0,
        old(queues)@.interrupting.len() > 0 ==> {
            &&& uri is Some && uri->Some_0@ == old(queues)@.interrupting[0]
            &&& final(queues)@.interrupting.len() == old(queues)@.interrupting.len() - 1
            &&& 0 < k < old(queues)@.interrupting.len() ==> final(queues)@.interrupting[k - 1]
                == old(queues)@.interrupting[k]
            &&& final(queues)@.requests == old(queues)@.requests
        },
        old(queues)@.interrupting.len() == 0 && old(queues)@.requests.len() > 0 ==> {
            &&& uri is Some && uri->Some_0@ == old(queues)@.requests[0]
            &&& final(queues)@.requests.len() == old(queues)@.requests.len() - 1
            &&& 0 < k < old(queues)@.requests.len() ==> final(queues)@.requests[k - 1]
                == old(queues)@.requests[k]
            &&& final(queues)@.interrupting.len() == 0
        },
{
}

/// What is pushed onto an empty queue comes out of that queue, and the queue is
/// empty again.
pub proof fn law_what_goes_in_comes_out(
    first: &mut TrackQueues,
    name: &str,
    uri: String,
    r: Result<(), String>,
    second: &mut TrackQueues,
    taken: Option<String>,
)
    requires
        call_ensures(TrackQueues::push, (first, name, uri), r),
        r is Ok,
        *old(second) == *final(first),
    ensures
        name@ == "requests"@ && old(first)@.requests.len() == 0 && call_ensures(
            TrackQueues::pop_requests,
            (second,),
            taken,
        ) ==> {
            &&& taken is Some && taken->Some_0@ == uri@
            &&& final(second)@.requests.len() == 0
            &&& final(second)@.interrupting == old(first)@.interrupting
        },
        name@ == "interrupting_requests"@ && old(first)@.interrupting.len() == 0 && call_ensures(
            TrackQueues::pop_interrupting,
            (second,),
            taken,
        ) ==> {
            &&& taken is Some && taken->Some_0@ == uri@
            &&& final(second)@.interrupting.len() == 0
            &&& final(second)@.requests == old(first)@.requests
        },
{
    lemma_queue_names();
}

/// A queue that is not known has nothing in it, and a known one is empty
/// exactly where it holds nothing.
pub proof fn law_a_queue_is_empty_where_it_holds_nothing(
    queues: TrackQueues,
    name: &str,
    empty: bool,
)
    requires
        call_ensures(TrackQueues::is_empty, (&queues, name), empty),
    ensures
        name@ == "requests"@ ==> (empty <==> queues@.requests.len() == 0),
        name@ == "interrupting_requests"@ ==> (empty <==> queues@.interrupting.len() == 0),
        name@ != "requests"@ && name@ != "interrupting_requests"@ ==> empty,
{
    lemma_queue_names();
}

// ---------------------------------------------------------------------------
// The search for a track.

/// Listeners' requests go before the rotation. Where a track is needed, or a
/// requested one has failed, with no interrupting request and no live source,
/// the oldest request is played and leaves its queue; the station is asked for
/// its own track only where no request is left.
pub proof fn law_requests_go_before_the_rotation(
    event: FetchEvent,
    queues: &mut TrackQueues,
    fallback: Option<String>,
    action: FetchAction,
)
    requires
        event is Start || event is QueuedTrackFailed,
        old(queues)@.interrupting.len() == 0,
        call_ensures(next_fetch_action, (event, queues, false, &fallback), action),
    ensures
        old(queues)@.requests.len() > 0 ==> {
            &&& action is PlayQueued
            &&& action->PlayQueued_0@ == old(queues)@.requests[0]
            &&& old(queues)@.requests == seq![action->PlayQueued_0@] + final(queues)@.requests
        },
        action is AskAutoDj <==> old(queues)@.requests.len() == 0,
        final(queues)@.interrupting.len() == 0,
{
    if old(queues)@.requests.len() > 0 {
        assert(old(queues)@.requests =~= seq![old(queues)@.requests[0]]
            + final(queues)@.requests);
    }
}

/// An interrupting request goes before everything: live or not, it is played
/// next and leaves its queue.
pub proof fn law_interrupting_requests_go_before_everything(
    event: FetchEvent,
    queues: &mut TrackQueues,
    live_ready: bool,
    fallback: Option<String>,
    action: FetchAction,
)
    requires
        event is Start || event is QueuedTrackFailed,
        old(queues)@.interrupting.len() > 0,
        call_ensures(next_fetch_action, (event, queues, live_ready, &fallback), action),
    ensures
        action is PlayQueued,
        old(queues)@.interrupting == seq![action->PlayQueued_0@] + final(queues)@.interrupting,
        final(queues)@.requests == old(queues)@.requests,
{
    assert(old(queues)@.interrupting =~= seq![old(queues)@.interrupting[0]]
        + final(queues)@.interrupting);
}

/// The live source is played exactly where a track is needed, or a requested
/// one has failed, it is ready, and nothing interrupts it; the queues wait.
pub proof fn law_live_is_played_where_nothing_interrupts(
    event: FetchEvent,
    queues: &mut TrackQueues,
    live_ready: bool,
    fallback: Option<String>,
    action: FetchAction,
)
    requires
        call_ensures(next_fetch_action, (event, queues, live_ready, &fallback), action),
    ensures
        action is PlayLive <==> live_ready && old(queues)@.interrupting.len() == 0 && (event
            is Start || event is QueuedTrackFailed),
        action is PlayLive ==> final(queues)@ == old(queues)@,
{
}

/// A live source that ended is followed by the oldest request, or, without
/// one, by the rotation.
pub proof fn law_requests_follow_a_live_source(
    queues: &mut TrackQueues,
    live_ready: bool,
    fallback: Option<String>,
    action: FetchAction,
)
    requires
        call_ensures(
            next_fetch_action,
            (FetchEvent::LiveEnded, queues, live_ready, &fallback),
            action,
        ),
    ensures
        old(queues)@.requests.len() > 0 ==> action is PlayQueued && old(queues)@.requests == seq![
            action->PlayQueued_0@,
        ] + final(queues)@.requests,
        old(queues)@.requests.len() == 0 ==> action is AskAutoDj && final(queues)@
            == old(queues)@,
        final(queues)@.interrupting == old(queues)@.interrupting,
{
    if old(queues)@.requests.len() > 0 {
        assert(old(queues)@.requests =~= seq![old(queues)@.requests[0]]
            + final(queues)@.requests);
    }
}

/// Every request is played once: an entry leaves a queue exactly where it is
/// played, and no more than one does.
pub proof fn law_a_request_leaves_only_to_be_played(
    event: FetchEvent,
    queues: &mut TrackQueues,
    live_ready: bool,
    fallback: Option<String>,
    action: FetchAction,
)
    requires
        call_ensures(next_fetch_action, (event, queues, live_ready, &fallback), action),
    ensures
        action is PlayQueued ==> final(queues)@.requests.len() + final(queues)@.interrupting.len()
            + 1 == old(queues)@.requests.len() + old(queues)@.interrupting.len(),
        action !is PlayQueued ==> final(queues)@ == old(queues)@,
{
}

/// What the station names is played. Where it names nothing, or what it names
/// cannot be played, the fallback file is, and silence only where there is no
/// such file or it fails too.
pub proof fn law_the_rotation_falls_back_in_order(
    event: FetchEvent,
    queues: &mut TrackQueues,
    live_ready: bool,
    fallback: Option<String>,
    action: FetchAction,
)
    requires
        call_ensures(next_fetch_action, (event, queues, live_ready, &fallback), action),
    ensures
        action is PlayAutoDj <==> event is NextSong,
        event is NextSong ==> action->PlayAutoDj_0@ == event->NextSong_0@,
        action is PlayFallback <==> fallback is Some && (event is NextSongFailed || event
            is AutoDjTrackFailed),
        action is PlayFallback ==> action->PlayFallback_0@ == fallback->Some_0@,
        action is PlaySilence <==> event is FallbackFailed || (fallback is None && (event
            is NextSongFailed || event is AutoDjTrackFailed)),
{
}

/// A request that comes in over the control API is the next track, if nothing
/// else is pending and nobody is live.
pub proof fn law_a_request_is_the_next_track(
    first: &mut TrackQueues,
    name: &str,
    uri: String,
    r: Result<(), String>,
    second: &mut TrackQueues,
    fallback: Option<String>,
    action: FetchAction,
)
    requires
        old(first)@.requests.len() == 0,
        old(first)@.interrupting.len() == 0,
        call_ensures(TrackQueues::push, (first, name, uri), r),
        r is Ok,
        *old(second) == *final(first),
        call_ensures(
            next_fetch_action,
            (FetchEvent::Start, second, false, &fallback),
            action,
        ),
    ensures
        action is PlayQueued && action->PlayQueued_0@ == uri@,
        final(second)@.requests.len() == 0 && final(second)@.interrupting.len() == 0,
{
    lemma_queue_names();
}

/// The silence between two attempts lasts as long as the time between them,
/// is silent throughout, and is neither reported nor shown.
pub proof fn law_silence_fills_the_wait<S: Copy, N>(
    zero: S,
    track: PreparedTrack<S, N>,
    dedup: FeedbackDedup,
    report: Option<FeedbackPayload>,
    song: Option<NowPlaying>,
    i: int,
)
    requires
        call_ensures(silence_track::<S, N>, (zero,), track),
        call_ensures(FeedbackDedup::report_for::<S, N>, (&dedup, &track), report),
        call_ensures(now_playing_for::<S, N>, (&track,), song),
    ensures
        track.decoded.samples@.len() == 10 * track.decoded.sample_rate * track.decoded.channels,
        track.decoded.sample_rate == 44100,
        track.decoded.channels == 2,
        0 <= i < track.decoded.samples@.len() ==> track.decoded.samples@[i] == zero,
        report is None,
        song is None,
        !track.is_live,
{
}

} // verus!
