//! The playback loop: when chunks are due, what is played of a track, and how
//! it gives way to the next.

use vstd::prelude::*;

use crate::control::ControlSignals;
use crate::decode::DecodedTrack;
use crate::harbor::LiveState;
use crate::pipeline::{
    check_live, drops_prefetched, end_round, frames_of, is_processed, pacing_sleep_duration,
    plan_body, plan_transition_to, start_round, take_skip_for, BodyPlan, RoundEnd, RoundStart,
    StreamClock, TransitionPlan,
};
use crate::prepare::PreparedTrack;

verus! {

// ---------------------------------------------------------------------------
// Pacing.

/// A chunk is emitted when its last frame is due, to the nearest nanosecond; a
/// stream that is already behind does not wait.
pub proof fn law_a_chunk_is_emitted_when_it_is_due(
    elapsed: u128,
    emitted: u64,
    chunk: u64,
    rate: u32,
    wait: u128,
)
    requires
        rate > 0,
        emitted + chunk <= u64::MAX,
        call_ensures(pacing_sleep_duration, (elapsed, emitted, chunk, rate), wait),
    ensures
        wait > 0 ==> 2 * ((elapsed + wait) * rate - (emitted + chunk) * 1_000_000_000) <= rate,
        wait > 0 ==> 2 * ((emitted + chunk) * 1_000_000_000 - (elapsed + wait) * rate) <= rate,
        wait == 0 ==> 2 * ((emitted + chunk) * 1_000_000_000 - elapsed * rate) <= rate,
{
    let n = (emitted + chunk) * 1_000_000_000;
    let d = rate as int;
    let q = n / d;
    let r = n % d;
    vstd::arithmetic::div_mod::lemma_fundamental_div_mod(n, d);
    let due = crate::pipeline::due_nanos((emitted + chunk) as nat, rate as nat) as int;
    assert(due == q || due == q + 1);
    assert(q * d == d * q && (q + 1) * d == d * q + d) by (nonlinear_arith);
    assert(-d <= 2 * (due * d - n) <= d);
    if wait > 0 {
        assert(elapsed + wait == due);
    } else {
        assert(due <= elapsed);
        assert(due * d <= elapsed * d) by (nonlinear_arith)
            requires
                due <= elapsed,
                d > 0,
        ;
    }
}

/// The clock of a stream counts from its start: what it says to wait is what is
/// left until the chunk is due, its frames add up, and its start stays.
pub proof fn law_the_clock_counts_from_the_start(
    start: u128,
    clock: StreamClock,
    now: u128,
    chunk: u64,
    rate: u32,
    wait: u128,
    same: u128,
)
    requires
        rate > 0,
        call_ensures(StreamClock::new, (start,), clock),
        now >= start,
        call_ensures(StreamClock::sleep_before_chunk, (&clock, now, chunk, rate), wait),
        call_ensures(pacing_sleep_duration, ((now - start) as u128, 0u64, chunk, rate), same),
    ensures
        wait == same,
        clock.frames_emitted == 0,
{
}

/// Chunk by chunk, the clock waits for all that went before: a clock that was
/// moved on waits as one that emitted both chunks at once.
pub proof fn law_the_clock_adds_chunks_up(
    clock: &mut StreamClock,
    first: u64,
    second: u64,
    now: u128,
    rate: u32,
    moved: StreamClock,
    wait: u128,
    whole: u128,
)
    requires
        rate > 0,
        old(clock).frames_emitted + first + second <= u64::MAX,
        call_ensures(StreamClock::advance, (clock, first), ()),
        moved == *final(clock),
        call_ensures(StreamClock::sleep_before_chunk, (&moved, now, second, rate), wait),
        call_ensures(
            StreamClock::sleep_before_chunk,
            (old(clock), now, (first + second) as u64, rate),
            whole,
        ),
    ensures
        wait == whole,
        moved.start == old(clock).start,
        moved.frames_emitted == old(clock).frames_emitted + first,
{
}

/// A second of audio takes a second: after whole seconds of frames, a stream
/// that is on time waits until exactly those seconds have passed.
pub proof fn law_seconds_of_audio_take_seconds(seconds: u64, rate: u32, wait: u128)
    requires
        rate > 0,
        seconds * rate <= u64::MAX,
        call_ensures(pacing_sleep_duration, (0u128, 0u64, (seconds * rate) as u64, rate), wait),
    ensures
        wait == seconds * 1_000_000_000,
{
    assert(0 <= seconds * rate) by (nonlinear_arith);
    crate::pipeline::law_whole_seconds_are_exact(seconds as nat, rate as nat);
}

// ---------------------------------------------------------------------------
// What is played of a track.

/// Without a skip, a track is played to its end, and exactly one window of it,
/// or what is left, is mixed with the next track. With a skip, nothing more of
/// it is played as it is, and exactly one window from here, or what is left, is
/// mixed with the next track.
pub proof fn law_one_window_is_mixed(
    total: usize,
    played: usize,
    window: usize,
    skip: bool,
    plan: BodyPlan,
)
    requires
        played <= total,
        call_ensures(plan_body, (total, played, window, skip), plan),
    ensures
        !skip ==> plan.tail_end == total,
        skip ==> plan.body_end == played,
        window <= total - played ==> plan.tail_end - plan.body_end == window,
        window > total - played ==> plan.tail_end - plan.body_end == total - played,
        played <= plan.body_end <= plan.tail_end <= total,
{
}

/// Whatever follows, a track is played once and in order: its body from where
/// it is, then its rest, then its tail, with no gap and no repetition, and to
/// its end unless it is skipped.
pub proof fn law_a_round_plays_the_track_once<S, N: Copy>(
    current: PreparedTrack<S, N>,
    next: PreparedTrack<S, N>,
    total: usize,
    played: usize,
    window: usize,
    skip: bool,
    default_fade: N,
    start: RoundStart,
    end: RoundEnd<N>,
)
    requires
        played <= total,
        next.decoded.channels > 0,
        call_ensures(start_round, (current.is_live, total, played, window, skip), start),
        call_ensures(
            end_round::<S, N>,
            (&current, &next, &start, total, window, default_fade),
            end,
        ),
    ensures
        start.body.0 == played,
        start.body.0 <= start.body.1,
        end.rest.0 == start.body.1,
        end.rest.0 <= end.rest.1,
        end.tail.0 == end.rest.1,
        end.tail.0 <= end.tail.1 <= total,
        !skip ==> end.tail.1 == total,
        start.prefetch <==> !current.is_live,
        current.is_live ==> start.body.1 == played,
        current.is_live && next.is_live ==> end.rest.1 == total && end.transition is None
            && end.next_played == 0,
        !current.is_live && skip ==> end.tail.0 == played,
        !(current.is_live && next.is_live) && window <= total - played ==> end.tail.1 - end.tail.0
            == window,
        !(current.is_live && next.is_live) && window > total - played ==> end.tail.1 - end.tail.0
            == total - played,
{
    assert(crate::pipeline::is_round_start(
        start,
        current.is_live,
        total as nat,
        played as nat,
        window as nat,
        skip,
    ));
}

/// What is mixed into a transition is not played again: the next track goes on
/// after its head, and from its start where there was no transition.
pub proof fn law_the_next_track_goes_on_after_its_head<S, N: Copy>(
    current: PreparedTrack<S, N>,
    next: PreparedTrack<S, N>,
    start: RoundStart,
    total: usize,
    window: usize,
    default_fade: N,
    end: RoundEnd<N>,
    next_frames: usize,
)
    requires
        next.decoded.channels > 0,
        call_ensures(
            end_round::<S, N>,
            (&current, &next, &start, total, window, default_fade),
            end,
        ),
        call_ensures(DecodedTrack::<S, N>::frames, (&next.decoded,), next_frames),
    ensures
        end.transition is None ==> end.next_played == 0,
        end.transition is Some ==> end.next_played == end.transition->Some_0.head_frames,
        end.transition is Some && window <= next_frames ==> end.next_played == window,
        end.transition is Some && window > next_frames ==> end.next_played == next_frames,
{
}

/// Live audio that follows live audio is not mixed; everything else is. The
/// transition goes into live exactly where the next track is live.
pub proof fn law_live_audio_simply_goes_on<S, N: Copy>(
    current: PreparedTrack<S, N>,
    next: PreparedTrack<S, N>,
    window: usize,
    default_fade: N,
    plan: Option<TransitionPlan<N>>,
)
    requires
        next.decoded.channels > 0,
        call_ensures(plan_transition_to::<S, N>, (&current, &next, window, default_fade), plan),
    ensures
        plan is None <==> current.is_live && next.is_live,
        plan is Some ==> (plan->Some_0.to_live <==> next.is_live),
{
}

/// A track's own fades count where a track follows: the outgoing one's at its
/// end and the incoming one's at its start; else the station's. Into live both
/// are the station's, and the live source has none of its own.
pub proof fn law_own_fades_go_before_the_stations<S, N: Copy>(
    current: PreparedTrack<S, N>,
    next: PreparedTrack<S, N>,
    window: usize,
    default_fade: N,
    plan: TransitionPlan<N>,
)
    requires
        next.decoded.channels > 0,
        call_ensures(
            plan_transition_to::<S, N>,
            (&current, &next, window, default_fade),
            Some(plan),
        ),
    ensures
        next.is_live ==> plan.fade_out == default_fade && plan.fade_in == default_fade,
        !next.is_live && !current.is_live && current.fade_out_override is Some ==> plan.fade_out
            == current.fade_out_override->Some_0,
        current.fade_out_override is None || current.is_live ==> plan.fade_out == default_fade,
        !next.is_live && next.fade_in_override is Some ==> plan.fade_in
            == next.fade_in_override->Some_0,
        next.fade_in_override is None ==> plan.fade_in == default_fade,
{
}

/// The frames of a part are the samples of both channels from its first frame
/// to before its last.
pub proof fn law_a_part_is_a_run_of_frames<S: Copy, N>(
    track: DecodedTrack<S, N>,
    from: usize,
    to: usize,
    part: Vec<S>,
    f: int,
)
    requires
        from <= to,
        2 * to <= track.samples@.len(),
        call_ensures(frames_of::<S, N>, (&track, from, to), part),
    ensures
        part@.len() == 2 * (to - from),
        0 <= f < to - from ==> part@[2 * f] == track.samples@[2 * (from + f)] && part@[2 * f + 1]
            == track.samples@[2 * (from + f) + 1],
{
}

// ---------------------------------------------------------------------------
// Signals.

/// A track that was fetched ahead is dropped only for the live source, and only
/// where that does not play already.
pub proof fn law_a_prefetched_track_gives_way_to_live_only(
    current_is_live: bool,
    live_ready: bool,
    dropped: bool,
)
    requires
        call_ensures(drops_prefetched, (current_is_live, live_ready), dropped),
    ensures
        !live_ready ==> !dropped,
        current_is_live ==> !dropped,
        live_ready && !current_is_live ==> dropped,
{
}

/// Tracks are always processed; live audio exactly where the station wants it.
pub proof fn law_live_audio_is_processed_on_request(
    current_is_live: bool,
    include_live: bool,
    yes: bool,
)
    requires
        call_ensures(is_processed, (current_is_live, include_live), yes),
    ensures
        !current_is_live ==> yes,
        current_is_live ==> yes == include_live,
{
}

/// A source that becomes ready skips the current track, once: the next look,
/// with the source still ready, asks for nothing. Nothing else is lost.
pub proof fn law_a_live_source_skips_once(
    control: &mut ControlSignals,
    live: &mut LiveState,
    edge: bool,
    control_then: &mut ControlSignals,
    live_then: &mut LiveState,
    edge_then: bool,
)
    requires
        call_ensures(check_live, (control, live), edge),
        *old(live_then) == *final(live),
        call_ensures(check_live, (control_then, live_then), edge_then),
    ensures
        edge ==> old(live)@.ready && final(control)@.skip,
        !edge ==> final(control)@.skip == old(control)@.skip,
        old(live)@.ready && !old(live)@.to_live ==> edge,
        old(control)@.skip ==> final(control)@.skip,
        !edge_then,
        final(control)@.overrides == old(control)@.overrides,
        final(live)@.ready == old(live)@.ready,
        final(live)@.session == old(live)@.session,
{
}

/// A skip that was asked for is taken once; it counts for tracks and is dropped
/// while the live source plays. Pending metadata stays pending.
pub proof fn law_a_skip_counts_once_and_for_tracks(
    control: &mut ControlSignals,
    current_is_live: bool,
    skip: bool,
    control_then: &mut ControlSignals,
    skip_then: bool,
)
    requires
        call_ensures(take_skip_for, (control, current_is_live), skip),
        *old(control_then) == *final(control),
        call_ensures(take_skip_for, (control_then, false), skip_then),
    ensures
        old(control)@.skip && !current_is_live ==> skip,
        !old(control)@.skip ==> !skip,
        current_is_live ==> !skip,
        !skip_then,
        final(control)@.overrides == old(control)@.overrides,
{
}

/// The transition of a round is that between its two tracks.
pub proof fn law_a_round_has_the_transition_of_its_tracks<S, N: Copy>(
    current: PreparedTrack<S, N>,
    next: PreparedTrack<S, N>,
    start: RoundStart,
    total: usize,
    window: usize,
    default_fade: N,
    end: RoundEnd<N>,
    plan: Option<TransitionPlan<N>>,
)
    requires
        next.decoded.channels > 0,
        call_ensures(
            end_round::<S, N>,
            (&current, &next, &start, total, window, default_fade),
            end,
        ),
        call_ensures(plan_transition_to::<S, N>, (&current, &next, window, default_fade), plan),
    ensures
        end.transition == plan,
{
}

} // verus!
