//! The playback loop: what is played of each track, how it gives way to the
//! next, and when each chunk is due.
//!
//! Three transitions are told apart. Into live, the current track is cut short
//! and the two sides fade one after the other. From live to live the audio
//! simply goes on. From live to a track, and from track to track, the station's
//! crossfade applies.

use vstd::prelude::*;

use crate::control::ControlSignals;
use crate::decode::DecodedTrack;
use crate::harbor::LiveState;
use crate::prepare::{PreparedTrack, TrackMetadata};

verus! {

/// How many frames are emitted at once: a tenth of a second.
pub const EMIT_CHUNK_FRAMES: usize = 4410;

/// How many chunks a slow output may lag behind before it loses some.
pub const TAP_CAPACITY: usize = 64;

// ---------------------------------------------------------------------------
// Pacing.

/// Nanoseconds in a second.
pub const NANOS_PER_SEC: u64 = 1_000_000_000;

/// A quotient rounded to the nearest number, and a half to the even one.
pub open spec fn rounded_quotient(n: nat, d: nat) -> nat {
    let q = n / d;
    let r = n % d;
    if 2 * r > d || (2 * r == d && q % 2 == 1) {
        q + 1
    } else {
        q
    }
}

/// When the given number of frames has been played, in nanoseconds from the
/// start of the stream.
pub open spec fn due_nanos(frames: nat, sample_rate: nat) -> nat {
    rounded_quotient(frames * NANOS_PER_SEC as nat, sample_rate)
}

/// How long to wait before a chunk is emitted, in nanoseconds.
pub open spec fn wait_nanos(elapsed: nat, frames: nat, sample_rate: nat) -> nat {
    let due = due_nanos(frames, sample_rate);
    if due > elapsed {
        (due - elapsed) as nat
    } else {
        0
    }
}

/// How many nanoseconds to wait before a chunk of `chunk_frames` is emitted,
/// when `frames_emitted` went before it and `elapsed` nanoseconds have passed.
/// A stream that has fallen behind does not wait at all, and drops nothing.
pub fn pacing_sleep_duration(
    elapsed: u128,
    frames_emitted: u64,
    chunk_frames: u64,
    sample_rate: u32,
) -> (wait: u128)
    requires
        sample_rate > 0,
        frames_emitted + chunk_frames <= u64::MAX,
    ensures
        wait == wait_nanos(
            elapsed as nat,
            (frames_emitted + chunk_frames) as nat,
            sample_rate as nat,
        ),
{
    let frames: u128 = (frames_emitted + chunk_frames) as u128;
    let rate: u128 = sample_rate as u128;
    let nanos: u128 = frames * 1_000_000_000;
    let whole: u128 = nanos / rate;
    let rest: u128 = nanos % rate;
    let due: u128 = if 2 * rest > rate || (2 * rest == rate && whole % 2 == 1) {
        whole + 1
    } else {
        whole
    };
    if due > elapsed {
        due - elapsed
    } else {
        0
    }
}

/// The clock of the whole stream. It is never reset, so that timing does not
/// jump from track to track. Times are nanoseconds of any steady clock.
#[derive(Debug, Clone, Copy)]
pub struct StreamClock {
    pub start: u128,
    pub frames_emitted: u64,
}

impl StreamClock {
    /// A stream that starts at this time.
    pub fn new(start: u128) -> (clock: StreamClock)
        ensures
            clock.start == start,
            clock.frames_emitted == 0,
    {
        StreamClock { start, frames_emitted: 0 }
    }

    /// How many nanoseconds to wait, as of `now`, before a chunk is emitted. A
    /// time before the start counts as the start.
    pub fn sleep_before_chunk(&self, now: u128, chunk_frames: u64, sample_rate: u32) -> (wait: u128)
        requires
            sample_rate > 0,
            self.frames_emitted + chunk_frames <= u64::MAX,
        ensures
            wait == wait_nanos(
                if now > self.start {
                    (now - self.start) as nat
                } else {
                    0
                },
                (self.frames_emitted + chunk_frames) as nat,
                sample_rate as nat,
            ),
    {
        let elapsed: u128 = if now > self.start {
            now - self.start
        } else {
            0
        };
        pacing_sleep_duration(elapsed, self.frames_emitted, chunk_frames, sample_rate)
    }

    /// Takes note of a chunk that was emitted.
    pub fn advance(&mut self, chunk_frames: u64)
        requires
            old(self).frames_emitted + chunk_frames <= u64::MAX,
        ensures
            final(self).frames_emitted == old(self).frames_emitted + chunk_frames,
            final(self).start == old(self).start,
    {
        self.frames_emitted = self.frames_emitted + chunk_frames;
    }
}

/// Time does not run backwards: more frames are never due earlier.
pub proof fn law_due_times_never_decrease(frames: nat, more: nat, sample_rate: nat)
    requires
        sample_rate > 0,
    ensures
        due_nanos(frames, sample_rate) <= due_nanos(frames + more, sample_rate),
{
    let n = (frames * NANOS_PER_SEC as nat) as int;
    let m = ((frames + more) * NANOS_PER_SEC as nat) as int;
    let d = sample_rate as int;
    vstd::arithmetic::div_mod::lemma_div_is_ordered(n, m, d);
    vstd::arithmetic::div_mod::lemma_fundamental_div_mod(n, d);
    vstd::arithmetic::div_mod::lemma_fundamental_div_mod(m, d);
}

/// A stream that waits as it is told emits each chunk when it is due or, where
/// it was already late, at once.
pub proof fn law_waiting_keeps_the_stream_on_time(elapsed: nat, frames: nat, sample_rate: nat)
    requires
        sample_rate > 0,
    ensures
        ({
            let due = due_nanos(frames, sample_rate);
            let emitted_at = elapsed + wait_nanos(elapsed, frames, sample_rate);
            &&& elapsed <= due ==> emitted_at == due
            &&& elapsed > due ==> emitted_at == elapsed
        }),
{
}

/// A second of audio takes a second.
pub proof fn law_whole_seconds_are_exact(seconds: nat, sample_rate: nat)
    requires
        sample_rate > 0,
    ensures
        due_nanos(seconds * sample_rate, sample_rate) == seconds * NANOS_PER_SEC as nat,
{
    let n = NANOS_PER_SEC as nat;
    let x = (seconds * n) as int;
    let r = sample_rate as int;
    assert(seconds * sample_rate * n == x * r) by (nonlinear_arith)
        requires
            x == seconds * n,
            r == sample_rate,
    ;
    vstd::arithmetic::div_mod::lemma_fundamental_div_mod_converse(x * r, r, x, 0);
}

// ---------------------------------------------------------------------------
// What is played of a track.

/// How much of a track is played as it is, and where the part that is mixed
/// with the next track ends. In frames.
#[derive(Debug, Clone, Copy, PartialEq, Eq, Structural)]
pub struct BodyPlan {
    pub body_end: usize,
    pub tail_end: usize,
}

/// What is left of a track of `total` frames of which `played` are past: all
/// but the last `window` are played as they are. A skip leaves one window from
/// here on, which is mixed with the next track.
pub open spec fn planned_body(total: nat, played: nat, window: nat, skip: bool) -> (nat, nat) {
    if skip {
        (played, crate::crossfade::least(played + window, total))
    } else {
        (
            crate::crossfade::most(
                if total > window {
                    (total - window) as nat
                } else {
                    0
                },
                played,
            ),
            total,
        )
    }
}

/// Plans what is played of a track.
pub fn plan_body(total: usize, played: usize, window: usize, skip: bool) -> (plan: BodyPlan)
    requires
        played <= total,
    ensures
        (plan.body_end as nat, plan.tail_end as nat) == planned_body(
            total as nat,
            played as nat,
            window as nat,
            skip,
        ),
        played <= plan.body_end <= plan.tail_end <= total,
{
    if skip {
        let tail_end = if window < total - played {
            played + window
        } else {
            total
        };
        return BodyPlan { body_end: played, tail_end };
    }
    let start = if total > window {
        total - window
    } else {
        0
    };
    let body_end = if start < played {
        played
    } else {
        start
    };
    BodyPlan { body_end, tail_end: total }
}

/// A skipped track has no body left, and at most one window of it is still
/// heard.
pub proof fn law_a_skip_ends_the_track_within_one_window(total: nat, played: nat, window: nat)
    requires
        played <= total,
    ensures
        ({
            let (body_end, tail_end) = planned_body(total, played, window, true);
            body_end == played && tail_end - played <= window && tail_end <= total
        }),
{
}

// ---------------------------------------------------------------------------
// The transition to the next track.

/// How the transition to the next track goes.
#[derive(Debug, Clone, Copy)]
pub struct TransitionPlan<N> {
    /// How many frames of the next track are mixed in.
    pub head_frames: usize,
    pub fade_out: N,
    pub fade_in: N,
    pub to_live: bool,
}

/// The fades of a transition. Into live both are the station's default; else
/// each track's own fade counts, if it has one. The live source has none.
pub open spec fn chosen_fades<N>(
    default_fade: N,
    current_fade_out: Option<N>,
    current_is_live: bool,
    next_fade_in: Option<N>,
    to_live: bool,
) -> (N, N) {
    if to_live {
        (default_fade, default_fade)
    } else {
        (
            match current_fade_out {
                Some(f) if !current_is_live => f,
                _ => default_fade,
            },
            match next_fade_in {
                Some(f) => f,
                None => default_fade,
            },
        )
    }
}

/// Whether this is how the transition from one track to the next goes; there
/// is none where live audio follows live audio.
pub open spec fn is_transition<S, N>(
    current: PreparedTrack<S, N>,
    next: PreparedTrack<S, N>,
    window: nat,
    default_fade: N,
    plan: Option<TransitionPlan<N>>,
) -> bool {
    match plan {
        None => current.is_live && next.is_live,
        Some(p) => {
            &&& !(current.is_live && next.is_live)
            &&& p.head_frames == crate::crossfade::least(window, next.decoded.frame_count())
            &&& p.to_live == next.is_live
            &&& (p.fade_out, p.fade_in) == chosen_fades(
                default_fade,
                current.fade_out_override,
                current.is_live,
                next.fade_in_override,
                next.is_live,
            )
        },
    }
}

/// Plans the transition from one track to the next.
pub fn plan_transition_to<S, N: Copy>(
    current: &PreparedTrack<S, N>,
    next: &PreparedTrack<S, N>,
    window: usize,
    default_fade: N,
) -> (plan: Option<TransitionPlan<N>>)
    requires
        next.decoded.channels > 0,
    ensures
        is_transition(*current, *next, window as nat, default_fade, plan),
{
    if current.is_live && next.is_live {
        return None;
    }
    let next_frames = next.decoded.frames();
    let head_frames = if window < next_frames {
        window
    } else {
        next_frames
    };
    if next.is_live {
        return Some(
            TransitionPlan {
                head_frames,
                fade_out: default_fade,
                fade_in: default_fade,
                to_live: true,
            },
        );
    }
    let fade_out = match current.fade_out_override {
        Some(f) => if current.is_live {
            default_fade
        } else {
            f
        },
        None => default_fade,
    };
    let fade_in = match next.fade_in_override {
        Some(f) => f,
        None => default_fade,
    };
    Some(TransitionPlan { head_frames, fade_out, fade_in, to_live: false })
}

/// A copy of the frames `from..to` of stereo samples.
pub fn frames_of<S: Copy, N>(track: &DecodedTrack<S, N>, from: usize, to: usize) -> (part: Vec<S>)
    requires
        from <= to,
        2 * to <= track.samples@.len(),
    ensures
        part@ == track.samples@.subrange(2 * from as int, 2 * to as int),
{
    let len = track.samples.len();
    assert(2 * to <= len);
    let end = 2 * to;
    let mut part: Vec<S> = Vec::new();
    let mut i: usize = 2 * from;
    while i < end
        invariant
            2 * from <= i <= end <= track.samples@.len(),
            part@ == track.samples@.subrange(2 * from as int, i as int),
        decreases end - i,
    {
        part.push(track.samples[i]);
        i += 1;
    }
    part
}

/// The live source is outranked at the last moment too: a track that was
/// fetched ahead is dropped where the live source has become ready since.
pub fn drops_prefetched(current_is_live: bool, live_ready: bool) -> (yes: bool)
    ensures
        yes == (!current_is_live && live_ready),
{
    !current_is_live && live_ready
}

/// Whether audio of the current track is post-processed: that of the live
/// source only where the station wants it.
pub fn is_processed(current_is_live: bool, include_live: bool) -> (yes: bool)
    ensures
        yes == (!current_is_live || include_live),
{
    !current_is_live || include_live
}

// ---------------------------------------------------------------------------
// A round of the loop.

/// What is done with a track before its successor is needed. In frames.
#[derive(Debug)]
pub struct RoundStart {
    /// Whether the successor is fetched while the track plays.
    pub prefetch: bool,
    /// What is played as it is meanwhile: from the first to before the second.
    pub body: (usize, usize),
    pub plan: BodyPlan,
}

/// What is done with a track once its successor is there. In frames.
#[derive(Debug)]
pub struct RoundEnd<N> {
    /// What is still played as it is: from the first to before the second.
    pub rest: (usize, usize),
    /// What is mixed with the next track: from the first to before the second.
    pub tail: (usize, usize),
    pub transition: Option<TransitionPlan<N>>,
    /// How much of the next track has been played after the transition.
    pub next_played: usize,
}

/// The part of a track that is played before its successor is needed. What the
/// live source brings next is known only when it is there, so nothing of a
/// live chunk is played before.
pub open spec fn body_part(
    current_is_live: bool,
    total: nat,
    played: nat,
    window: nat,
    skip: bool,
) -> (nat, nat) {
    (
        played,
        if current_is_live {
            played
        } else {
            planned_body(total, played, window, skip).0
        },
    )
}

/// The part that is played as it is once the successor is there: of a live
/// chunk all, if more live audio follows.
pub open spec fn rest_part(
    current_is_live: bool,
    next_is_live: bool,
    total: nat,
    played: nat,
    window: nat,
    skip: bool,
) -> (nat, nat) {
    (
        body_part(current_is_live, total, played, window, skip).1,
        if current_is_live && next_is_live {
            total
        } else {
            planned_body(total, played, window, skip).0
        },
    )
}

/// The part that is mixed with the successor.
pub open spec fn tail_part(
    current_is_live: bool,
    next_is_live: bool,
    total: nat,
    played: nat,
    window: nat,
    skip: bool,
) -> (nat, nat) {
    if current_is_live && next_is_live {
        (total, total)
    } else {
        planned_body(total, played, window, skip)
    }
}

/// A part as mathematical numbers.
pub open spec fn part_of(range: (usize, usize)) -> (nat, nat) {
    (range.0 as nat, range.1 as nat)
}

/// Whether this is how a round starts.
pub open spec fn is_round_start(
    start: RoundStart,
    current_is_live: bool,
    total: nat,
    played: nat,
    window: nat,
    skip: bool,
) -> bool {
    &&& start.prefetch == !current_is_live
    &&& part_of(start.body) == body_part(current_is_live, total, played, window, skip)
    &&& (start.plan.body_end as nat, start.plan.tail_end as nat) == planned_body(
        total,
        played,
        window,
        skip,
    )
}

/// Plans a track up to the point where its successor is needed.
pub fn start_round(
    current_is_live: bool,
    total: usize,
    played: usize,
    window: usize,
    skip: bool,
) -> (start: RoundStart)
    requires
        played <= total,
    ensures
        is_round_start(
            start,
            current_is_live,
            total as nat,
            played as nat,
            window as nat,
            skip,
        ),
        played <= start.body.1 <= start.plan.body_end <= start.plan.tail_end <= total,
{
    let plan = plan_body(total, played, window, skip);
    let body_end = if current_is_live {
        played
    } else {
        plan.body_end
    };
    RoundStart { prefetch: !current_is_live, body: (played, body_end), plan }
}

/// Plans the rest of a track, and the transition to its successor.
pub fn end_round<S, N: Copy>(
    current: &PreparedTrack<S, N>,
    next: &PreparedTrack<S, N>,
    start: &RoundStart,
    total: usize,
    window: usize,
    default_fade: N,
) -> (end: RoundEnd<N>)
    requires
        next.decoded.channels > 0,
    ensures
        is_transition(*current, *next, window as nat, default_fade, end.transition),
        end.rest == (start.body.1, if current.is_live && next.is_live {
            total
        } else {
            start.plan.body_end
        }),
        end.tail == (if current.is_live && next.is_live {
            (total, total)
        } else {
            (start.plan.body_end, start.plan.tail_end)
        }),
        forall|played: nat, skip: bool|
            #[trigger] is_round_start(
                *start,
                current.is_live,
                total as nat,
                played,
                window as nat,
                skip,
            ) ==> {
                &&& part_of(end.rest) == rest_part(
                    current.is_live,
                    next.is_live,
                    total as nat,
                    played,
                    window as nat,
                    skip,
                )
                &&& part_of(end.tail) == tail_part(
                    current.is_live,
                    next.is_live,
                    total as nat,
                    played,
                    window as nat,
                    skip,
                )
            },
        end.next_played == match end.transition {
            Some(t) => t.head_frames,
            None => 0,
        },
{
    let transition = plan_transition_to(current, next, window, default_fade);
    match transition {
        Some(t) => RoundEnd {
            rest: (start.body.1, start.plan.body_end),
            tail: (start.plan.body_end, start.plan.tail_end),
            transition,
            next_played: t.head_frames,
        },
        None => RoundEnd {
            rest: (start.body.1, total),
            tail: (total, total),
            transition,
            next_played: 0,
        },
    }
}

/// The stereo samples of a part.
pub open spec fn part_samples<S>(samples: Seq<S>, part: (nat, nat)) -> Seq<S> {
    samples.subrange(2 * part.0 as int, 2 * part.1 as int)
}

/// Whatever follows a track, it is played once: its body, its rest and its
/// tail, one after the other, are what was left of it, with nothing lost or
/// repeated. Unless it is skipped, that is all up to its end.
pub proof fn law_a_track_is_played_to_its_end<S>(
    samples: Seq<S>,
    current_is_live: bool,
    next_is_live: bool,
    total: nat,
    played: nat,
    window: nat,
    skip: bool,
)
    requires
        played <= total,
        samples.len() == 2 * total,
    ensures
        ({
            let body = body_part(current_is_live, total, played, window, skip);
            let rest = rest_part(current_is_live, next_is_live, total, played, window, skip);
            let tail = tail_part(current_is_live, next_is_live, total, played, window, skip);
            &&& part_samples(samples, body) + part_samples(samples, rest) + part_samples(
                samples,
                tail,
            ) == part_samples(samples, (played, tail.1))
            &&& !skip ==> part_samples(samples, (played, tail.1)) == samples.skip(2 * played as int)
        }),
{
    let body = body_part(current_is_live, total, played, window, skip);
    let rest = rest_part(current_is_live, next_is_live, total, played, window, skip);
    let tail = tail_part(current_is_live, next_is_live, total, played, window, skip);
    assert(played <= body.1 <= rest.1 <= tail.1 <= total);
    assert(part_samples(samples, body) + part_samples(samples, rest) + part_samples(samples, tail)
        =~= part_samples(samples, (played, tail.1)));
    if !skip {
        assert(part_samples(samples, (played, tail.1)) =~= samples.skip(2 * played as int));
    }
}

/// Takes a pending metadata override and applies it to the current track.
/// Returns whether there was one: the track has to be reported again.
pub fn take_overrides(control: &mut ControlSignals, metadata: &mut TrackMetadata) -> (changed: bool)
    ensures
        changed == (old(control)@.overrides != Map::<Seq<char>, Seq<char>>::empty()),
        final(metadata)@ == crate::prepare::with_overrides(
            old(metadata)@,
            old(control)@.overrides,
        ),
        final(control)@.overrides == Map::<Seq<char>, Seq<char>>::empty(),
        final(control)@.skip == old(control)@.skip,
{
    match control.take_metadata_override() {
        Some(overrides) => {
            metadata.apply_overrides(&overrides);
            true
        },
        None => false,
    }
}

/// Asks for a skip where the live source has become ready since this was last
/// called. Returns whether it has.
pub fn check_live(control: &mut ControlSignals, live: &mut LiveState) -> (edge: bool)
    ensures
        edge == (old(live)@.ready && !old(live)@.to_live),
        final(control)@.skip == (old(control)@.skip || edge),
        final(control)@.overrides == old(control)@.overrides,
        final(live)@ == (crate::harbor::LiveView { to_live: old(live)@.ready, ..old(live)@ }),
{
    let edge = live.poll_transition();
    if edge {
        control.request_skip();
    }
    edge
}

/// Takes a pending skip. It counts for tracks only: asked for while the live
/// source plays, it is dropped.
pub fn take_skip_for(control: &mut ControlSignals, current_is_live: bool) -> (skip: bool)
    ensures
        skip == (old(control)@.skip && !current_is_live),
        !final(control)@.skip,
        final(control)@.overrides == old(control)@.overrides,
{
    let skip = control.take_skip();
    skip && !current_is_live
}

} // verus!
