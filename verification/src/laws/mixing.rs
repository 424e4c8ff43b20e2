//! Crossfades.

use vstd::prelude::*;

use crate::crossfade::{
    apply_fade_in, apply_fade_out, compare_loudness, measures_loudness, mix_add_fade,
    mix_transition, mix_with_params, plan_transition, select_smart_branch, sequence,
    to_live_transition, CrossfadeMode, CrossfadeParams, CrossfadeThresholds, FadeCurve, FadePoint,
    LoudnessComparison, SmartBranch, Transition,
};

verus! {

// ---------------------------------------------------------------------------
// Which branch.

/// Both tracks are played over each other without a fade only where the
/// outgoing one is at most medium and the incoming one is louder than it by
/// the margin and not too loud; both are faded only where both are at most
/// medium and alike; and one of them keeps its volume while the other fades
/// only where it is the louder one by the margin, not too loud, and the other
/// at least medium.
pub proof fn law_a_branch_has_its_reason(c: LoudnessComparison, branch: SmartBranch)
    requires
        call_ensures(select_smart_branch, (&c,), branch),
    ensures
        branch == SmartBranch::HardCutIn ==> c.a_at_most_medium && c.b_louder_by_margin
            && c.b_at_most_high,
        branch == SmartBranch::FullCrossfade ==> c.a_at_most_medium && c.b_at_most_medium
            && c.within_margin,
        branch == SmartBranch::FadeOutOnly ==> c.b_louder_by_margin && c.a_at_least_medium
            && c.b_at_most_high,
        branch == SmartBranch::FadeInOnly ==> c.a_louder_by_margin && c.b_at_least_medium
            && c.a_at_most_high,
{
}

/// Where neither side is louder than the other by the margin, there is a full
/// crossfade or no overlap at all: the first where both are at most medium and
/// alike, the second everywhere else. Where the louder side is too loud and
/// there is no full crossfade, there is no overlap either.
pub proof fn law_tracks_of_like_loudness_are_not_piled_up(
    c: LoudnessComparison,
    branch: SmartBranch,
)
    requires
        call_ensures(select_smart_branch, (&c,), branch),
    ensures
        !c.a_louder_by_margin && !c.b_louder_by_margin && !(c.a_at_most_medium
            && c.b_at_most_medium) ==> branch == SmartBranch::HardSequentialCut,
        !c.a_louder_by_margin && !c.b_louder_by_margin ==> branch
            == SmartBranch::HardSequentialCut || branch == SmartBranch::FullCrossfade,
        c.a_at_most_medium && c.b_at_most_medium && c.within_margin ==> branch
            == SmartBranch::FullCrossfade,
        !c.a_at_most_high && !c.b_at_most_high && branch != SmartBranch::FullCrossfade ==> branch
            == SmartBranch::HardSequentialCut,
{
}

/// A track that is much louder than the other, and not too loud, overlaps it:
/// there is a cut only where the louder one is too loud, or where the outgoing
/// one is the louder and the incoming one below medium.
pub proof fn law_a_much_louder_track_overlaps(c: LoudnessComparison, branch: SmartBranch)
    requires
        call_ensures(select_smart_branch, (&c,), branch),
        branch != SmartBranch::FullCrossfade,
    ensures
        c.b_louder_by_margin && c.b_at_most_high && c.a_at_least_medium ==> branch
            == SmartBranch::FadeOutOnly,
        c.b_louder_by_margin && c.b_at_most_high && !c.a_at_least_medium && c.a_at_most_medium
            && !c.a_louder_by_margin ==> branch == SmartBranch::HardCutIn,
        c.a_louder_by_margin && !c.b_louder_by_margin && c.a_at_most_high && c.b_at_least_medium
            ==> branch == SmartBranch::FadeInOnly,
        c.a_louder_by_margin && !c.b_louder_by_margin && !(c.a_at_most_high
            && c.b_at_least_medium) ==> branch == SmartBranch::HardSequentialCut,
{
}

/// The caller's functions on levels are those of whole decibels.
pub open spec fn counts_decibels<
    C: Fn(i64, i64) -> bool,
    P: Fn(i64, i64) -> i64,
    D: Fn(i64, i64) -> i64,
>(at_most: C, plus: P, distance: D) -> bool {
    &&& forall|x: i64, y: i64, r: bool|
        #[trigger] call_ensures(at_most, (x, y), r) ==> r == (x <= y)
    &&& forall|x: i64, y: i64, r: i64| #[trigger] call_ensures(plus, (x, y), r) ==> r == x + y
    &&& forall|x: i64, y: i64, r: i64|
        #[trigger] call_ensures(distance, (x, y), r) ==> (x <= y ==> r == y - x) && (y <= x ==> r
            == x - y)
}

/// The branch by the levels themselves: `a` decibels go out and `b` come in.
pub proof fn law_levels_pick_the_branch<
    C: Fn(i64, i64) -> bool,
    P: Fn(i64, i64) -> i64,
    D: Fn(i64, i64) -> i64,
>(
    a: i64,
    b: i64,
    t: CrossfadeThresholds<i64>,
    at_most: C,
    plus: P,
    distance: D,
    c: LoudnessComparison,
    branch: SmartBranch,
)
    requires
        counts_decibels(at_most, plus, distance),
        t.margin > 0,
        t.medium <= t.high,
        call_ensures(
            compare_loudness::<i64, C, P, D>,
            (a, b, &t, &at_most, &plus, &distance),
            c,
        ),
        call_ensures(select_smart_branch, (&c,), branch),
    ensures
        branch == SmartBranch::FullCrossfade <==> a <= t.medium && b <= t.medium && a - b
            <= t.margin && b - a <= t.margin,
        branch == SmartBranch::FadeOutOnly <==> t.medium <= a && a + t.margin <= b <= t.high,
        branch == SmartBranch::FadeInOnly <==> t.medium <= b && b + t.margin <= a <= t.high,
        branch == SmartBranch::HardCutIn <==> a < t.medium && a + t.margin <= b <= t.high && !(b
            <= t.medium && b == a + t.margin),
        a - b < t.margin && b - a < t.margin && (a > t.medium || b > t.medium) ==> branch
            == SmartBranch::HardSequentialCut,
{
}

// ---------------------------------------------------------------------------
// How a transition is laid out.

/// The fade at the end of the outgoing side is the one that was asked for at
/// its end, or none, and never the other's; and so at the start of the
/// incoming side.
pub proof fn law_fades_stay_on_their_side(
    to_live: bool,
    mode: CrossfadeMode,
    branch: SmartBranch,
    fade_out: usize,
    fade_in: usize,
    transition: Transition,
)
    requires
        call_ensures(plan_transition, (to_live, mode, branch, fade_out, fade_in), transition),
    ensures
        match transition {
            Transition::Overlap { curve, fade_out_frames, fade_in_frames } => {
                &&& fade_out_frames == fade_out || fade_out_frames == 0
                &&& fade_in_frames == fade_in || fade_in_frames == 0
                &&& !to_live
                &&& curve == FadeCurve::Sine <==> mode == CrossfadeMode::Smart
                &&& mode != CrossfadeMode::Smart ==> fade_out_frames == fade_out && fade_in_frames
                    == fade_in
            },
            Transition::FadedSequence { fade_out_frames, fade_in_frames } => to_live
                && fade_out_frames == fade_out && fade_in_frames == fade_in,
            Transition::Sequence => !to_live && mode == CrossfadeMode::Smart && branch
                == SmartBranch::HardSequentialCut,
        },
{
}

/// In smart mode the branch says which side keeps its volume: the outgoing one
/// where it only fades in or cuts in, the incoming one where it only fades out
/// or cuts in; and nothing overlaps exactly where the branch says so.
pub proof fn law_a_branch_says_who_fades(
    branch: SmartBranch,
    fade_out: usize,
    fade_in: usize,
    transition: Transition,
)
    requires
        fade_out > 0,
        fade_in > 0,
        call_ensures(
            plan_transition,
            (false, CrossfadeMode::Smart, branch, fade_out, fade_in),
            transition,
        ),
    ensures
        transition is Sequence <==> branch == SmartBranch::HardSequentialCut,
        transition matches Transition::Overlap { curve, fade_out_frames, fade_in_frames } ==> {
            &&& fade_out_frames == 0 <==> branch == SmartBranch::FadeInOnly || branch
                == SmartBranch::HardCutIn
            &&& fade_in_frames == 0 <==> branch == SmartBranch::FadeOutOnly || branch
                == SmartBranch::HardCutIn
        },
{
}

/// The loudness is measured exactly where it makes a difference to the layout.
pub proof fn law_loudness_is_measured_where_it_matters(
    to_live: bool,
    mode: CrossfadeMode,
    measured: bool,
    fade_out: usize,
    fade_in: usize,
    one: SmartBranch,
    one_layout: Transition,
    other: SmartBranch,
    other_layout: Transition,
)
    requires
        call_ensures(measures_loudness, (to_live, mode), measured),
        call_ensures(plan_transition, (to_live, mode, one, fade_out, fade_in), one_layout),
        call_ensures(plan_transition, (to_live, mode, other, fade_out, fade_in), other_layout),
    ensures
        !measured ==> one_layout == other_layout,
        measured && fade_out > 0 && fade_in > 0 && one != other ==> one_layout != other_layout,
{
}

// ---------------------------------------------------------------------------
// What is heard.

/// The samples of frame `f` of `frames`: `i` is one of them.
pub open spec fn is_in_frame(i: int, channels: int, f: int) -> bool {
    f * channels <= i < (f + 1) * channels
}

proof fn lemma_frame_of(i: int, channels: int, f: int)
    requires
        channels > 0,
        is_in_frame(i, channels, f),
    ensures
        i / channels == f,
{
    assert(0 <= i - f * channels < channels) by (nonlinear_arith)
        requires
            f * channels <= i < (f + 1) * channels,
    ;
    assert(i == f * channels + (i - f * channels));
    vstd::arithmetic::div_mod::lemma_fundamental_div_mod_converse(
        i,
        channels,
        f,
        i - f * channels,
    );
}

proof fn lemma_whole_frames(len: int, channels: int, frames: int)
    requires
        channels > 0,
        len == frames * channels,
    ensures
        len / channels == frames,
{
    vstd::arithmetic::div_mod::lemma_fundamental_div_mod_converse(len, channels, frames, 0);
}

/// A fade-out touches the last frames only, as many as were asked for or as
/// there are, and takes each of them one step further down; whatever comes
/// before is as it was.
pub proof fn law_a_fade_out_touches_the_end_only<S: Copy, F: Fn(S, FadePoint) -> S>(
    samples: &[S],
    channels: usize,
    frames: int,
    fade_frames: usize,
    curve: FadeCurve,
    fade: F,
    out: Vec<S>,
    f: int,
    i: int,
)
    requires
        channels > 0,
        samples@.len() == frames * channels,
        call_ensures(apply_fade_out::<S, F>, (samples, channels, fade_frames, curve, &fade), out),
        0 <= f < frames,
        is_in_frame(i, channels as int, f),
        0 <= i < samples@.len(),
        samples@.len() <= usize::MAX,
    ensures
        out@.len() == samples@.len(),
        f < frames - fade_frames ==> out@[i] == samples@[i],
        frames - fade_frames <= f && fade_frames <= frames ==> call_ensures(
            fade,
            (
                samples@[i],
                FadePoint {
                    curve,
                    rising: false,
                    at: (f - (frames - fade_frames)) as usize,
                    of: fade_frames,
                },
            ),
            out@[i],
        ),
        fade_frames > frames ==> call_ensures(
            fade,
            (samples@[i], FadePoint { curve, rising: false, at: f as usize, of: frames as usize }),
            out@[i],
        ),
{
    lemma_frame_of(i, channels as int, f);
    lemma_whole_frames(samples@.len() as int, channels as int, frames);
    assert(out@[i] == out@[i]);
}

/// A fade-in touches the first frames only, as many as were asked for or as
/// there are, and takes each of them one step further up; whatever comes after
/// is as it was.
pub proof fn law_a_fade_in_touches_the_start_only<S: Copy, F: Fn(S, FadePoint) -> S>(
    samples: &[S],
    channels: usize,
    frames: int,
    fade_frames: usize,
    curve: FadeCurve,
    fade: F,
    out: Vec<S>,
    f: int,
    i: int,
)
    requires
        channels > 0,
        samples@.len() == frames * channels,
        call_ensures(apply_fade_in::<S, F>, (samples, channels, fade_frames, curve, &fade), out),
        0 <= f < frames,
        is_in_frame(i, channels as int, f),
        0 <= i < samples@.len(),
        samples@.len() <= usize::MAX,
    ensures
        out@.len() == samples@.len(),
        f >= fade_frames ==> out@[i] == samples@[i],
        f < fade_frames <= frames ==> call_ensures(
            fade,
            (samples@[i], FadePoint { curve, rising: true, at: f as usize, of: fade_frames }),
            out@[i],
        ),
        fade_frames > frames ==> call_ensures(
            fade,
            (samples@[i], FadePoint { curve, rising: true, at: f as usize, of: frames as usize }),
            out@[i],
        ),
{
    lemma_frame_of(i, channels as int, f);
    lemma_whole_frames(samples@.len() as int, channels as int, frames);
    assert(out@[i] == out@[i]);
}

/// Into live, the outgoing side is heard to its end and only then the incoming
/// one: away from where they meet, both are as they were, and where they meet,
/// the first falls and the second rises, in a straight line.
pub proof fn law_going_live_fades_one_after_the_other<S: Copy, F: Fn(S, FadePoint) -> S>(
    old_tail: &[S],
    new_head: &[S],
    channels: usize,
    old_frames: int,
    new_frames: int,
    fade_out: usize,
    fade_in: usize,
    fade: F,
    out: Vec<S>,
    f: int,
    i: int,
)
    requires
        channels > 0,
        old_tail@.len() == old_frames * channels,
        new_head@.len() == new_frames * channels,
        fade_out <= old_frames,
        fade_in <= new_frames,
        old_tail@.len() <= usize::MAX,
        new_head@.len() <= usize::MAX,
        call_ensures(
            to_live_transition::<S, F>,
            (old_tail, new_head, channels, fade_out, fade_in, &fade),
            out,
        ),
        f >= 0,
        i >= 0,
        is_in_frame(i, channels as int, f),
    ensures
        out@.len() == old_tail@.len() + new_head@.len(),
        i < old_tail@.len() && f < old_frames - fade_out ==> out@[i] == old_tail@[i],
        i < old_tail@.len() && f >= old_frames - fade_out ==> call_ensures(
            fade,
            (
                old_tail@[i],
                FadePoint {
                    curve: FadeCurve::Linear,
                    rising: false,
                    at: (f - (old_frames - fade_out)) as usize,
                    of: fade_out,
                },
            ),
            out@[i],
        ),
        i < new_head@.len() && f >= fade_in ==> out@[old_tail@.len() + i] == new_head@[i],
        i < new_head@.len() && f < fade_in ==> call_ensures(
            fade,
            (
                new_head@[i],
                FadePoint { curve: FadeCurve::Linear, rising: true, at: f as usize, of: fade_in },
            ),
            out@[old_tail@.len() + i],
        ),
{
    let n = old_tail@.len() as int;
    let c = channels as int;
    lemma_frame_of(i, c, f);
    lemma_whole_frames(n, c, old_frames);
    lemma_whole_frames(new_head@.len() as int, c, new_frames);
    if i < n {
        assert(out@.take(n)[i] == out@[i]);
        assert(f < old_frames) by (nonlinear_arith)
            requires
                f * c <= i < old_frames * c,
                c > 0,
        ;
    }
    if i < new_head@.len() {
        assert(out@.skip(n)[i] == out@[n + i]);
        assert(f < new_frames) by (nonlinear_arith)
            requires
                f * c <= i < new_frames * c,
                c > 0,
        ;
    }
}

/// One after the other means: first all of the outgoing side, then all of the
/// incoming one.
pub proof fn law_a_sequence_is_both_in_turn<S: Copy>(
    old_tail: &[S],
    new_head: &[S],
    out: Vec<S>,
    i: int,
)
    requires
        call_ensures(sequence::<S>, (old_tail, new_head), out),
    ensures
        out@.len() == old_tail@.len() + new_head@.len(),
        0 <= i < old_tail@.len() ==> out@[i] == old_tail@[i],
        0 <= i < new_head@.len() ==> out@[old_tail@.len() + i] == new_head@[i],
{
}

/// `out` is the sum of silence and these two samples.
pub open spec fn sums_up<S, M: Fn(S, S) -> S>(sum: M, zero: S, x: S, y: S, out: S) -> bool {
    exists|mid: S|
        #![trigger call_ensures(sum, (zero, x), mid)]
        call_ensures(sum, (zero, x), mid) && call_ensures(sum, (mid, y), out)
}

/// An overlap lasts as long as the longer side. Where both sides are there and
/// neither is in its fade, each sample is the sum of both; once one side is
/// over, it is the other side alone.
pub proof fn law_an_overlap_is_the_sum_of_both<
    S: Copy,
    F: Fn(S, FadePoint) -> S,
    M: Fn(S, S) -> S,
>(
    old_tail: &[S],
    new_head: &[S],
    channels: usize,
    old_frames: int,
    new_frames: int,
    fade_out: usize,
    fade_in: usize,
    curve: FadeCurve,
    zero: S,
    fade: F,
    sum: M,
    out: Vec<S>,
    f: int,
    i: int,
)
    requires
        channels > 0,
        old_tail@.len() == old_frames * channels,
        new_head@.len() == new_frames * channels,
        call_ensures(
            mix_add_fade::<S, F, M>,
            (old_tail, new_head, channels, fade_out, fade_in, curve, zero, &fade, &sum),
            out,
        ),
        f >= 0,
        i >= 0,
        is_in_frame(i, channels as int, f),
    ensures
        out@.len() == if old_tail@.len() < new_head@.len() {
            new_head@.len()
        } else {
            old_tail@.len()
        },
        i < old_tail@.len() && i < new_head@.len() && fade_in <= f < old_frames - fade_out
            ==> sums_up(sum, zero, old_tail@[i], new_head@[i], out@[i]),
        i < old_tail@.len() && i >= new_head@.len() && f < old_frames - fade_out ==> call_ensures(
            sum,
            (zero, old_tail@[i]),
            out@[i],
        ),
        i >= old_tail@.len() && i < new_head@.len() && fade_in <= f ==> call_ensures(
            sum,
            (zero, new_head@[i]),
            out@[i],
        ),
{
    let c = channels as int;
    lemma_frame_of(i, c, f);
    lemma_whole_frames(old_tail@.len() as int, c, old_frames);
    lemma_whole_frames(new_head@.len() as int, c, new_frames);
    lemma_same_frame(i, c, f, old_frames);
    lemma_same_frame(i, c, f, new_frames);
    assert(old_frames < new_frames <==> old_frames * c < new_frames * c) by (nonlinear_arith)
        requires
            c > 0,
    ;
    if i < out@.len() {
        let old_part = crate::crossfade::old_side(old_tail@, channels, curve, fade_out, i);
        let new_part = crate::crossfade::new_side(new_head@, channels, curve, fade_in, i);
        assert(crate::crossfade::is_mixed(fade, sum, zero, old_part, new_part, out@[i]));
        let mid = choose|mid: S|
            crate::crossfade::is_added(fade, sum, zero, old_part, mid)
                && crate::crossfade::is_added(fade, sum, mid, new_part, out@[i]);
        assert(crate::crossfade::is_added(fade, sum, zero, old_part, mid)
            && crate::crossfade::is_added(fade, sum, mid, new_part, out@[i]));
    }
}

/// A sample is inside so many frames exactly where its frame is.
proof fn lemma_same_frame(i: int, channels: int, f: int, frames: int)
    requires
        channels > 0,
        is_in_frame(i, channels, f),
    ensures
        f < frames <==> i < frames * channels,
{
    assert(f < frames <==> i < frames * channels) by (nonlinear_arith)
        requires
            channels > 0,
            f * channels <= i < (f + 1) * channels,
    ;
}

/// In a fade, each side of an overlap is its own faded sample: the outgoing
/// one falls over its last frames and the incoming one rises over its first.
pub proof fn law_an_overlap_fades_both_sides<
    S: Copy,
    F: Fn(S, FadePoint) -> S,
    M: Fn(S, S) -> S,
>(
    old_tail: &[S],
    new_head: &[S],
    channels: usize,
    frames: int,
    fade_out: usize,
    fade_in: usize,
    curve: FadeCurve,
    zero: S,
    fade: F,
    sum: M,
    out: Vec<S>,
    f: int,
    i: int,
) -> (faded: (S, S))
    requires
        channels > 0,
        old_tail@.len() == frames * channels,
        new_head@.len() == frames * channels,
        old_tail@.len() <= usize::MAX,
        fade_out <= frames,
        fade_in <= frames,
        call_ensures(
            mix_add_fade::<S, F, M>,
            (old_tail, new_head, channels, fade_out, fade_in, curve, zero, &fade, &sum),
            out,
        ),
        0 <= f < frames,
        i >= 0,
        is_in_frame(i, channels as int, f),
        frames - fade_out <= f < fade_in,
    ensures
        call_ensures(
            fade,
            (
                old_tail@[i],
                FadePoint {
                    curve,
                    rising: false,
                    at: (f - (frames - fade_out)) as usize,
                    of: fade_out,
                },
            ),
            faded.0,
        ),
        call_ensures(
            fade,
            (new_head@[i], FadePoint { curve, rising: true, at: f as usize, of: fade_in }),
            faded.1,
        ),
        sums_up(sum, zero, faded.0, faded.1, out@[i]),
{
    let c = channels as int;
    lemma_frame_of(i, c, f);
    lemma_whole_frames(old_tail@.len() as int, c, frames);
    lemma_same_frame(i, c, f, frames);
    let old_part = crate::crossfade::old_side(old_tail@, channels, curve, fade_out, i);
    let new_part = crate::crossfade::new_side(new_head@, channels, curve, fade_in, i);
    assert(crate::crossfade::is_mixed(fade, sum, zero, old_part, new_part, out@[i]));
    let mid = choose|mid: S|
        crate::crossfade::is_added(fade, sum, zero, old_part, mid) && crate::crossfade::is_added(
            fade,
            sum,
            mid,
            new_part,
            out@[i],
        );
    assert(crate::crossfade::is_added(fade, sum, zero, old_part, mid)
        && crate::crossfade::is_added(fade, sum, mid, new_part, out@[i]));
    let (old_sample, old_point) = old_part->Some_0;
    let (new_sample, new_point) = new_part->Some_0;
    let x = choose|x: S|
        crate::crossfade::is_faded(fade, old_sample, old_point, x) && call_ensures(
            sum,
            (zero, x),
            mid,
        );
    let y = choose|y: S|
        crate::crossfade::is_faded(fade, new_sample, new_point, y) && call_ensures(
            sum,
            (mid, y),
            out@[i],
        );
    (x, y)
}

/// What a layout says is what is mixed: an overlap is that of
/// [`mix_add_fade`], a faded sequence takes as long as both sides together, and
/// a plain sequence is both sides as they are.
pub proof fn law_a_layout_is_what_is_mixed<S: Copy, F: Fn(S, FadePoint) -> S, M: Fn(S, S) -> S>(
    old_tail: &[S],
    new_head: &[S],
    channels: usize,
    transition: Transition,
    zero: S,
    fade: F,
    sum: M,
    out: Vec<S>,
)
    requires
        channels > 0,
        call_ensures(
            mix_transition::<S, F, M>,
            (old_tail, new_head, channels, transition, zero, &fade, &sum),
            out,
        ),
    ensures
        transition is Sequence ==> out@ == old_tail@ + new_head@,
        transition is FadedSequence ==> out@.len() == old_tail@.len() + new_head@.len(),
        transition is Overlap && old_tail@.len() == new_head@.len() && old_tail@.len() % (
        channels as nat) == 0 ==> out@.len() == old_tail@.len(),
        transition matches Transition::FadedSequence { fade_out_frames: 0, fade_in_frames: 0 }
            ==> out@ == old_tail@ + new_head@,
{
    if old_tail@.len() == new_head@.len() && old_tail@.len() % (channels as nat) == 0 {
        vstd::arithmetic::div_mod::lemma_fundamental_div_mod(
            old_tail@.len() as int,
            channels as int,
        );
        let q = old_tail@.len() as int / channels as int;
        assert(channels * q == q * channels) by (nonlinear_arith);
    }
    if let Transition::FadedSequence { fade_out_frames, fade_in_frames } = transition {
        if fade_out_frames == 0 && fade_in_frames == 0 {
            let n = old_tail@.len() as int;
            assert forall|i: int| 0 <= i < out@.len() implies out@[i] == (old_tail@
                + new_head@)[i] by {
                if i < n {
                    assert(out@.take(n)[i] == out@[i]);
                } else {
                    assert(out@.skip(n)[i - n] == out@[i]);
                    assert(0 <= (i - n) / (channels as int)) by (nonlinear_arith)
                        requires
                            i - n >= 0,
                            channels > 0,
                    ;
                }
            }
            assert(out@ =~= old_tail@ + new_head@);
        }
    }
}

/// The settings of a station decide how a transition sounds. Into live, nothing
/// overlaps, whatever the mode is; without smart mode, both sides always
/// overlap; and in smart mode, two tracks of like loudness that are not both
/// quiet follow each other as they are.
pub proof fn law_settings_decide_what_overlaps<
    S: Copy,
    L: Fn(&[S]) -> i64,
    C: Fn(i64, i64) -> bool,
    P: Fn(i64, i64) -> i64,
    D: Fn(i64, i64) -> i64,
    T: Fn(i64) -> usize,
    F: Fn(S, FadePoint) -> S,
    M: Fn(S, S) -> S,
>(
    old_tail: &[S],
    new_head: &[S],
    channels: usize,
    params: CrossfadeParams<i64>,
    zero: S,
    loudness: L,
    at_most: C,
    plus: P,
    distance: D,
    to_frames: T,
    fade: F,
    sum: M,
    out: Vec<S>,
)
    requires
        channels > 0,
        counts_decibels(at_most, plus, distance),
        params.thresholds.margin > 0,
        params.thresholds.medium <= params.thresholds.high,
        old_tail@.len() == new_head@.len(),
        old_tail@.len() % (channels as nat) == 0,
        call_ensures(
            mix_with_params::<S, i64, L, C, P, D, T, F, M>,
            (
                old_tail,
                new_head,
                channels,
                &params,
                zero,
                &loudness,
                &at_most,
                &plus,
                &distance,
                &to_frames,
                &fade,
                &sum,
            ),
            out,
        ),
    ensures
        params.to_live ==> out@.len() == old_tail@.len() + new_head@.len(),
        !params.to_live && params.mode != CrossfadeMode::Smart ==> out@.len() == old_tail@.len(),
        !params.to_live && params.mode == CrossfadeMode::Smart && (forall|a: i64, b: i64|
            call_ensures(loudness, (old_tail,), a) && call_ensures(loudness, (new_head,), b)
                ==> a - b < params.thresholds.margin && b - a < params.thresholds.margin && (a
                > params.thresholds.medium || b > params.thresholds.medium)) ==> out@ == old_tail@
            + new_head@,
{
    let q = old_tail@.len() as int / channels as int;
    vstd::arithmetic::div_mod::lemma_fundamental_div_mod(old_tail@.len() as int, channels as int);
    assert(channels * q == q * channels) by (nonlinear_arith);
}

/// The outgoing side fades over its own seconds and the incoming one over its
/// own: into live, what lies outside of those many frames is as it was, and the
/// frames inside fall on the one side and rise on the other.
pub proof fn law_each_side_fades_over_its_own_seconds<
    S: Copy,
    N: Copy,
    L: Fn(&[S]) -> N,
    C: Fn(N, N) -> bool,
    P: Fn(N, N) -> N,
    D: Fn(N, N) -> N,
    T: Fn(N) -> usize,
    F: Fn(S, FadePoint) -> S,
    M: Fn(S, S) -> S,
>(
    old_tail: &[S],
    new_head: &[S],
    channels: usize,
    frames: int,
    params: CrossfadeParams<N>,
    fade_out: usize,
    fade_in: usize,
    zero: S,
    loudness: L,
    at_most: C,
    plus: P,
    distance: D,
    to_frames: T,
    fade: F,
    sum: M,
    out: Vec<S>,
    f: int,
    i: int,
)
    requires
        channels > 0,
        params.to_live,
        old_tail@.len() == frames * channels,
        new_head@.len() == frames * channels,
        old_tail@.len() <= usize::MAX,
        forall|n: usize| #[trigger]
            call_ensures(to_frames, (params.fade_out_secs,), n) ==> n == fade_out,
        forall|n: usize| #[trigger]
            call_ensures(to_frames, (params.fade_in_secs,), n) ==> n == fade_in,
        fade_out <= frames,
        fade_in <= frames,
        call_ensures(
            mix_with_params::<S, N, L, C, P, D, T, F, M>,
            (
                old_tail,
                new_head,
                channels,
                &params,
                zero,
                &loudness,
                &at_most,
                &plus,
                &distance,
                &to_frames,
                &fade,
                &sum,
            ),
            out,
        ),
        0 <= f < frames,
        0 <= i < old_tail@.len(),
        is_in_frame(i, channels as int, f),
    ensures
        f < frames - fade_out ==> out@[i] == old_tail@[i],
        f >= frames - fade_out ==> call_ensures(
            fade,
            (
                old_tail@[i],
                FadePoint {
                    curve: FadeCurve::Linear,
                    rising: false,
                    at: (f - (frames - fade_out)) as usize,
                    of: fade_out,
                },
            ),
            out@[i],
        ),
        f >= fade_in ==> out@[old_tail@.len() + i] == new_head@[i],
        f < fade_in ==> call_ensures(
            fade,
            (
                new_head@[i],
                FadePoint { curve: FadeCurve::Linear, rising: true, at: f as usize, of: fade_in },
            ),
            out@[old_tail@.len() + i],
        ),
{
    let n = old_tail@.len() as int;
    lemma_frame_of(i, channels as int, f);
    lemma_whole_frames(n, channels as int, frames);
    assert(out@.len() == n + n);
    assert(out@.take(n)[i] == out@[i]);
    assert(out@.skip(n)[i] == out@[n + i]);
}

/// What each side gives to a sample of a transition between two tracks that
/// last as long as each other, inside the fades of both. In smart mode the
/// levels decide: two quiet and like tracks fade both, a much louder incoming
/// one comes in at its volume over the falling other, a much louder outgoing
/// one leaves at its volume under the rising other, and over near silence
/// neither fades. Without smart mode both fade, in a straight line.
pub proof fn law_levels_decide_who_fades<
    S: Copy,
    L: Fn(&[S]) -> i64,
    C: Fn(i64, i64) -> bool,
    P: Fn(i64, i64) -> i64,
    D: Fn(i64, i64) -> i64,
    T: Fn(i64) -> usize,
    F: Fn(S, FadePoint) -> S,
    M: Fn(S, S) -> S,
>(
    old_tail: &[S],
    new_head: &[S],
    channels: usize,
    frames: usize,
    params: CrossfadeParams<i64>,
    zero: S,
    loudness: L,
    at_most: C,
    plus: P,
    distance: D,
    to_frames: T,
    fade: F,
    sum: M,
    out: Vec<S>,
    a: i64,
    b: i64,
    f: int,
    i: int,
) -> (sides: (S, S))
    requires
        channels > 0,
        !params.to_live,
        counts_decibels(at_most, plus, distance),
        params.thresholds.margin > 0,
        params.thresholds.medium <= params.thresholds.high,
        old_tail@.len() == frames * channels,
        new_head@.len() == frames * channels,
        old_tail@.len() <= usize::MAX,
        forall|n: usize, secs: i64| #[trigger] call_ensures(to_frames, (secs,), n) ==> n == frames,
        forall|n: i64| #[trigger] call_ensures(loudness, (old_tail,), n) ==> n == a,
        forall|n: i64| #[trigger] call_ensures(loudness, (new_head,), n) ==> n == b,
        call_ensures(
            mix_with_params::<S, i64, L, C, P, D, T, F, M>,
            (
                old_tail,
                new_head,
                channels,
                &params,
                zero,
                &loudness,
                &at_most,
                &plus,
                &distance,
                &to_frames,
                &fade,
                &sum,
            ),
            out,
        ),
        0 <= f < frames,
        0 <= i < old_tail@.len(),
        is_in_frame(i, channels as int, f),
        params.mode == CrossfadeMode::Smart ==> {
            let t = params.thresholds;
            ||| a <= t.medium && b <= t.medium && a - b <= t.margin && b - a <= t.margin
            ||| a + t.margin <= b <= t.high
            ||| t.medium <= b && b + t.margin <= a <= t.high
        },
    ensures
        sums_up(sum, zero, sides.0, sides.1, out@[i]),
        ({
            let t = params.thresholds;
            let curve = if params.mode == CrossfadeMode::Smart {
                FadeCurve::Sine
            } else {
                FadeCurve::Linear
            };
            let falls = FadePoint { curve, rising: false, at: f as usize, of: frames };
            let rises = FadePoint { curve, rising: true, at: f as usize, of: frames };
            let plain = params.mode != CrossfadeMode::Smart;
            let alike = a <= t.medium && b <= t.medium && a - b <= t.margin && b - a <= t.margin;
            let louder_comes = a + t.margin <= b && !alike;
            let louder_goes = b + t.margin <= a && !alike;
            &&& plain || alike || (louder_comes && t.medium <= a) ==> call_ensures(
                fade,
                (old_tail@[i], falls),
                sides.0,
            )
            &&& plain || alike || louder_goes ==> call_ensures(
                fade,
                (new_head@[i], rises),
                sides.1,
            )
            &&& !plain && louder_comes ==> sides.1 == new_head@[i]
            &&& !plain && (louder_goes || (louder_comes && a < t.medium)) ==> sides.0
                == old_tail@[i]
        }),
{
    let c = channels as int;
    lemma_frame_of(i, c, f);
    lemma_whole_frames(old_tail@.len() as int, c, frames as int);
    lemma_same_frame(i, c, f, frames as int);
    let (branch, fade_out, fade_in) = choose|
        branch: SmartBranch,
        fade_out_frames: usize,
        fade_in_frames: usize,
    |
        #[trigger] crate::crossfade::is_mix_with(
            old_tail,
            new_head,
            channels,
            params,
            zero,
            loudness,
            at_most,
            plus,
            distance,
            to_frames,
            fade,
            sum,
            branch,
            fade_out_frames,
            fade_in_frames,
            out@,
        );
    assert(fade_out == frames && fade_in == frames);
    let planned = crate::crossfade::planned(false, params.mode, branch, fade_out, fade_in);
    assert(planned is Overlap);
    let (curve, fo, fi) = match planned {
        Transition::Overlap { curve, fade_out_frames, fade_in_frames } => (
            curve,
            fade_out_frames,
            fade_in_frames,
        ),
        _ => (FadeCurve::Linear, 0usize, 0usize),
    };
    let old_part = crate::crossfade::old_side(old_tail@, channels, curve, fo, i);
    let new_part = crate::crossfade::new_side(new_head@, channels, curve, fi, i);
    assert(crate::crossfade::is_mixed(fade, sum, zero, old_part, new_part, out@[i]));
    let mid = choose|mid: S|
        crate::crossfade::is_added(fade, sum, zero, old_part, mid) && crate::crossfade::is_added(
            fade,
            sum,
            mid,
            new_part,
            out@[i],
        );
    assert(crate::crossfade::is_added(fade, sum, zero, old_part, mid)
        && crate::crossfade::is_added(fade, sum, mid, new_part, out@[i]));
    let (old_sample, old_point) = old_part->Some_0;
    let (new_sample, new_point) = new_part->Some_0;
    let x = choose|x: S|
        crate::crossfade::is_faded(fade, old_sample, old_point, x) && call_ensures(
            sum,
            (zero, x),
            mid,
        );
    let y = choose|y: S|
        crate::crossfade::is_faded(fade, new_sample, new_point, y) && call_ensures(
            sum,
            (mid, y),
            out@[i],
        );
    (x, y)
}

/// What a side gives to a sample of frame `f`: faded by where it is in its
/// fade, and as it is outside of it. `start` is where the fade begins, and
/// `len` how long it is.
pub open spec fn is_side<S, F: Fn(S, FadePoint) -> S>(
    fade: F,
    curve: FadeCurve,
    rising: bool,
    sample: S,
    start: int,
    len: int,
    f: int,
    x: S,
) -> bool {
    if start <= f < start + len {
        call_ensures(
            fade,
            (sample, FadePoint { curve, rising, at: (f - start) as usize, of: len as usize }),
            x,
        )
    } else {
        x == sample
    }
}

/// Each side of an overlap has its own fade, however long the other side is: the
/// outgoing one over its last frames, the incoming one over its first. A fade
/// that is longer than its side covers all of it.
pub proof fn law_each_side_of_an_overlap_has_its_own_fade<
    S: Copy,
    F: Fn(S, FadePoint) -> S,
    M: Fn(S, S) -> S,
>(
    old_tail: &[S],
    new_head: &[S],
    channels: usize,
    old_frames: int,
    new_frames: int,
    fade_out: usize,
    fade_in: usize,
    curve: FadeCurve,
    zero: S,
    fade: F,
    sum: M,
    out: Vec<S>,
    f: int,
    i: int,
) -> (sides: (S, S))
    requires
        channels > 0,
        old_tail@.len() == old_frames * channels,
        new_head@.len() == new_frames * channels,
        old_frames <= usize::MAX,
        new_frames <= usize::MAX,
        call_ensures(
            mix_add_fade::<S, F, M>,
            (old_tail, new_head, channels, fade_out, fade_in, curve, zero, &fade, &sum),
            out,
        ),
        f >= 0,
        0 <= i < out@.len(),
        is_in_frame(i, channels as int, f),
    ensures
        ({
            let o = if fade_out < old_frames {
                fade_out as int
            } else {
                old_frames
            };
            let n = if fade_in < new_frames {
                fade_in as int
            } else {
                new_frames
            };
            &&& f < old_frames ==> is_side(
                fade,
                curve,
                false,
                old_tail@[i],
                old_frames - o,
                o,
                f,
                sides.0,
            )
            &&& f < new_frames ==> is_side(fade, curve, true, new_head@[i], 0, n, f, sides.1)
            &&& f < old_frames && f < new_frames ==> sums_up(
                sum,
                zero,
                sides.0,
                sides.1,
                out@[i],
            )
            &&& f < old_frames && f >= new_frames ==> call_ensures(
                sum,
                (zero, sides.0),
                out@[i],
            )
            &&& f >= old_frames && f < new_frames ==> call_ensures(
                sum,
                (zero, sides.1),
                out@[i],
            )
        }),
{
    let c = channels as int;
    lemma_frame_of(i, c, f);
    lemma_whole_frames(old_tail@.len() as int, c, old_frames);
    lemma_whole_frames(new_head@.len() as int, c, new_frames);
    lemma_same_frame(i, c, f, old_frames);
    lemma_same_frame(i, c, f, new_frames);
    assert(old_frames >= 0 && new_frames >= 0) by (nonlinear_arith)
        requires
            old_frames * c >= 0,
            new_frames * c >= 0,
            c > 0,
    ;
    let old_part = crate::crossfade::old_side(old_tail@, channels, curve, fade_out, i);
    let new_part = crate::crossfade::new_side(new_head@, channels, curve, fade_in, i);
    assert(crate::crossfade::is_mixed(fade, sum, zero, old_part, new_part, out@[i]));
    let mid = choose|mid: S|
        crate::crossfade::is_added(fade, sum, zero, old_part, mid) && crate::crossfade::is_added(
            fade,
            sum,
            mid,
            new_part,
            out@[i],
        );
    assert(crate::crossfade::is_added(fade, sum, zero, old_part, mid)
        && crate::crossfade::is_added(fade, sum, mid, new_part, out@[i]));
    let x = if f < old_frames {
        let (sample, point) = old_part->Some_0;
        choose|x: S|
            crate::crossfade::is_faded(fade, sample, point, x) && call_ensures(
                sum,
                (zero, x),
                mid,
            )
    } else {
        zero
    };
    let y = if f < new_frames {
        let (sample, point) = new_part->Some_0;
        choose|y: S|
            crate::crossfade::is_faded(fade, sample, point, y) && call_ensures(
                sum,
                (mid, y),
                out@[i],
            )
    } else {
        zero
    };
    (x, y)
}

/// A fade keeps every sample in its place, and the samples of an incomplete
/// last frame as they are.
pub proof fn law_a_fade_keeps_what_is_left_over<S: Copy, F: Fn(S, FadePoint) -> S>(
    samples: &[S],
    channels: usize,
    frames: int,
    fade_frames: usize,
    curve: FadeCurve,
    fade: F,
    falling: Vec<S>,
    rising: Vec<S>,
    i: int,
)
    requires
        channels > 0,
        frames * channels <= samples@.len() < (frames + 1) * channels,
        call_ensures(
            apply_fade_out::<S, F>,
            (samples, channels, fade_frames, curve, &fade),
            falling,
        ),
        call_ensures(
            apply_fade_in::<S, F>,
            (samples, channels, fade_frames, curve, &fade),
            rising,
        ),
    ensures
        falling@.len() == samples@.len(),
        rising@.len() == samples@.len(),
        frames * channels <= i < samples@.len() && i >= 0 ==> falling@[i] == samples@[i]
            && rising@[i] == samples@[i],
{
    let c = channels as int;
    lemma_frame_of(samples@.len() as int, c, frames);
    if frames * channels <= i < samples@.len() && i >= 0 {
        lemma_frame_of(i, c, frames);
        assert(falling@[i] == falling@[i] && rising@[i] == rising@[i]);
    }
}

} // verus!
