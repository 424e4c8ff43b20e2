//! Crossfades between tracks.
//!
//! A transition mixes the tail of the outgoing track with the head of the
//! incoming one, both interleaved. Which frames meet, and how far each is into
//! its fade, is decided here; what a fade position does to a sample, and how
//! two samples add up, is handed in by the caller.

use vstd::prelude::*;

verus! {

/// How one track gives way to the next.
#[derive(Debug, Clone, Copy, PartialEq, Eq, Structural)]
pub enum CrossfadeMode {
    /// The loudness of both sides picks one of the [`SmartBranch`]es.
    Smart,
    /// A plain crossfade.
    Normal,
    /// No crossfade is configured. The two sides are still faded and mixed.
    Disabled,
}

/// Loudness thresholds of smart crossfades.
#[derive(Debug, Clone, Copy, PartialEq)]
pub struct CrossfadeThresholds<N> {
    pub high: N,
    pub medium: N,
    pub margin: N,
}

/// The branches of smart crossfades, in order of priority.
#[derive(Debug, Clone, Copy, PartialEq, Eq, Structural)]
pub enum SmartBranch {
    /// Both sides are quiet and alike enough to overlap.
    FullCrossfade,
    /// The new track is much louder: it enters at full volume.
    FadeOutOnly,
    /// The old track is much louder: it leaves at full volume.
    FadeInOnly,
    /// The old track is all but silent: no fade on either side.
    HardCutIn,
    /// Anything else: one after the other, without overlap.
    HardSequentialCut,
}

/// How the loudness `a` of the outgoing side and `b` of the incoming side
/// compare with each other and with the thresholds.
#[derive(Debug, Clone, Copy, PartialEq, Eq, Structural)]
pub struct LoudnessComparison {
    /// `a <= medium`
    pub a_at_most_medium: bool,
    /// `a >= medium`
    pub a_at_least_medium: bool,
    /// `a <= high`
    pub a_at_most_high: bool,
    /// `b <= medium`
    pub b_at_most_medium: bool,
    /// `b >= medium`
    pub b_at_least_medium: bool,
    /// `b <= high`
    pub b_at_most_high: bool,
    /// `|a - b| <= margin`
    pub within_margin: bool,
    /// `a >= b + margin`
    pub a_louder_by_margin: bool,
    /// `b >= a + margin`
    pub b_louder_by_margin: bool,
}

/// Whether `yes` is the answer to: is `x` at least `y` and the margin?
pub open spec fn is_louder_by<N, C: Fn(N, N) -> bool, P: Fn(N, N) -> N>(
    at_most: C,
    plus: P,
    x: N,
    y: N,
    margin: N,
    yes: bool,
) -> bool {
    exists|bound: N|
        #![trigger call_ensures(plus, (y, margin), bound)]
        call_ensures(plus, (y, margin), bound) && call_ensures(at_most, (bound, x), yes)
}

/// Whether `yes` is the answer to: are `x` and `y` at most the margin apart?
pub open spec fn is_within<N, C: Fn(N, N) -> bool, D: Fn(N, N) -> N>(
    at_most: C,
    distance: D,
    x: N,
    y: N,
    margin: N,
    yes: bool,
) -> bool {
    exists|apart: N|
        #![trigger call_ensures(distance, (x, y), apart)]
        call_ensures(distance, (x, y), apart) && call_ensures(at_most, (apart, margin), yes)
}

/// Whether `c` is how two loudness levels compare with each other and with the
/// thresholds.
pub open spec fn is_comparison<
    N,
    C: Fn(N, N) -> bool,
    P: Fn(N, N) -> N,
    D: Fn(N, N) -> N,
>(
    at_most: C,
    plus: P,
    distance: D,
    a: N,
    b: N,
    t: CrossfadeThresholds<N>,
    c: LoudnessComparison,
) -> bool {
    &&& call_ensures(at_most, (a, t.medium), c.a_at_most_medium)
    &&& call_ensures(at_most, (t.medium, a), c.a_at_least_medium)
    &&& call_ensures(at_most, (a, t.high), c.a_at_most_high)
    &&& call_ensures(at_most, (b, t.medium), c.b_at_most_medium)
    &&& call_ensures(at_most, (t.medium, b), c.b_at_least_medium)
    &&& call_ensures(at_most, (b, t.high), c.b_at_most_high)
    &&& is_within(at_most, distance, a, b, t.margin, c.within_margin)
    &&& is_louder_by(at_most, plus, a, b, t.margin, c.a_louder_by_margin)
    &&& is_louder_by(at_most, plus, b, a, t.margin, c.b_louder_by_margin)
}

/// The caller's comparison accepts every two levels.
pub open spec fn comparison_is_total<N, C: Fn(N, N) -> bool>(at_most: C) -> bool {
    forall|x: N, y: N| #[trigger] call_requires(at_most, (x, y))
}

/// Compares two loudness levels with each other and with the thresholds. The
/// arithmetic on levels is the caller's: `at_most` is `<=`, `plus` adds, and
/// `distance` says how far two levels are apart.
pub fn compare_loudness<
    N: Copy,
    C: Fn(N, N) -> bool,
    P: Fn(N, N) -> N,
    D: Fn(N, N) -> N,
>(
    a: N,
    b: N,
    t: &CrossfadeThresholds<N>,
    at_most: &C,
    plus: &P,
    distance: &D,
) -> (c: LoudnessComparison)
    requires
        comparison_is_total::<N, C>(*at_most),
        sum_is_total::<N, P>(*plus),
        sum_is_total::<N, D>(*distance),
    ensures
        is_comparison(*at_most, *plus, *distance, a, b, *t, c),
{
    let apart = distance(a, b);
    let above_b = plus(b, t.margin);
    let above_a = plus(a, t.margin);
    LoudnessComparison {
        a_at_most_medium: at_most(a, t.medium),
        a_at_least_medium: at_most(t.medium, a),
        a_at_most_high: at_most(a, t.high),
        b_at_most_medium: at_most(b, t.medium),
        b_at_least_medium: at_most(t.medium, b),
        b_at_most_high: at_most(b, t.high),
        within_margin: at_most(apart, t.margin),
        a_louder_by_margin: at_most(above_b, a),
        b_louder_by_margin: at_most(above_a, b),
    }
}

/// The branch that smart crossfades take: the first whose condition holds.
pub open spec fn smart_branch(c: LoudnessComparison) -> SmartBranch {
    if c.a_at_most_medium && c.b_at_most_medium && c.within_margin {
        SmartBranch::FullCrossfade
    } else if c.b_louder_by_margin && c.a_at_least_medium && c.b_at_most_high {
        SmartBranch::FadeOutOnly
    } else if c.a_louder_by_margin && c.b_at_least_medium && c.a_at_most_high {
        SmartBranch::FadeInOnly
    } else if c.b_louder_by_margin && c.a_at_most_medium && c.b_at_most_high {
        SmartBranch::HardCutIn
    } else {
        SmartBranch::HardSequentialCut
    }
}

/// Picks the branch of a smart crossfade.
pub fn select_smart_branch(c: &LoudnessComparison) -> (branch: SmartBranch)
    ensures
        branch == smart_branch(*c),
{
    if c.a_at_most_medium && c.b_at_most_medium && c.within_margin {
        SmartBranch::FullCrossfade
    } else if c.b_louder_by_margin && c.a_at_least_medium && c.b_at_most_high {
        SmartBranch::FadeOutOnly
    } else if c.a_louder_by_margin && c.b_at_least_medium && c.a_at_most_high {
        SmartBranch::FadeInOnly
    } else if c.b_louder_by_margin && c.a_at_most_medium && c.b_at_most_high {
        SmartBranch::HardCutIn
    } else {
        SmartBranch::HardSequentialCut
    }
}

/// The same comparison with the two sides exchanged.
pub open spec fn exchanged(c: LoudnessComparison) -> LoudnessComparison {
    LoudnessComparison {
        a_at_most_medium: c.b_at_most_medium,
        a_at_least_medium: c.b_at_least_medium,
        a_at_most_high: c.b_at_most_high,
        b_at_most_medium: c.a_at_most_medium,
        b_at_least_medium: c.a_at_least_medium,
        b_at_most_high: c.a_at_most_high,
        within_margin: c.within_margin,
        a_louder_by_margin: c.b_louder_by_margin,
        b_louder_by_margin: c.a_louder_by_margin,
    }
}

/// Fading in only is the mirror image of fading out only: as long as the two
/// sides are not each louder than the other by the margin (with a positive
/// margin they never are), one is picked exactly where the other is picked
/// with the sides exchanged. A full crossfade is picked for both or neither.
pub proof fn law_fade_branches_mirror_each_other(c: LoudnessComparison)
    requires
        !(c.a_louder_by_margin && c.b_louder_by_margin),
    ensures
        smart_branch(c) == SmartBranch::FadeOutOnly <==> smart_branch(exchanged(c))
            == SmartBranch::FadeInOnly,
        smart_branch(c) == SmartBranch::FullCrossfade <==> smart_branch(exchanged(c))
            == SmartBranch::FullCrossfade,
{
}

/// The shape of a fade.
#[derive(Debug, Clone, Copy, PartialEq, Eq, Structural)]
pub enum FadeCurve {
    Linear,
    /// A quarter of a sine wave.
    Sine,
}

/// A position inside a fade: `at` of `of` frames are past.
#[derive(Debug, Clone, Copy, PartialEq, Eq, Structural)]
pub struct FadePoint {
    pub curve: FadeCurve,
    /// Whether the volume rises.
    pub rising: bool,
    pub at: usize,
    pub of: usize,
}

/// What one transition needs to know.
#[derive(Debug, Clone, Copy, PartialEq)]
pub struct CrossfadeParams<N> {
    pub mode: CrossfadeMode,
    /// Fade-in of the incoming track, in seconds.
    pub fade_in_secs: N,
    /// Fade-out of the outgoing track, in seconds.
    pub fade_out_secs: N,
    pub thresholds: CrossfadeThresholds<N>,
    /// Whether this is the one transition from a track to the live source.
    pub to_live: bool,
}

/// How a transition is laid out.
#[derive(Debug, Clone, Copy, PartialEq, Eq, Structural)]
pub enum Transition {
    /// Both sides start together and are summed.
    Overlap { curve: FadeCurve, fade_out_frames: usize, fade_in_frames: usize },
    /// The new side starts when the old one is over; each has its own fade.
    FadedSequence { fade_out_frames: usize, fade_in_frames: usize },
    /// The new side starts when the old one is over, without any fade.
    Sequence,
}

/// The layout of a transition. Going live is always a faded sequence, whatever
/// the station's crossfade mode is; otherwise only smart mode looks at the
/// branch.
pub open spec fn planned(
    to_live: bool,
    mode: CrossfadeMode,
    branch: SmartBranch,
    fade_out_frames: usize,
    fade_in_frames: usize,
) -> Transition {
    if to_live {
        Transition::FadedSequence { fade_out_frames, fade_in_frames }
    } else if mode != CrossfadeMode::Smart {
        Transition::Overlap { curve: FadeCurve::Linear, fade_out_frames, fade_in_frames }
    } else {
        match branch {
            SmartBranch::FullCrossfade => Transition::Overlap {
                curve: FadeCurve::Sine,
                fade_out_frames,
                fade_in_frames,
            },
            SmartBranch::FadeOutOnly => Transition::Overlap {
                curve: FadeCurve::Sine,
                fade_out_frames,
                fade_in_frames: 0,
            },
            SmartBranch::FadeInOnly => Transition::Overlap {
                curve: FadeCurve::Sine,
                fade_out_frames: 0,
                fade_in_frames,
            },
            SmartBranch::HardCutIn => Transition::Overlap {
                curve: FadeCurve::Sine,
                fade_out_frames: 0,
                fade_in_frames: 0,
            },
            SmartBranch::HardSequentialCut => Transition::Sequence,
        }
    }
}

/// Whether a transition depends on how loud its two sides are.
pub fn measures_loudness(to_live: bool, mode: CrossfadeMode) -> (yes: bool)
    ensures
        yes == (!to_live && mode == CrossfadeMode::Smart),
{
    !to_live && mode == CrossfadeMode::Smart
}

/// Lays out a transition.
pub fn plan_transition(
    to_live: bool,
    mode: CrossfadeMode,
    branch: SmartBranch,
    fade_out_frames: usize,
    fade_in_frames: usize,
) -> (transition: Transition)
    ensures
        transition == planned(to_live, mode, branch, fade_out_frames, fade_in_frames),
{
    if to_live {
        return Transition::FadedSequence { fade_out_frames, fade_in_frames };
    }
    match mode {
        CrossfadeMode::Disabled | CrossfadeMode::Normal => Transition::Overlap {
            curve: FadeCurve::Linear,
            fade_out_frames,
            fade_in_frames,
        },
        CrossfadeMode::Smart => match branch {
            SmartBranch::FullCrossfade => Transition::Overlap {
                curve: FadeCurve::Sine,
                fade_out_frames,
                fade_in_frames,
            },
            SmartBranch::FadeOutOnly => Transition::Overlap {
                curve: FadeCurve::Sine,
                fade_out_frames,
                fade_in_frames: 0,
            },
            SmartBranch::FadeInOnly => Transition::Overlap {
                curve: FadeCurve::Sine,
                fade_out_frames: 0,
                fade_in_frames,
            },
            SmartBranch::HardCutIn => Transition::Overlap {
                curve: FadeCurve::Sine,
                fade_out_frames: 0,
                fade_in_frames: 0,
            },
            SmartBranch::HardSequentialCut => Transition::Sequence,
        },
    }
}

/// Going live ignores the crossfade mode and the loudness altogether.
pub proof fn law_going_live_ignores_crossfade_settings(
    mode: CrossfadeMode,
    branch: SmartBranch,
    other_mode: CrossfadeMode,
    other_branch: SmartBranch,
    fade_out_frames: usize,
    fade_in_frames: usize,
)
    ensures
        planned(true, mode, branch, fade_out_frames, fade_in_frames) == planned(
            true,
            other_mode,
            other_branch,
            fade_out_frames,
            fade_in_frames,
        ),
        planned(true, mode, branch, fade_out_frames, fade_in_frames) is FadedSequence,
{
}

/// A station without crossfades still mixes its tracks as a plain crossfade
/// does: the transition is no hard cut.
pub proof fn law_disabled_mode_still_fades(
    branch: SmartBranch,
    fade_out_frames: usize,
    fade_in_frames: usize,
)
    ensures
        planned(false, CrossfadeMode::Disabled, branch, fade_out_frames, fade_in_frames) == planned(
            false,
            CrossfadeMode::Normal,
            branch,
            fade_out_frames,
            fade_in_frames,
        ),
        planned(
            false,
            CrossfadeMode::Disabled,
            branch,
            fade_out_frames,
            fade_in_frames,
        ) is Overlap,
{
}

// ---------------------------------------------------------------------------
// Fade positions.

/// The smaller of two lengths.
pub open spec fn least(a: nat, b: nat) -> nat {
    if a < b {
        a
    } else {
        b
    }
}

/// The larger of two lengths.
pub open spec fn most(a: nat, b: nat) -> nat {
    if a < b {
        b
    } else {
        a
    }
}

/// Where frame `f` of `frames` is in a fade-out over the last `fade` of them;
/// `None` before the fade begins.
pub open spec fn fade_out_point(curve: FadeCurve, fade: nat, frames: nat, f: int) -> Option<
    FadePoint,
> {
    let window = least(fade, frames);
    if window > 0 && f + window >= frames {
        Some(
            FadePoint {
                curve,
                rising: false,
                at: (f + window - frames) as usize,
                of: window as usize,
            },
        )
    } else {
        None
    }
}

/// Where frame `f` of `frames` is in a fade-in over the first `fade` of them;
/// `None` once the fade is over.
pub open spec fn fade_in_point(curve: FadeCurve, fade: nat, frames: nat, f: int) -> Option<
    FadePoint,
> {
    let window = least(fade, frames);
    if f < window {
        Some(FadePoint { curve, rising: true, at: f as usize, of: window as usize })
    } else {
        None
    }
}

/// A fade-out covers exactly the last frames and a fade-in exactly the first
/// ones, as many as were asked for or as many as there are; each starts at
/// position 0, moves on by one per frame, and stays below its length.
pub proof fn law_fades_cover_their_window(curve: FadeCurve, fade: nat, frames: nat, f: int)
    requires
        0 <= f < frames <= usize::MAX,
    ensures
        fade_out_point(curve, fade, frames, f) is Some <==> f >= frames - least(fade, frames),
        fade_in_point(curve, fade, frames, f) is Some <==> f < least(fade, frames),
        fade_out_point(curve, fade, frames, f) matches Some(p) ==> p.at < p.of && p.of == least(
            fade,
            frames,
        ) && p.at == f - (frames - least(fade, frames)),
        fade_in_point(curve, fade, frames, f) matches Some(p) ==> p.at < p.of && p.of == least(
            fade,
            frames,
        ) && p.at == f,
{
}

// ---------------------------------------------------------------------------
// Mixing.

/// `out` is what the caller's fade makes of `sample` at this point; outside a
/// fade it is the sample itself.
pub open spec fn is_faded<S, F: Fn(S, FadePoint) -> S>(
    fade: F,
    sample: S,
    point: Option<FadePoint>,
    out: S,
) -> bool {
    match point {
        None => out == sample,
        Some(p) => call_ensures(fade, (sample, p), out),
    }
}

/// The caller's fade accepts every sample and position.
pub open spec fn fade_is_total<S, F: Fn(S, FadePoint) -> S>(fade: F) -> bool {
    forall|sample: S, p: FadePoint| #[trigger] call_requires(fade, (sample, p))
}

/// The caller's sum accepts every two samples.
pub open spec fn sum_is_total<S, M: Fn(S, S) -> S>(sum: M) -> bool {
    forall|a: S, b: S| #[trigger] call_requires(sum, (a, b))
}

/// Applies a fade to one sample.
fn faded<S: Copy, F: Fn(S, FadePoint) -> S>(fade: &F, sample: S, point: Option<FadePoint>) -> (out:
    S)
    requires
        fade_is_total::<S, F>(*fade),
    ensures
        is_faded(*fade, sample, point, out),
{
    match point {
        None => sample,
        Some(p) => fade(sample, p),
    }
}

/// The fade-out position of frame `f`.
fn fade_out_at(curve: FadeCurve, fade: usize, frames: usize, f: usize) -> (point: Option<FadePoint>)
    requires
        f < frames,
    ensures
        point == fade_out_point(curve, fade as nat, frames as nat, f as int),
{
    let window = if fade < frames {
        fade
    } else {
        frames
    };
    if window > 0 && f >= frames - window {
        Some(FadePoint { curve, rising: false, at: f - (frames - window), of: window })
    } else {
        None
    }
}

/// The fade-in position of frame `f`.
fn fade_in_at(curve: FadeCurve, fade: usize, frames: usize, f: usize) -> (point: Option<FadePoint>)
    requires
        f < frames,
    ensures
        point == fade_in_point(curve, fade as nat, frames as nat, f as int),
{
    let window = if fade < frames {
        fade
    } else {
        frames
    };
    if f < window {
        Some(FadePoint { curve, rising: true, at: f, of: window })
    } else {
        None
    }
}

/// How many whole frames `len` samples hold.
pub open spec fn frames_in(len: nat, channels: usize) -> nat
    recommends
        channels > 0,
{
    len / (channels as nat)
}

/// The fade-out position of sample `i` of the outgoing side; the samples of an
/// incomplete last frame are in no fade.
pub open spec fn out_point(curve: FadeCurve, fade: usize, len: nat, channels: usize, i: int) -> Option<
    FadePoint,
> {
    let frames = frames_in(len, channels);
    if i / (channels as int) < frames {
        fade_out_point(curve, fade as nat, frames, i / (channels as int))
    } else {
        None
    }
}

/// The fade-in position of sample `i` of the incoming side.
pub open spec fn in_point(curve: FadeCurve, fade: usize, len: nat, channels: usize, i: int) -> Option<
    FadePoint,
> {
    let frames = frames_in(len, channels);
    if i / (channels as int) < frames {
        fade_in_point(curve, fade as nat, frames, i / (channels as int))
    } else {
        None
    }
}

/// Whole frames take no more samples than there are, and a sample of a whole
/// frame is one of them.
proof fn lemma_frames(len: nat, channels: usize)
    requires
        channels > 0,
    ensures
        frames_in(len, channels) * channels <= len,
        forall|i: int|
            0 <= i ==> (#[trigger] (i / (channels as int)) < frames_in(len, channels) <==> i
                < frames_in(len, channels) * channels),
{
    let c = channels as int;
    let n = len as int;
    vstd::arithmetic::div_mod::lemma_fundamental_div_mod(n, c);
    assert(frames_in(len, channels) == n / c);
    assert((n / c) * c == c * (n / c)) by (nonlinear_arith);
    assert forall|i: int| 0 <= i implies (#[trigger] (i / c) < n / c <==> i < (n / c) * c) by {
        vstd::arithmetic::div_mod::lemma_fundamental_div_mod(i, c);
        let q = i / c;
        let r = i % c;
        let m = n / c;
        assert(q < m <==> i < m * c) by (nonlinear_arith)
            requires
                i == c * q + r,
                0 <= r < c,
        ;
    }
}

/// `out` is `acc` with one side added to it: nothing where that side has ended,
/// else its sample, faded where it is in a fade.
pub open spec fn is_added<S, F: Fn(S, FadePoint) -> S, M: Fn(S, S) -> S>(
    fade: F,
    sum: M,
    acc: S,
    side: Option<(S, Option<FadePoint>)>,
    out: S,
) -> bool {
    match side {
        None => out == acc,
        Some((sample, point)) => exists|x: S|
            #![trigger is_faded(fade, sample, point, x)]
            is_faded(fade, sample, point, x) && call_ensures(sum, (acc, x), out),
    }
}

/// `out` is the sum of both sides at one sample, starting from silence.
pub open spec fn is_mixed<S, F: Fn(S, FadePoint) -> S, M: Fn(S, S) -> S>(
    fade: F,
    sum: M,
    zero: S,
    old_side: Option<(S, Option<FadePoint>)>,
    new_side: Option<(S, Option<FadePoint>)>,
    out: S,
) -> bool {
    exists|mid: S|
        #![trigger is_added(fade, sum, zero, old_side, mid)]
        is_added(fade, sum, zero, old_side, mid) && is_added(fade, sum, mid, new_side, out)
}

/// What the outgoing side gives to sample `i` of an overlap.
pub open spec fn old_side<S>(
    old_tail: Seq<S>,
    channels: usize,
    curve: FadeCurve,
    fade: usize,
    i: int,
) -> Option<(S, Option<FadePoint>)> {
    if i / (channels as int) < frames_in(old_tail.len(), channels) {
        Some((old_tail[i], out_point(curve, fade, old_tail.len(), channels, i)))
    } else {
        None
    }
}

/// What the incoming side gives to sample `i` of an overlap.
pub open spec fn new_side<S>(
    new_head: Seq<S>,
    channels: usize,
    curve: FadeCurve,
    fade: usize,
    i: int,
) -> Option<(S, Option<FadePoint>)> {
    if i / (channels as int) < frames_in(new_head.len(), channels) {
        Some((new_head[i], in_point(curve, fade, new_head.len(), channels, i)))
    } else {
        None
    }
}

/// Adds one side to `acc`.
fn added<S: Copy, F: Fn(S, FadePoint) -> S, M: Fn(S, S) -> S>(
    fade: &F,
    sum: &M,
    acc: S,
    side: Option<(S, Option<FadePoint>)>,
) -> (out: S)
    requires
        fade_is_total::<S, F>(*fade),
        sum_is_total::<S, M>(*sum),
    ensures
        is_added(*fade, *sum, acc, side, out),
{
    match side {
        None => acc,
        Some((sample, point)) => {
            let x = faded(fade, sample, point);
            sum(acc, x)
        },
    }
}

/// Whether `out` is the overlap of the two sides: as many whole frames as the
/// longer side has, each sample the sum of what is left of both.
pub open spec fn is_overlap<S, F: Fn(S, FadePoint) -> S, M: Fn(S, S) -> S>(
    old_tail: Seq<S>,
    new_head: Seq<S>,
    channels: usize,
    fade_out_frames: usize,
    fade_in_frames: usize,
    curve: FadeCurve,
    zero: S,
    fade: F,
    sum: M,
    out: Seq<S>,
) -> bool {
    &&& out.len() == most(
        frames_in(old_tail.len(), channels),
        frames_in(new_head.len(), channels),
    ) * channels
    &&& forall|i: int|
        0 <= i < out.len() ==> is_mixed(
            fade,
            sum,
            zero,
            old_side(old_tail, channels, curve, fade_out_frames, i),
            new_side(new_head, channels, curve, fade_in_frames, i),
            #[trigger] out[i],
        )
}

/// Sums the outgoing tail and the incoming head sample for sample, each with
/// its fade, and goes on with the longer side once the shorter one is over.
pub fn mix_add_fade<S: Copy, F: Fn(S, FadePoint) -> S, M: Fn(S, S) -> S>(
    old_tail: &[S],
    new_head: &[S],
    channels: usize,
    fade_out_frames: usize,
    fade_in_frames: usize,
    curve: FadeCurve,
    zero: S,
    fade: &F,
    sum: &M,
) -> (out: Vec<S>)
    requires
        channels > 0,
        fade_is_total::<S, F>(*fade),
        sum_is_total::<S, M>(*sum),
    ensures
        is_overlap(
            old_tail@,
            new_head@,
            channels,
            fade_out_frames,
            fade_in_frames,
            curve,
            zero,
            *fade,
            *sum,
            out@,
        ),
{
    let old_frames = old_tail.len() / channels;
    let new_frames = new_head.len() / channels;
    let total_frames = if old_frames < new_frames {
        new_frames
    } else {
        old_frames
    };
    proof {
        lemma_frames(old_tail@.len(), channels);
        lemma_frames(new_head@.len(), channels);
    }
    let total = total_frames * channels;
    let mut out: Vec<S> = Vec::new();
    let mut i: usize = 0;
    while i < total
        invariant
            channels > 0,
            fade_is_total::<S, F>(*fade),
            sum_is_total::<S, M>(*sum),
            old_frames == frames_in(old_tail@.len(), channels),
            new_frames == frames_in(new_head@.len(), channels),
            old_frames * channels <= old_tail@.len(),
            new_frames * channels <= new_head@.len(),
            forall|j: int|
                0 <= j ==> (#[trigger] (j / (channels as int)) < old_frames <==> j < old_frames
                    * channels),
            forall|j: int|
                0 <= j ==> (#[trigger] (j / (channels as int)) < new_frames <==> j < new_frames
                    * channels),
            i <= total,
            out@.len() == i,
            forall|j: int|
                0 <= j < i ==> is_mixed(
                    *fade,
                    *sum,
                    zero,
                    old_side(old_tail@, channels, curve, fade_out_frames, j),
                    new_side(new_head@, channels, curve, fade_in_frames, j),
                    #[trigger] out@[j],
                ),
        decreases total - i,
    {
        let f = i / channels;
        let from_old = if f < old_frames {
            Some((old_tail[i], fade_out_at(curve, fade_out_frames, old_frames, f)))
        } else {
            None
        };
        let from_new = if f < new_frames {
            Some((new_head[i], fade_in_at(curve, fade_in_frames, new_frames, f)))
        } else {
            None
        };
        assert(from_old == old_side(old_tail@, channels, curve, fade_out_frames, i as int));
        assert(from_new == new_side(new_head@, channels, curve, fade_in_frames, i as int));
        let mid = added(fade, sum, zero, from_old);
        let mixed = added(fade, sum, mid, from_new);
        out.push(mixed);
        i += 1;
    }
    out
}

/// Plays the outgoing tail to its end, then the incoming head.
pub fn sequence<S: Copy>(old_tail: &[S], new_head: &[S]) -> (out: Vec<S>)
    ensures
        out@ == old_tail@ + new_head@,
{
    let mut out: Vec<S> = Vec::new();
    let mut i: usize = 0;
    while i < old_tail.len()
        invariant
            i <= old_tail@.len(),
            out@ == old_tail@.take(i as int),
        decreases old_tail@.len() - i,
    {
        out.push(old_tail[i]);
        i += 1;
    }
    let mut j: usize = 0;
    assert(out@ =~= old_tail@ + new_head@.take(0));
    while j < new_head.len()
        invariant
            j <= new_head@.len(),
            out@ == old_tail@ + new_head@.take(j as int),
        decreases new_head@.len() - j,
    {
        out.push(new_head[j]);
        j += 1;
        assert(out@ =~= old_tail@ + new_head@.take(j as int));
    }
    assert(new_head@.take(j as int) =~= new_head@);
    out
}

/// Whether `out` is `samples` with a fade-out over its last frames.
pub open spec fn is_faded_out<S, F: Fn(S, FadePoint) -> S>(
    samples: Seq<S>,
    channels: usize,
    fade_frames: usize,
    curve: FadeCurve,
    fade: F,
    out: Seq<S>,
) -> bool {
    &&& out.len() == samples.len()
    &&& forall|i: int|
        0 <= i < out.len() ==> is_faded(
            fade,
            samples[i],
            out_point(curve, fade_frames, samples.len(), channels, i),
            #[trigger] out[i],
        )
}

/// Whether `out` is `samples` with a fade-in over its first frames.
pub open spec fn is_faded_in<S, F: Fn(S, FadePoint) -> S>(
    samples: Seq<S>,
    channels: usize,
    fade_frames: usize,
    curve: FadeCurve,
    fade: F,
    out: Seq<S>,
) -> bool {
    &&& out.len() == samples.len()
    &&& forall|i: int|
        0 <= i < out.len() ==> is_faded(
            fade,
            samples[i],
            in_point(curve, fade_frames, samples.len(), channels, i),
            #[trigger] out[i],
        )
}

/// Fades out the last `fade_frames` frames; what precedes them stays as it is.
pub fn apply_fade_out<S: Copy, F: Fn(S, FadePoint) -> S>(
    samples: &[S],
    channels: usize,
    fade_frames: usize,
    curve: FadeCurve,
    fade: &F,
) -> (out: Vec<S>)
    requires
        channels > 0,
        fade_is_total::<S, F>(*fade),
    ensures
        is_faded_out(samples@, channels, fade_frames, curve, *fade, out@),
{
    let frames = samples.len() / channels;
    let mut out: Vec<S> = Vec::new();
    let mut i: usize = 0;
    while i < samples.len()
        invariant
            channels > 0,
            fade_is_total::<S, F>(*fade),
            frames == frames_in(samples@.len(), channels),
            i <= samples@.len(),
            out@.len() == i,
            forall|j: int|
                0 <= j < i ==> is_faded(
                    *fade,
                    samples@[j],
                    out_point(curve, fade_frames, samples@.len(), channels, j),
                    #[trigger] out@[j],
                ),
        decreases samples@.len() - i,
    {
        let f = i / channels;
        let point = if f < frames {
            fade_out_at(curve, fade_frames, frames, f)
        } else {
            None
        };
        out.push(faded(fade, samples[i], point));
        i += 1;
    }
    out
}

/// Fades in the first `fade_frames` frames; what follows them stays as it is.
pub fn apply_fade_in<S: Copy, F: Fn(S, FadePoint) -> S>(
    samples: &[S],
    channels: usize,
    fade_frames: usize,
    curve: FadeCurve,
    fade: &F,
) -> (out: Vec<S>)
    requires
        channels > 0,
        fade_is_total::<S, F>(*fade),
    ensures
        is_faded_in(samples@, channels, fade_frames, curve, *fade, out@),
{
    let frames = samples.len() / channels;
    let mut out: Vec<S> = Vec::new();
    let mut i: usize = 0;
    while i < samples.len()
        invariant
            channels > 0,
            fade_is_total::<S, F>(*fade),
            frames == frames_in(samples@.len(), channels),
            i <= samples@.len(),
            out@.len() == i,
            forall|j: int|
                0 <= j < i ==> is_faded(
                    *fade,
                    samples@[j],
                    in_point(curve, fade_frames, samples@.len(), channels, j),
                    #[trigger] out@[j],
                ),
        decreases samples@.len() - i,
    {
        let f = i / channels;
        let point = if f < frames {
            fade_in_at(curve, fade_frames, frames, f)
        } else {
            None
        };
        out.push(faded(fade, samples[i], point));
        i += 1;
    }
    out
}

/// Whether `out` is the faded-out tail followed by the faded-in head.
pub open spec fn is_faded_sequence<S, F: Fn(S, FadePoint) -> S>(
    old_tail: Seq<S>,
    new_head: Seq<S>,
    channels: usize,
    fade_out_frames: usize,
    fade_in_frames: usize,
    fade: F,
    out: Seq<S>,
) -> bool {
    &&& out.len() == old_tail.len() + new_head.len()
    &&& is_faded_out(
        old_tail,
        channels,
        fade_out_frames,
        FadeCurve::Linear,
        fade,
        out.take(old_tail.len() as int),
    )
    &&& is_faded_in(
        new_head,
        channels,
        fade_in_frames,
        FadeCurve::Linear,
        fade,
        out.skip(old_tail.len() as int),
    )
}

/// The transition to the live source: the tail fades out completely, and only
/// then does the head fade in. Both fades are linear.
pub fn to_live_transition<S: Copy, F: Fn(S, FadePoint) -> S>(
    old_tail: &[S],
    new_head: &[S],
    channels: usize,
    fade_out_frames: usize,
    fade_in_frames: usize,
    fade: &F,
) -> (out: Vec<S>)
    requires
        channels > 0,
        fade_is_total::<S, F>(*fade),
    ensures
        is_faded_sequence(
            old_tail@,
            new_head@,
            channels,
            fade_out_frames,
            fade_in_frames,
            *fade,
            out@,
        ),
{
    let old_faded = apply_fade_out(old_tail, channels, fade_out_frames, FadeCurve::Linear, fade);
    let new_faded = apply_fade_in(new_head, channels, fade_in_frames, FadeCurve::Linear, fade);
    let out = sequence(old_faded.as_slice(), new_faded.as_slice());
    assert(out@.take(old_tail@.len() as int) =~= old_faded@);
    assert(out@.skip(old_tail@.len() as int) =~= new_faded@);
    out
}

/// Whether `out` is this transition between the two sides.
pub open spec fn is_transition<S, F: Fn(S, FadePoint) -> S, M: Fn(S, S) -> S>(
    transition: Transition,
    old_tail: Seq<S>,
    new_head: Seq<S>,
    channels: usize,
    zero: S,
    fade: F,
    sum: M,
    out: Seq<S>,
) -> bool {
    match transition {
        Transition::Overlap { curve, fade_out_frames, fade_in_frames } => is_overlap(
            old_tail,
            new_head,
            channels,
            fade_out_frames,
            fade_in_frames,
            curve,
            zero,
            fade,
            sum,
            out,
        ),
        Transition::FadedSequence { fade_out_frames, fade_in_frames } => is_faded_sequence(
            old_tail,
            new_head,
            channels,
            fade_out_frames,
            fade_in_frames,
            fade,
            out,
        ),
        Transition::Sequence => out == old_tail + new_head,
    }
}

/// Mixes the transition between the tail of the outgoing track and the head
/// of the incoming one.
pub fn mix_transition<S: Copy, F: Fn(S, FadePoint) -> S, M: Fn(S, S) -> S>(
    old_tail: &[S],
    new_head: &[S],
    channels: usize,
    transition: Transition,
    zero: S,
    fade: &F,
    sum: &M,
) -> (out: Vec<S>)
    requires
        channels > 0,
        fade_is_total::<S, F>(*fade),
        sum_is_total::<S, M>(*sum),
    ensures
        is_transition(transition, old_tail@, new_head@, channels, zero, *fade, *sum, out@),
{
    match transition {
        Transition::Overlap { curve, fade_out_frames, fade_in_frames } => mix_add_fade(
            old_tail,
            new_head,
            channels,
            fade_out_frames,
            fade_in_frames,
            curve,
            zero,
            fade,
            sum,
        ),
        Transition::FadedSequence { fade_out_frames, fade_in_frames } => to_live_transition(
            old_tail,
            new_head,
            channels,
            fade_out_frames,
            fade_in_frames,
            fade,
        ),
        Transition::Sequence => sequence(old_tail, new_head),
    }
}

/// Whether smart crossfades take this branch between two sides: the branch of
/// the comparison of their loudness levels.
pub open spec fn is_smart_branch<
    S,
    N,
    L: Fn(&[S]) -> N,
    C: Fn(N, N) -> bool,
    P: Fn(N, N) -> N,
    D: Fn(N, N) -> N,
>(
    loudness: L,
    at_most: C,
    plus: P,
    distance: D,
    old_tail: &[S],
    new_head: &[S],
    t: CrossfadeThresholds<N>,
    branch: SmartBranch,
) -> bool {
    exists|a: N, b: N, c: LoudnessComparison|
        #![trigger is_comparison(at_most, plus, distance, a, b, t, c)]
        {
            &&& call_ensures(loudness, (old_tail,), a)
            &&& call_ensures(loudness, (new_head,), b)
            &&& is_comparison(at_most, plus, distance, a, b, t, c)
            &&& branch == smart_branch(c)
        }
}

/// Whether `out` is the transition that the parameters ask for, with this
/// branch and with fades of these lengths.
pub open spec fn is_mix_with<
    S,
    N,
    L: Fn(&[S]) -> N,
    C: Fn(N, N) -> bool,
    P: Fn(N, N) -> N,
    D: Fn(N, N) -> N,
    T: Fn(N) -> usize,
    F: Fn(S, FadePoint) -> S,
    M: Fn(S, S) -> S,
>(
    old_tail: &[S],
    new_head: &[S],
    channels: usize,
    params: CrossfadeParams<N>,
    zero: S,
    loudness: L,
    at_most: C,
    plus: P,
    distance: D,
    to_frames: T,
    fade: F,
    sum: M,
    branch: SmartBranch,
    fade_out_frames: usize,
    fade_in_frames: usize,
    out: Seq<S>,
) -> bool {
    &&& call_ensures(to_frames, (params.fade_out_secs,), fade_out_frames)
    &&& call_ensures(to_frames, (params.fade_in_secs,), fade_in_frames)
    &&& params.mode == CrossfadeMode::Smart && !params.to_live ==> is_smart_branch(
        loudness,
        at_most,
        plus,
        distance,
        old_tail,
        new_head,
        params.thresholds,
        branch,
    )
    &&& is_transition(
        planned(params.to_live, params.mode, branch, fade_out_frames, fade_in_frames),
        old_tail@,
        new_head@,
        channels,
        zero,
        fade,
        sum,
        out,
    )
}

/// Mixes the tail of the outgoing track with the head of the incoming one as
/// the parameters ask for. Besides `fade` and `sum`, the caller brings the
/// measurement of `loudness`, the arithmetic on levels of
/// [`compare_loudness`], and `to_frames`, which counts the frames in a number
/// of seconds. The loudness is measured in smart mode only, and not where the
/// live source takes over.
pub fn mix_with_params<
    S: Copy,
    N: Copy,
    L: Fn(&[S]) -> N,
    C: Fn(N, N) -> bool,
    P: Fn(N, N) -> N,
    D: Fn(N, N) -> N,
    T: Fn(N) -> usize,
    F: Fn(S, FadePoint) -> S,
    M: Fn(S, S) -> S,
>(
    old_tail: &[S],
    new_head: &[S],
    channels: usize,
    params: &CrossfadeParams<N>,
    zero: S,
    loudness: &L,
    at_most: &C,
    plus: &P,
    distance: &D,
    to_frames: &T,
    fade: &F,
    sum: &M,
) -> (out: Vec<S>)
    requires
        channels > 0,
        forall|side: &[S]| #[trigger] call_requires(*loudness, (side,)),
        comparison_is_total::<N, C>(*at_most),
        sum_is_total::<N, P>(*plus),
        sum_is_total::<N, D>(*distance),
        forall|secs: N| #[trigger] call_requires(*to_frames, (secs,)),
        fade_is_total::<S, F>(*fade),
        sum_is_total::<S, M>(*sum),
    ensures
        exists|branch: SmartBranch, fade_out_frames: usize, fade_in_frames: usize|
            #[trigger] is_mix_with(
                old_tail,
                new_head,
                channels,
                *params,
                zero,
                *loudness,
                *at_most,
                *plus,
                *distance,
                *to_frames,
                *fade,
                *sum,
                branch,
                fade_out_frames,
                fade_in_frames,
                out@,
            ),
{
    let branch = if measures_loudness(params.to_live, params.mode) {
        let a = loudness(old_tail);
        let b = loudness(new_head);
        let c = compare_loudness(a, b, &params.thresholds, at_most, plus, distance);
        assert(is_comparison(*at_most, *plus, *distance, a, b, params.thresholds, c));
        select_smart_branch(&c)
    } else {
        SmartBranch::HardSequentialCut
    };
    let fade_out_frames = to_frames(params.fade_out_secs);
    let fade_in_frames = to_frames(params.fade_in_secs);
    let transition = plan_transition(
        params.to_live,
        params.mode,
        branch,
        fade_out_frames,
        fade_in_frames,
    );
    let out = mix_transition(old_tail, new_head, channels, transition, zero, fade, sum);
    assert(is_mix_with(
        old_tail,
        new_head,
        channels,
        *params,
        zero,
        *loudness,
        *at_most,
        *plus,
        *distance,
        *to_frames,
        *fade,
        *sum,
        branch,
        fade_out_frames,
        fade_in_frames,
        out@,
    ));
    out
}

/// The caller's fade has one answer for each sample and position.
pub open spec fn fade_is_determined<S, F: Fn(S, FadePoint) -> S>(fade: F) -> bool {
    forall|sample: S, p: FadePoint, x: S, y: S|
        #[trigger] call_ensures(fade, (sample, p), x) && #[trigger] call_ensures(
            fade,
            (sample, p),
            y,
        ) ==> x == y
}

/// The caller's sum has one answer for each two samples.
pub open spec fn sum_is_determined<S, M: Fn(S, S) -> S>(sum: M) -> bool {
    forall|a: S, b: S, x: S, y: S|
        #[trigger] call_ensures(sum, (a, b), x) && #[trigger] call_ensures(sum, (a, b), y) ==> x
            == y
}

proof fn lemma_added_once<S, F: Fn(S, FadePoint) -> S, M: Fn(S, S) -> S>(
    fade: F,
    sum: M,
    acc: S,
    side: Option<(S, Option<FadePoint>)>,
    x: S,
    y: S,
)
    requires
        fade_is_determined::<S, F>(fade),
        sum_is_determined::<S, M>(sum),
        is_added(fade, sum, acc, side, x),
        is_added(fade, sum, acc, side, y),
    ensures
        x == y,
{
    match side {
        None => {},
        Some((sample, point)) => {
            let p = choose|p: S|
                is_faded(fade, sample, point, p) && call_ensures(sum, (acc, p), x);
            let q = choose|q: S|
                is_faded(fade, sample, point, q) && call_ensures(sum, (acc, q), y);
            assert(p == q);
        },
    }
}

/// A transition has one result: with a fade and a sum that give one answer per
/// argument, two outcomes of mixing the same two sides in the same layout are
/// the same samples.
pub proof fn law_a_transition_has_one_result<S, F: Fn(S, FadePoint) -> S, M: Fn(S, S) -> S>(
    transition: Transition,
    old_tail: Seq<S>,
    new_head: Seq<S>,
    channels: usize,
    zero: S,
    fade: F,
    sum: M,
    x: Seq<S>,
    y: Seq<S>,
)
    requires
        fade_is_determined::<S, F>(fade),
        sum_is_determined::<S, M>(sum),
        is_transition(transition, old_tail, new_head, channels, zero, fade, sum, x),
        is_transition(transition, old_tail, new_head, channels, zero, fade, sum, y),
    ensures
        x == y,
{
    match transition {
        Transition::Overlap { curve, fade_out_frames, fade_in_frames } => {
            assert forall|i: int| 0 <= i < x.len() implies x[i] == y[i] by {
                let old_part = old_side(old_tail, channels, curve, fade_out_frames, i);
                let new_part = new_side(new_head, channels, curve, fade_in_frames, i);
                assert(is_mixed(fade, sum, zero, old_part, new_part, x[i]));
                assert(is_mixed(fade, sum, zero, old_part, new_part, y[i]));
                let p = choose|p: S|
                    is_added(fade, sum, zero, old_part, p) && is_added(
                        fade,
                        sum,
                        p,
                        new_part,
                        x[i],
                    );
                let q = choose|q: S|
                    is_added(fade, sum, zero, old_part, q) && is_added(
                        fade,
                        sum,
                        q,
                        new_part,
                        y[i],
                    );
                lemma_added_once(fade, sum, zero, old_part, p, q);
                lemma_added_once(fade, sum, p, new_part, x[i], y[i]);
            }
            assert(x =~= y);
        },
        Transition::FadedSequence { fade_out_frames, fade_in_frames } => {
            let n = old_tail.len() as int;
            assert forall|i: int| 0 <= i < x.len() implies x[i] == y[i] by {
                if i < n {
                    assert(x.take(n)[i] == x[i] && y.take(n)[i] == y[i]);
                } else {
                    assert(x.skip(n)[i - n] == x[i] && y.skip(n)[i - n] == y[i]);
                }
            }
            assert(x =~= y);
        },
        Transition::Sequence => {},
    }
}

/// Going live sounds the same whatever the crossfade mode and the loudness
/// are, and nothing overlaps: it takes as long as both sides together.
pub proof fn law_going_live_sounds_alike<S, F: Fn(S, FadePoint) -> S, M: Fn(S, S) -> S>(
    mode: CrossfadeMode,
    branch: SmartBranch,
    other_mode: CrossfadeMode,
    other_branch: SmartBranch,
    fade_out_frames: usize,
    fade_in_frames: usize,
    old_tail: Seq<S>,
    new_head: Seq<S>,
    channels: usize,
    zero: S,
    fade: F,
    sum: M,
    x: Seq<S>,
    y: Seq<S>,
)
    requires
        fade_is_determined::<S, F>(fade),
        sum_is_determined::<S, M>(sum),
        is_transition(
            planned(true, mode, branch, fade_out_frames, fade_in_frames),
            old_tail,
            new_head,
            channels,
            zero,
            fade,
            sum,
            x,
        ),
        is_transition(
            planned(true, other_mode, other_branch, fade_out_frames, fade_in_frames),
            old_tail,
            new_head,
            channels,
            zero,
            fade,
            sum,
            y,
        ),
    ensures
        x == y,
        x.len() == old_tail.len() + new_head.len(),
{
    law_a_transition_has_one_result(
        planned(true, mode, branch, fade_out_frames, fade_in_frames),
        old_tail,
        new_head,
        channels,
        zero,
        fade,
        sum,
        x,
        y,
    );
}

/// Plain and disabled crossfades sound the same, whatever the loudness is; with
/// whole frames on both sides, they take as long as the longer side.
pub proof fn law_plain_and_disabled_sound_alike<S, F: Fn(S, FadePoint) -> S, M: Fn(S, S) -> S>(
    mode: CrossfadeMode,
    branch: SmartBranch,
    other_mode: CrossfadeMode,
    other_branch: SmartBranch,
    fade_out_frames: usize,
    fade_in_frames: usize,
    old_tail: Seq<S>,
    new_head: Seq<S>,
    channels: usize,
    zero: S,
    fade: F,
    sum: M,
    x: Seq<S>,
    y: Seq<S>,
)
    requires
        channels > 0,
        mode != CrossfadeMode::Smart,
        other_mode != CrossfadeMode::Smart,
        fade_is_determined::<S, F>(fade),
        sum_is_determined::<S, M>(sum),
        is_transition(
            planned(false, mode, branch, fade_out_frames, fade_in_frames),
            old_tail,
            new_head,
            channels,
            zero,
            fade,
            sum,
            x,
        ),
        is_transition(
            planned(false, other_mode, other_branch, fade_out_frames, fade_in_frames),
            old_tail,
            new_head,
            channels,
            zero,
            fade,
            sum,
            y,
        ),
    ensures
        x == y,
        old_tail.len() % (channels as nat) == 0 && new_head.len() % (channels as nat) == 0
            ==> x.len() == most(old_tail.len(), new_head.len()),
{
    law_a_transition_has_one_result(
        planned(false, mode, branch, fade_out_frames, fade_in_frames),
        old_tail,
        new_head,
        channels,
        zero,
        fade,
        sum,
        x,
        y,
    );
    if old_tail.len() % (channels as nat) == 0 && new_head.len() % (channels as nat) == 0 {
        let c = channels as int;
        let a = frames_in(old_tail.len(), channels) as int;
        let b = frames_in(new_head.len(), channels) as int;
        vstd::arithmetic::div_mod::lemma_fundamental_div_mod(old_tail.len() as int, c);
        vstd::arithmetic::div_mod::lemma_fundamental_div_mod(new_head.len() as int, c);
        assert(a <= b ==> c * a <= c * b) by (nonlinear_arith)
            requires
                c > 0,
        ;
        assert(b <= a ==> c * b <= c * a) by (nonlinear_arith)
            requires
                c > 0,
        ;
        assert(a * c == c * a && b * c == c * b) by (nonlinear_arith);
    }
}

} // verus!
