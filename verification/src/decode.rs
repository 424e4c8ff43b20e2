//! Decoded audio in the engine's fixed internal format, and the decisions of
//! the decoding loops.
//!
//! Samples are of a type `S` of the caller's choice. What is computed with
//! them (sums, quotients, rate conversion) is handed in by the caller.

use vstd::prelude::*;

use crate::text::{chars_of, concat2, string_of, trim_range};

verus! {

broadcast use vstd::string::group_string_axioms;

/// The sample rate of everything inside the engine.
pub const PIPELINE_SAMPLE_RATE: u32 = 44100;

/// The channel count of everything inside the engine.
pub const PIPELINE_CHANNELS: u16 = 2;

/// How many frames are handed to the rate converter at once.
pub const RESAMPLE_CHUNK_FRAMES: usize = 1024;

/// A decoded track.
#[derive(Debug, Clone)]
pub struct DecodedTrack<S, N> {
    /// Interleaved samples.
    pub samples: Vec<S>,
    pub sample_rate: u32,
    pub channels: u16,
    /// The gain that the file's own tags ask for, in dB.
    pub replaygain_track_gain_db: Option<N>,
}

impl<S, N> DecodedTrack<S, N> {
    /// How many whole frames the track has.
    pub open spec fn frame_count(&self) -> nat {
        crate::crossfade::frames_in(self.samples@.len(), self.channels as usize)
    }

    /// How many whole frames the track has.
    pub fn frames(&self) -> (n: usize)
        requires
            self.channels > 0,
        ensures
            n == self.frame_count(),
    {
        self.samples.len() / (self.channels as usize)
    }

    /// A track in the engine's format, without a gain of its own.
    pub fn in_pipeline_format(samples: Vec<S>) -> (track: DecodedTrack<S, N>)
        ensures
            track.samples == samples,
            track.sample_rate == PIPELINE_SAMPLE_RATE,
            track.channels == PIPELINE_CHANNELS,
            track.replaygain_track_gain_db is None,
    {
        DecodedTrack {
            samples,
            sample_rate: PIPELINE_SAMPLE_RATE,
            channels: PIPELINE_CHANNELS,
            replaygain_track_gain_db: None,
        }
    }
}

// ---------------------------------------------------------------------------
// Numbers in tags and annotations.

/// A decimal digit.
pub open spec fn is_digit(c: char) -> bool {
    '0' <= c <= '9'
}

/// Where the digits from `i` on end; one dot may stand among them.
pub open spec fn number_end(s: Seq<char>, i: int, seen_dot: bool) -> int
    decreases s.len() - i,
{
    if i < s.len() && is_digit(s[i]) {
        number_end(s, i + 1, seen_dot)
    } else if i < s.len() && s[i] == '.' && !seen_dot {
        number_end(s, i + 1, true)
    } else {
        i
    }
}

/// Where the digits of a number begin: after its sign, if it has one.
pub open spec fn number_start(s: Seq<char>) -> int {
    if s.len() > 0 && (s[0] == '-' || s[0] == '+') {
        1
    } else {
        0
    }
}

/// The number at the start of `s`, such as `-3.2` in `-3.2 dB`: a sign, and
/// digits with at most one dot. `None` where there is no digit.
pub open spec fn leading_number(s: Seq<char>) -> Option<Seq<char>> {
    let t = crate::text::trim(s);
    let end = number_end(t, number_start(t), false);
    if exists|k: int| number_start(t) <= k < end && is_digit(#[trigger] t[k]) {
        Some(t.take(end))
    } else {
        None
    }
}

/// The number at the start of `s`, as text.
pub fn parse_leading_number(s: &str) -> (number: Option<String>)
    ensures
        crate::text::opt_view(number) == leading_number(s@),
{
    let chars = chars_of(s);
    let (a, b) = trim_range(&chars, 0);
    let ghost t = crate::text::trim(s@);
    assert(chars@.skip(0) =~= chars@);
    assert(t.len() == b - a);
    assert(forall|k: int| 0 <= k < t.len() ==> #[trigger] t[k] == chars@[a + k]);
    let mut i: usize = a;
    if i < b && (chars[i] == '-' || chars[i] == '+') {
        assert(t[0] == chars@[a as int]);
        i += 1;
    } else if i < b {
        assert(t[0] == chars@[a as int]);
    }
    let ghost start = number_start(t);
    assert(i - a == start);
    let mut seen_digit = false;
    let mut seen_dot = false;
    while i < b && (('0' <= chars[i] && chars[i] <= '9') || (chars[i] == '.' && !seen_dot))
        invariant
            a + start <= i <= b <= chars@.len(),
            0 <= start,
            t.len() == b - a,
            forall|k: int| 0 <= k < t.len() ==> #[trigger] t[k] == chars@[a + k],
            number_end(t, start, false) == number_end(t, i - a, seen_dot),
            seen_digit == exists|k: int| start <= k < i - a && is_digit(#[trigger] t[k]),
        decreases b - i,
    {
        assert(t[i - a] == chars@[i as int]);
        if '0' <= chars[i] && chars[i] <= '9' {
            seen_digit = true;
        } else {
            seen_dot = true;
        }
        i += 1;
    }
    proof {
        if i < b {
            assert(t[i - a] == chars@[i as int]);
        }
        assert(number_end(t, start, false) == i - a);
        assert(t.take(i - a) =~= chars@.subrange(a as int, i as int));
    }
    if seen_digit {
        Some(string_of(&chars, a, i))
    } else {
        None
    }
}

// ---------------------------------------------------------------------------
// Channels.

/// Frame `f` of interleaved samples.
pub open spec fn frame_of<S>(interleaved: Seq<S>, channels: nat, f: int) -> Seq<S> {
    interleaved.subrange(f * channels, f * channels + channels)
}

/// `out` is the sum of `samples` from the left, starting at `zero`.
pub open spec fn is_sum<S, M: Fn(S, S) -> S>(sum: M, zero: S, samples: Seq<S>, out: S) -> bool
    decreases samples.len(),
{
    if samples.len() == 0 {
        out == zero
    } else {
        exists|mid: S|
            #![trigger call_ensures(sum, (mid, samples.last()), out)]
            is_sum(sum, zero, samples.drop_last(), mid) && call_ensures(
                sum,
                (mid, samples.last()),
                out,
            )
    }
}

/// `out` is the mean of `samples`: their sum, divided by the channel count.
pub open spec fn is_mean<S, M: Fn(S, S) -> S, D: Fn(S, usize) -> S>(
    sum: M,
    divide: D,
    zero: S,
    samples: Seq<S>,
    channels: usize,
    out: S,
) -> bool {
    exists|total: S|
        #![trigger call_ensures(divide, (total, channels), out)]
        is_sum(sum, zero, samples, total) && call_ensures(divide, (total, channels), out)
}

/// Whether `left` and `right` are the two channels of stereo samples.
pub open spec fn is_stereo_split<S>(interleaved: Seq<S>, left: Seq<S>, right: Seq<S>) -> bool {
    &&& left.len() == interleaved.len() / 2
    &&& right.len() == interleaved.len() / 2
    &&& forall|f: int| 0 <= f < left.len() ==> #[trigger] left[f] == interleaved[2 * f]
    &&& forall|f: int| 0 <= f < right.len() ==> #[trigger] right[f] == interleaved[2 * f + 1]
}

/// Splits stereo samples into their two channels.
fn split_stereo<S: Copy>(interleaved: &[S]) -> (planes: (Vec<S>, Vec<S>))
    ensures
        is_stereo_split(interleaved@, planes.0@, planes.1@),
{
    let frames = interleaved.len() / 2;
    let mut left: Vec<S> = Vec::new();
    let mut right: Vec<S> = Vec::new();
    let mut f: usize = 0;
    while f < frames
        invariant
            frames == interleaved@.len() / 2,
            interleaved@.len() <= usize::MAX,
            f <= frames,
            left@.len() == f,
            right@.len() == f,
            forall|k: int| 0 <= k < f ==> #[trigger] left@[k] == interleaved@[2 * k],
            forall|k: int| 0 <= k < f ==> #[trigger] right@[k] == interleaved@[2 * k + 1],
        decreases frames - f,
    {
        left.push(interleaved[2 * f]);
        right.push(interleaved[2 * f + 1]);
        f += 1;
    }
    (left, right)
}

/// A copy of the samples.
fn copy_of<S: Copy>(samples: &[S]) -> (copy: Vec<S>)
    ensures
        copy@ == samples@,
{
    let mut copy: Vec<S> = Vec::new();
    let mut i: usize = 0;
    while i < samples.len()
        invariant
            i <= samples@.len(),
            copy@ == samples@.take(i as int),
        decreases samples@.len() - i,
    {
        copy.push(samples[i]);
        i += 1;
    }
    assert(samples@.take(i as int) =~= samples@);
    copy
}

/// Sums the samples from the left.
fn sum_of<S: Copy, M: Fn(S, S) -> S>(
    sum: &M,
    zero: S,
    interleaved: &[S],
    from: usize,
    to: usize,
) -> (total: S)
    requires
        from <= to <= interleaved@.len(),
        crate::crossfade::sum_is_total::<S, M>(*sum),
    ensures
        is_sum(*sum, zero, interleaved@.subrange(from as int, to as int), total),
{
    let mut total = zero;
    let mut i: usize = from;
    while i < to
        invariant
            from <= i <= to <= interleaved@.len(),
            crate::crossfade::sum_is_total::<S, M>(*sum),
            is_sum(*sum, zero, interleaved@.subrange(from as int, i as int), total),
        decreases to - i,
    {
        let ghost before = total;
        total = sum(total, interleaved[i]);
        proof {
            let next = interleaved@.subrange(from as int, i + 1);
            assert(next.drop_last() =~= interleaved@.subrange(from as int, i as int));
            assert(next.last() == interleaved@[i as int]);
            assert(call_ensures(*sum, (before, next.last()), total));
        }
        i += 1;
    }
    total
}

/// Whether the two planes are the stereo form of samples with this many
/// channels: stereo is split, mono goes to both sides, and the frames of
/// anything else are averaged first.
pub open spec fn are_stereo_planes<S, M: Fn(S, S) -> S, D: Fn(S, usize) -> S>(
    interleaved: Seq<S>,
    channels: usize,
    sum: M,
    divide: D,
    zero: S,
    left: Seq<S>,
    right: Seq<S>,
) -> bool {
    if channels == 2 {
        is_stereo_split(interleaved, left, right)
    } else if channels == 1 {
        left == interleaved && right == interleaved
    } else {
        &&& right == left
        &&& left.len() == interleaved.len() / (if channels == 0 {
            1
        } else {
            channels as nat
        })
        &&& forall|f: int|
            0 <= f < left.len() ==> is_mean(
                sum,
                divide,
                zero,
                frame_of(interleaved, channels as nat, f),
                channels,
                #[trigger] left[f],
            )
    }
}

/// Brings interleaved samples to two channels, as two planes.
pub fn to_stereo_channel_planes<S: Copy, M: Fn(S, S) -> S, D: Fn(S, usize) -> S>(
    interleaved: &[S],
    channels: usize,
    sum: &M,
    divide: &D,
    zero: S,
) -> (planes: (Vec<S>, Vec<S>))
    requires
        crate::crossfade::sum_is_total::<S, M>(*sum),
        forall|a: S, n: usize| #[trigger] call_requires(*divide, (a, n)),
    ensures
        are_stereo_planes(interleaved@, channels, *sum, *divide, zero, planes.0@, planes.1@),
{
    if channels == 2 {
        return split_stereo(interleaved);
    }
    if channels == 1 {
        return (copy_of(interleaved), copy_of(interleaved));
    }
    let width: usize = if channels == 0 {
        1
    } else {
        channels
    };
    let frames = interleaved.len() / width;
    let mut mono: Vec<S> = Vec::new();
    let mut f: usize = 0;
    proof {
        vstd::arithmetic::div_mod::lemma_fundamental_div_mod(
            interleaved@.len() as int,
            width as int,
        );
    }
    while f < frames
        invariant
            crate::crossfade::sum_is_total::<S, M>(*sum),
            forall|a: S, n: usize| #[trigger] call_requires(*divide, (a, n)),
            channels <= width,
            width * frames <= interleaved@.len() <= usize::MAX,
            f <= frames,
            mono@.len() == f,
            forall|k: int|
                0 <= k < f ==> is_mean(
                    *sum,
                    *divide,
                    zero,
                    frame_of(interleaved@, channels as nat, k),
                    channels,
                    #[trigger] mono@[k],
                ),
        decreases frames - f,
    {
        assert(f * channels + channels <= interleaved@.len()) by (nonlinear_arith)
            requires
                f < frames,
                channels <= width,
                width * frames <= interleaved@.len(),
        ;
        assert(0 <= f * channels) by (nonlinear_arith);
        let start = f * channels;
        let total = sum_of(sum, zero, interleaved, start, start + channels);
        let mean = divide(total, channels);
        assert(call_ensures(*divide, (total, channels), mean));
        mono.push(mean);
        f += 1;
    }
    let right = copy_of(mono.as_slice());
    (mono, right)
}

/// The samples of two planes, interleaved.
pub open spec fn interleaved_of<S>(left: Seq<S>, right: Seq<S>) -> Seq<S> {
    Seq::new(
        2 * left.len(),
        |i: int|
            if i % 2 == 0 {
                left[i / 2]
            } else {
                right[i / 2]
            },
    )
}

/// Interleaves two planes; the left one says how many frames there are.
pub fn interleave_stereo<S: Copy>(left: &[S], right: &[S]) -> (out: Vec<S>)
    requires
        left@.len() <= right@.len(),
    ensures
        out@ == interleaved_of(left@, right@),
{
    let mut out: Vec<S> = Vec::new();
    let mut f: usize = 0;
    while f < left.len()
        invariant
            f <= left@.len() <= right@.len(),
            out@.len() == 2 * f,
            forall|i: int|
                0 <= i < 2 * f ==> #[trigger] out@[i] == if i % 2 == 0 {
                    left@[i / 2]
                } else {
                    right@[i / 2]
                },
        decreases left@.len() - f,
    {
        out.push(left[f]);
        out.push(right[f]);
        f += 1;
    }
    assert(out@ =~= interleaved_of(left@, right@));
    out
}

/// Splitting stereo samples and interleaving them again gives the samples
/// back, if they are whole frames.
pub proof fn law_interleaving_undoes_splitting<S>(
    interleaved: Seq<S>,
    left: Seq<S>,
    right: Seq<S>,
)
    requires
        is_stereo_split(interleaved, left, right),
        interleaved.len() % 2 == 0,
    ensures
        interleaved_of(left, right) == interleaved,
{
    let back = interleaved_of(left, right);
    assert(back.len() == interleaved.len());
    assert forall|i: int| 0 <= i < back.len() implies back[i] == interleaved[i] by {
        let f = i / 2;
        assert(left[f] == interleaved[2 * f]);
        assert(right[f] == interleaved[2 * f + 1]);
    }
    assert(back =~= interleaved);
}

// ---------------------------------------------------------------------------
// Chunks.

/// The end of the chunk that begins at `pos`.
pub open spec fn chunk_end(pos: int, end: int, size: int) -> int {
    if pos + size < end {
        pos + size
    } else {
        end
    }
}

/// The chunks of at most `size` into which `from..to` is cut, in order.
pub open spec fn chunks(from: int, to: int, size: int) -> Seq<(int, int)>
    decreases to - from,
{
    if from >= to || size <= 0 {
        Seq::empty()
    } else {
        seq![(from, chunk_end(from, to, size))] + chunks(chunk_end(from, to, size), to, size)
    }
}

/// Cuts `from..to` into chunks of at most `size`.
pub fn chunk_ranges(from: usize, to: usize, size: usize) -> (ranges: Vec<(usize, usize)>)
    requires
        size > 0,
    ensures
        ranges@.len() == chunks(from as int, to as int, size as int).len(),
        forall|i: int|
            0 <= i < ranges@.len() ==> ((#[trigger] ranges@[i]).0 as int, ranges@[i].1 as int)
                == chunks(from as int, to as int, size as int)[i],
{
    let mut ranges: Vec<(usize, usize)> = Vec::new();
    let mut pos: usize = from;
    let ghost all = chunks(from as int, to as int, size as int);
    assert(all =~= Seq::<(int, int)>::empty() + chunks(pos as int, to as int, size as int));
    while pos < to
        invariant
            size > 0,
            ranges@.len() <= all.len(),
            all.skip(ranges@.len() as int) == chunks(pos as int, to as int, size as int),
            forall|i: int|
                0 <= i < ranges@.len() ==> ((#[trigger] ranges@[i]).0 as int, ranges@[i].1 as int)
                    == all[i],
        decreases to - pos,
    {
        let end = if to - pos > size {
            pos + size
        } else {
            to
        };
        proof {
            let rest = all.skip(ranges@.len() as int);
            assert(rest[0] == (pos as int, end as int));
            assert(rest.skip(1) =~= chunks(end as int, to as int, size as int));
            assert(all.skip((ranges@.len() + 1) as int) =~= rest.skip(1));
        }
        ranges.push((pos, end));
        pos = end;
    }
    ranges
}

/// The samples of all chunks, one after the other.
pub open spec fn all_chunks<S>(samples: Seq<S>, ranges: Seq<(int, int)>) -> Seq<S>
    decreases ranges.len(),
{
    if ranges.len() == 0 {
        Seq::empty()
    } else {
        samples.subrange(ranges[0].0, ranges[0].1) + all_chunks(samples, ranges.skip(1))
    }
}

/// Cutting a range into chunks loses nothing, repeats nothing and keeps the
/// order: the chunks, put together again, are the range. None is empty, and
/// none is longer than it may be.
pub proof fn law_chunks_cover_the_range_once<S>(samples: Seq<S>, from: int, to: int, size: int)
    requires
        0 <= from <= to <= samples.len(),
        size > 0,
    ensures
        all_chunks(samples, chunks(from, to, size)) == samples.subrange(from, to),
        forall|i: int|
            0 <= i < chunks(from, to, size).len() ==> 0 < (#[trigger] chunks(from, to, size)[i]).1
                - chunks(from, to, size)[i].0 <= size,
    decreases to - from,
{
    if from < to {
        let end = chunk_end(from, to, size);
        let rest = chunks(end, to, size);
        law_chunks_cover_the_range_once(samples, end, to, size);
        let all = chunks(from, to, size);
        assert(all == seq![(from, end)] + rest);
        assert(all.skip(1) =~= rest);
        assert(samples.subrange(from, end) + samples.subrange(end, to) =~= samples.subrange(
            from,
            to,
        ));
        assert forall|i: int| 0 <= i < all.len() implies 0 < (#[trigger] all[i]).1 - all[i].0
            <= size by {
            if i > 0 {
                assert(all[i] == rest[i - 1]);
            }
        }
    } else {
        assert(samples.subrange(from, to) =~= Seq::<S>::empty());
    }
}

/// Whether the rate has to be converted at all.
pub fn needs_resampling(source_rate: u32, target_rate: u32, frames: usize) -> (yes: bool)
    ensures
        yes == (source_rate != target_rate && frames > 0),
{
    source_rate != target_rate && frames > 0
}

// ---------------------------------------------------------------------------
// The decoding loops.

/// What came of reading the next packet.
#[derive(Debug)]
pub enum PacketRead {
    /// A packet of the track with this number.
    Packet(u32),
    /// The stream is over.
    EndOfStream,
    /// The stream starts anew with other parameters.
    ResetRequired,
    Failed(String),
}

/// What to do about it.
#[derive(Debug)]
pub enum PacketAction {
    /// Decode the packet.
    Decode,
    /// Go on with the next packet.
    Skip,
    /// The stream is over.
    Stop,
    Fail(String),
}

/// What came of decoding a packet.
#[derive(Debug)]
pub enum PacketDecode {
    Audio { rate: u32, channels: usize },
    /// This packet is broken; the next one may not be.
    BadPacket,
    Fatal(String),
}

/// What to do about it.
#[derive(Debug)]
pub enum DecodeAction {
    /// Use the decoded samples.
    Append,
    /// Go on with the next packet.
    Skip,
    /// The stream is over.
    Stop,
    Fail(String),
}

/// A file that is being decoded.
#[derive(Debug)]
pub struct FileDecoder {
    /// The file's name, for messages.
    pub path: String,
    /// The one track that is decoded.
    pub track_id: u32,
    /// The rate of the first audio, or 0 before there was any.
    pub source_rate: u32,
    pub source_channels: usize,
}

impl FileDecoder {
    /// Nothing has been decoded yet.
    pub fn new(path: &str, track_id: u32) -> (d: FileDecoder)
        ensures
            d.path@ == path@,
            d.track_id == track_id,
            d.source_rate == 0,
            d.source_channels == 0,
    {
        FileDecoder { path: path.to_owned(), track_id, source_rate: 0, source_channels: 0 }
    }

    /// Packets of other tracks are skipped, and the end of the stream ends the
    /// file; any other error fails it.
    pub fn on_packet(&self, read: PacketRead) -> (action: PacketAction)
        ensures
            match read {
                PacketRead::Packet(id) => if id == self.track_id {
                    action is Decode
                } else {
                    action is Skip
                },
                PacketRead::EndOfStream | PacketRead::ResetRequired => action is Stop,
                PacketRead::Failed(e) => action matches PacketAction::Fail(m) && m@
                    == "error reading packet from "@ + self.path@ + ": "@ + e@,
            },
    {
        match read {
            PacketRead::Packet(id) => if id == self.track_id {
                PacketAction::Decode
            } else {
                PacketAction::Skip
            },
            PacketRead::EndOfStream => PacketAction::Stop,
            PacketRead::ResetRequired => PacketAction::Stop,
            PacketRead::Failed(e) => {
                let mut m = concat2("error reading packet from ", self.path.as_str());
                m.append(": ");
                m.append(e.as_str());
                PacketAction::Fail(m)
            },
        }
    }

    /// The first audio says what the file's rate and channels are. A broken
    /// packet is skipped; any other error fails the file.
    pub fn on_decoded(&mut self, decoded: PacketDecode) -> (action: DecodeAction)
        ensures
            final(self).path == old(self).path,
            final(self).track_id == old(self).track_id,
            match decoded {
                PacketDecode::Audio { rate, channels } => {
                    &&& action is Append
                    &&& if old(self).source_rate == 0 {
                        final(self).source_rate == rate && final(self).source_channels == channels
                    } else {
                        final(self).source_rate == old(self).source_rate
                            && final(self).source_channels == old(self).source_channels
                    }
                },
                PacketDecode::BadPacket => {
                    &&& action is Skip
                    &&& *final(self) == *old(self)
                },
                PacketDecode::Fatal(e) => {
                    &&& action matches DecodeAction::Fail(m)
                    &&& m@ == "fatal decode error in "@ + old(self).path@ + ": "@ + e@
                    &&& *final(self) == *old(self)
                },
            },
    {
        match decoded {
            PacketDecode::Audio { rate, channels } => {
                if self.source_rate == 0 {
                    self.source_rate = rate;
                    self.source_channels = channels;
                }
                DecodeAction::Append
            },
            PacketDecode::BadPacket => DecodeAction::Skip,
            PacketDecode::Fatal(e) => {
                let mut m = concat2("fatal decode error in ", self.path.as_str());
                m.append(": ");
                m.append(e.as_str());
                DecodeAction::Fail(m)
            },
        }
    }

    /// The rate and the channels of the file; one without any audio fails.
    pub fn finish(&self) -> (r: Result<(u32, usize), String>)
        ensures
            match r {
                Ok((rate, channels)) => {
                    &&& rate == self.source_rate && channels == self.source_channels
                    &&& rate > 0 && channels > 0
                },
                Err(e) => {
                    &&& self.source_rate == 0 || self.source_channels == 0
                    &&& e@ == "no audio frames decoded from "@ + self.path@
                },
            },
    {
        if self.source_rate == 0 || self.source_channels == 0 {
            Err(concat2("no audio frames decoded from ", self.path.as_str()))
        } else {
            Ok((self.source_rate, self.source_channels))
        }
    }
}

/// A live stream that is being decoded.
#[derive(Debug)]
pub struct LiveDecoder {
    /// The one track that is decoded.
    pub track_id: u32,
    /// Whether the stream has been announced as ready.
    pub announced: bool,
}

/// What to do with decoded live audio.
#[derive(Debug, Clone, Copy, PartialEq, Eq, Structural)]
pub enum ChunkAction {
    /// There is nothing in it.
    Skip,
    /// Announce that live audio is there, then play it.
    AnnounceAndSend,
    /// Play it.
    Send,
}

impl LiveDecoder {
    /// Nothing has been decoded yet.
    pub fn new(track_id: u32) -> (d: LiveDecoder)
        ensures
            d.track_id == track_id,
            !d.announced,
    {
        LiveDecoder { track_id, announced: false }
    }

    /// Packets of other tracks are skipped, and any error ends the stream.
    pub fn on_packet(&self, read: PacketRead) -> (action: PacketAction)
        ensures
            match read {
                PacketRead::Packet(id) => if id == self.track_id {
                    action is Decode
                } else {
                    action is Skip
                },
                _ => action is Stop,
            },
    {
        match read {
            PacketRead::Packet(id) => if id == self.track_id {
                PacketAction::Decode
            } else {
                PacketAction::Skip
            },
            _ => PacketAction::Stop,
        }
    }

    /// Audio without rate or channels and broken packets are skipped; any
    /// other error ends the stream.
    pub fn on_decoded(&self, decoded: PacketDecode) -> (action: DecodeAction)
        ensures
            match decoded {
                PacketDecode::Audio { rate, channels } => if rate == 0 || channels == 0 {
                    action is Skip
                } else {
                    action is Append
                },
                PacketDecode::BadPacket => action is Skip,
                PacketDecode::Fatal(_) => action is Stop,
            },
    {
        match decoded {
            PacketDecode::Audio { rate, channels } => if rate == 0 || channels == 0 {
                DecodeAction::Skip
            } else {
                DecodeAction::Append
            },
            PacketDecode::BadPacket => DecodeAction::Skip,
            PacketDecode::Fatal(_) => DecodeAction::Stop,
        }
    }

    /// The first chunk with any frame in it announces the stream; empty ones
    /// are dropped.
    pub fn on_chunk(&mut self, frames: usize) -> (action: ChunkAction)
        ensures
            action == if frames == 0 {
                ChunkAction::Skip
            } else if old(self).announced {
                ChunkAction::Send
            } else {
                ChunkAction::AnnounceAndSend
            },
            final(self).announced == (old(self).announced || frames > 0),
            final(self).track_id == old(self).track_id,
    {
        if frames == 0 {
            return ChunkAction::Skip;
        }
        if self.announced {
            ChunkAction::Send
        } else {
            self.announced = true;
            ChunkAction::AnnounceAndSend
        }
    }
}

} // verus!
