//! Samples on their way through decoders and processors.

use vstd::prelude::*;

use crate::audio_processing::{
    choose_processor, le_bytes_into_samples, samples_to_le_bytes, stereo_tool_args,
    ProcessorChoice, SlidingWindow,
};
use crate::config::AudioProcessingConfig;
use crate::decode::{
    chunk_ranges, interleave_stereo, needs_resampling, to_stereo_channel_planes, ChunkAction,
    DecodeAction, DecodedTrack, FileDecoder, LiveDecoder, PacketAction, PacketDecode, PacketRead,
};

verus! {

broadcast use vstd::string::group_string_axioms;

// ---------------------------------------------------------------------------
// Channels.

/// Frames are counted whole: as many as fit into the samples.
pub proof fn law_frames_are_counted_whole<S, N>(track: DecodedTrack<S, N>, n: usize)
    requires
        track.channels > 0,
        call_ensures(DecodedTrack::<S, N>::frames, (&track,), n),
    ensures
        n * track.channels <= track.samples@.len() < (n + 1) * track.channels,
{
    let c = track.channels as int;
    let len = track.samples@.len() as int;
    vstd::arithmetic::div_mod::lemma_fundamental_div_mod(len, c);
    assert(n * c == c * n && (n + 1) * c == c * n + c) by (nonlinear_arith);
}

/// Stereo is taken apart into its left and its right samples, and mono is heard
/// on both sides.
pub proof fn law_stereo_and_mono_keep_their_samples<
    S: Copy,
    M: Fn(S, S) -> S,
    D: Fn(S, usize) -> S,
>(
    interleaved: &[S],
    channels: usize,
    sum: M,
    divide: D,
    zero: S,
    planes: (Vec<S>, Vec<S>),
    f: int,
)
    requires
        call_ensures(
            to_stereo_channel_planes::<S, M, D>,
            (interleaved, channels, &sum, &divide, zero),
            planes,
        ),
    ensures
        planes.0@.len() == planes.1@.len(),
        channels == 1 ==> planes.0@ == interleaved@ && planes.1@ == interleaved@,
        channels == 2 ==> 2 * planes.0@.len() <= interleaved@.len() < 2 * planes.0@.len() + 2,
        channels == 2 && 0 <= f < planes.0@.len() ==> planes.0@[f] == interleaved@[2 * f]
            && planes.1@[f] == interleaved@[2 * f + 1],
        channels != 2 ==> planes.0@ == planes.1@,
{
}

/// The sums on the way to the sum of all samples.
proof fn lemma_partial_sums<S, M: Fn(S, S) -> S>(
    sum: M,
    zero: S,
    samples: Seq<S>,
    total: S,
) -> (partial: Seq<S>)
    requires
        crate::decode::is_sum(sum, zero, samples, total),
    ensures
        partial.len() == samples.len() + 1,
        partial[0] == zero,
        partial.last() == total,
        forall|k: int|
            #![trigger partial[k]]
            0 <= k < samples.len() ==> call_ensures(
                sum,
                (partial[k], samples[k]),
                partial[k + 1],
            ),
    decreases samples.len(),
{
    if samples.len() == 0 {
        seq![zero]
    } else {
        let front = samples.drop_last();
        let mid = choose|mid: S|
            #![trigger call_ensures(sum, (mid, samples.last()), total)]
            crate::decode::is_sum(sum, zero, front, mid) && call_ensures(
                sum,
                (mid, samples.last()),
                total,
            );
        let before = lemma_partial_sums(sum, zero, front, mid);
        let partial = before.push(total);
        assert forall|k: int|
            #![trigger partial[k]]
            0 <= k < samples.len() implies call_ensures(
            sum,
            (partial[k], samples[k]),
            partial[k + 1],
        ) by {
            if k < front.len() {
                assert(before[k] == partial[k]);
                assert(before[k + 1] == partial[k + 1]);
                assert(front[k] == samples[k]);
            } else {
                assert(partial[k] == mid);
            }
        }
        partial
    }
}

/// More than two channels are heard as their mean on both sides: the sum of a
/// frame's samples, all of them and one after the other, divided by how many
/// they are.
pub proof fn law_more_channels_are_averaged<S: Copy, M: Fn(S, S) -> S, D: Fn(S, usize) -> S>(
    interleaved: &[S],
    channels: usize,
    sum: M,
    divide: D,
    zero: S,
    planes: (Vec<S>, Vec<S>),
    f: int,
) -> (partial: Seq<S>)
    requires
        channels > 2,
        call_ensures(
            to_stereo_channel_planes::<S, M, D>,
            (interleaved, channels, &sum, &divide, zero),
            planes,
        ),
        0 <= f < planes.0@.len(),
    ensures
        planes.0@.len() * channels <= interleaved@.len() < (planes.0@.len() + 1) * channels,
        planes.1@ == planes.0@,
        partial.len() == channels + 1,
        partial[0] == zero,
        forall|k: int|
            #![trigger partial[k]]
            0 <= k < channels ==> call_ensures(
                sum,
                (partial[k], interleaved@[f * channels + k]),
                partial[k + 1],
            ),
        call_ensures(divide, (partial[channels as int], channels), planes.0@[f]),
{
    let c = channels as int;
    let len = interleaved@.len() as int;
    let n = planes.0@.len() as int;
    vstd::arithmetic::div_mod::lemma_fundamental_div_mod(len, c);
    assert(n * c == c * n && (n + 1) * c == c * n + c) by (nonlinear_arith);
    assert(0 <= f * c && f * c + c <= n * c) by (nonlinear_arith)
        requires
            0 <= f < n,
            c > 0,
    ;
    let frame = crate::decode::frame_of(interleaved@, channels as nat, f);
    assert(crate::decode::is_mean(sum, divide, zero, frame, channels, planes.0@[f]));
    let total = choose|total: S|
        #![trigger call_ensures(divide, (total, channels), planes.0@[f])]
        crate::decode::is_sum(sum, zero, frame, total) && call_ensures(
            divide,
            (total, channels),
            planes.0@[f],
        );
    let partial = lemma_partial_sums(sum, zero, frame, total);
    assert forall|k: int| #![trigger partial[k]] 0 <= k < channels implies call_ensures(
        sum,
        (partial[k], interleaved@[f * channels + k]),
        partial[k + 1],
    ) by {
        assert(frame[k] == interleaved@[f * channels + k]);
    }
    partial
}

/// Interleaving puts the left sample of each frame before its right one.
pub proof fn law_left_comes_before_right<S: Copy>(
    left: &[S],
    right: &[S],
    out: Vec<S>,
    f: int,
)
    requires
        left@.len() <= right@.len(),
        call_ensures(interleave_stereo::<S>, (left, right), out),
    ensures
        out@.len() == 2 * left@.len(),
        0 <= f < left@.len() ==> out@[2 * f] == left@[f] && out@[2 * f + 1] == right@[f],
{
}

/// The rate is converted only where there is audio of another rate.
pub proof fn law_only_another_rate_is_converted(
    source: u32,
    target: u32,
    frames: usize,
    yes: bool,
)
    requires
        call_ensures(needs_resampling, (source, target, frames), yes),
    ensures
        source == target ==> !yes,
        frames == 0 ==> !yes,
        source != target && frames > 0 ==> yes,
{
}

proof fn lemma_chunk(from: int, to: int, size: int, i: int)
    requires
        size > 0,
        0 <= i < crate::decode::chunks(from, to, size).len(),
    ensures
        ({
            let all = crate::decode::chunks(from, to, size);
            &&& all[i].0 == from + i * size
            &&& all[i].0 < all[i].1
            &&& all[i].1 == if i < all.len() - 1 {
                from + (i + 1) * size
            } else {
                to
            }
            &&& all[i].1 - all[i].0 <= size
        }),
    decreases to - from,
{
    let all = crate::decode::chunks(from, to, size);
    let end = crate::decode::chunk_end(from, to, size);
    let rest = crate::decode::chunks(end, to, size);
    assert(all == seq![(from, end)] + rest);
    if i > 0 {
        lemma_chunk(end, to, size, i - 1);
        assert(all[i] == rest[i - 1]);
        assert(end == from + size);
        assert(end + (i - 1) * size == from + i * size && end + i * size == from + (i + 1) * size)
            by (nonlinear_arith)
            requires
                end == from + size,
        ;
    } else {
        assert(0 * size == 0 && 1 * size == size) by (nonlinear_arith);
        if end < to {
            assert(rest.len() > 0);
        } else {
            assert(rest.len() == 0);
        }
    }
}

/// A range is cut into chunks of one size, from its start on; only the last may
/// be shorter, and it ends where the range does.
pub proof fn law_chunks_have_one_size(
    from: usize,
    to: usize,
    size: usize,
    ranges: Vec<(usize, usize)>,
    i: int,
)
    requires
        size > 0,
        call_ensures(chunk_ranges, (from, to, size), ranges),
    ensures
        ranges@.len() > 0 <==> from < to,
        0 <= i < ranges@.len() ==> ranges@[i].0 == from + i * size && ranges@[i].0
            < ranges@[i].1 <= ranges@[i].0 + size,
        0 <= i < ranges@.len() - 1 ==> ranges@[i].1 == ranges@[i].0 + size,
        ranges@.len() > 0 ==> ranges@.last().1 == to,
{
    let all = crate::decode::chunks(from as int, to as int, size as int);
    if 0 <= i < ranges@.len() {
        lemma_chunk(from as int, to as int, size as int, i);
        assert((ranges@[i].0 as int, ranges@[i].1 as int) == all[i]);
        assert((i + 1) * size == i * size + size) by (nonlinear_arith);
    }
    if ranges@.len() > 0 {
        let last = ranges@.len() - 1;
        lemma_chunk(from as int, to as int, size as int, last);
        assert((ranges@[last].0 as int, ranges@[last].1 as int) == all[last]);
    }
}

// ---------------------------------------------------------------------------
// Decoding.

/// Of a file, the packets of its one track are decoded and those of others
/// skipped; it ends with its stream, and fails where reading does.
pub proof fn law_a_file_is_read_to_its_end(
    file: FileDecoder,
    read: PacketRead,
    action: PacketAction,
)
    requires
        call_ensures(FileDecoder::on_packet, (&file, read), action),
    ensures
        action is Decode <==> read == PacketRead::Packet(file.track_id),
        action is Skip <==> read is Packet && read->Packet_0 != file.track_id,
        action is Stop <==> read is EndOfStream || read is ResetRequired,
        action is Fail <==> read is Failed,
{
}

/// A live stream is read the same way, but any failure to read ends it.
pub proof fn law_a_live_stream_is_read_to_its_end(
    stream: LiveDecoder,
    read: PacketRead,
    action: PacketAction,
)
    requires
        call_ensures(LiveDecoder::on_packet, (&stream, read), action),
    ensures
        action is Decode <==> read == PacketRead::Packet(stream.track_id),
        action is Skip <==> read is Packet && read->Packet_0 != stream.track_id,
        action is Stop <==> read !is Packet,
{
}

/// The first audio of a file says what its rate and its channels are; broken
/// packets are passed over, and a fatal one fails the file.
pub proof fn law_the_first_audio_sets_the_rate(
    file: &mut FileDecoder,
    decoded: PacketDecode,
    action: DecodeAction,
)
    requires
        call_ensures(FileDecoder::on_decoded, (file, decoded), action),
    ensures
        action is Append <==> decoded is Audio,
        action is Skip <==> decoded is BadPacket,
        action is Fail <==> decoded is Fatal,
        decoded matches PacketDecode::Audio { rate, channels } ==> (old(file).source_rate == 0
            ==> final(file).source_rate == rate && final(file).source_channels == channels),
        old(file).source_rate != 0 || decoded !is Audio ==> final(file).source_rate == old(file).source_rate && final(file).source_channels == old(file).source_channels,
        final(file).track_id == old(file).track_id,
        final(file).path == old(file).path,
{
}

/// A file without any audio fails, and any other is what its first audio was.
pub proof fn law_a_file_without_audio_fails(
    path: &str,
    track_id: u32,
    fresh: FileDecoder,
    file: FileDecoder,
    fresh_result: Result<(u32, usize), String>,
    r: Result<(u32, usize), String>,
)
    requires
        call_ensures(FileDecoder::new, (path, track_id), fresh),
        call_ensures(FileDecoder::finish, (&fresh,), fresh_result),
        call_ensures(FileDecoder::finish, (&file,), r),
    ensures
        fresh_result is Err,
        fresh.track_id == track_id && fresh.path@ == path@,
        r is Ok <==> file.source_rate > 0 && file.source_channels > 0,
        r is Ok ==> r->Ok_0 == (file.source_rate, file.source_channels),
{
}

/// Live audio is used where it has a rate and channels; broken packets are
/// passed over, and a fatal one ends the stream.
pub proof fn law_live_audio_is_used_where_it_can_be(
    stream: LiveDecoder,
    decoded: PacketDecode,
    action: DecodeAction,
)
    requires
        call_ensures(LiveDecoder::on_decoded, (&stream, decoded), action),
    ensures
        decoded matches PacketDecode::Audio { rate, channels } ==> (action is Append <==> rate > 0
            && channels > 0),
        action is Append ==> decoded is Audio,
        decoded is BadPacket ==> action is Skip,
        action is Stop <==> decoded is Fatal,
        action !is Fail,
{
}

/// A live stream is announced once, with its first audible chunk; every audible
/// chunk is played, and no empty one.
pub proof fn law_a_live_stream_is_announced_once(
    track_id: u32,
    first: &mut LiveDecoder,
    first_frames: usize,
    first_action: ChunkAction,
    second: &mut LiveDecoder,
    second_frames: usize,
    second_action: ChunkAction,
)
    requires
        call_ensures(LiveDecoder::new, (track_id,), *old(first)),
        call_ensures(LiveDecoder::on_chunk, (first, first_frames), first_action),
        *old(second) == *final(first),
        call_ensures(LiveDecoder::on_chunk, (second, second_frames), second_action),
    ensures
        first_action == ChunkAction::Skip <==> first_frames == 0,
        second_action == ChunkAction::Skip <==> second_frames == 0,
        first_frames > 0 ==> first_action == ChunkAction::AnnounceAndSend,
        first_frames > 0 && second_frames > 0 ==> second_action == ChunkAction::Send,
        first_frames == 0 && second_frames > 0 ==> second_action == ChunkAction::AnnounceAndSend,
        final(second).track_id == track_id,
{
}

// ---------------------------------------------------------------------------
// Processing.

/// A processor is run exactly where one is named and, for an external one,
/// where it is there with its preset; everything else means no processing.
pub proof fn law_a_processor_is_chosen_by_name(
    cfg: AudioProcessingConfig,
    choice: ProcessorChoice,
)
    requires
        call_ensures(choose_processor, (&cfg,), choice),
    ensures
        choice is Nrj <==> cfg.method@ == "nrj"@,
        choice is StereoTool <==> cfg.method@ == "stereo_tool"@ && cfg.stereo_tool_binary is Some
            && cfg.stereo_tool_preset_path is Some,
        choice is Incomplete <==> cfg.method@ == "stereo_tool"@ && (cfg.stereo_tool_binary is None
            || cfg.stereo_tool_preset_path is None),
        choice is NoProcessing <==> cfg.method@ == "none"@,
        choice is StereoTool ==> choice->binary@ == cfg.stereo_tool_binary->Some_0@
            && choice->preset@ == cfg.stereo_tool_preset_path->Some_0@ && choice->license_key
            == cfg.stereo_tool_license_key,
{
    reveal_strlit("nrj");
    reveal_strlit("stereo_tool");
    reveal_strlit("none");
    assert("nrj"@.len() == 3 && "stereo_tool"@.len() == 11 && "none"@.len() == 4);
}

/// The external processor reads from its input and writes to its output, with
/// its preset, and with its licence key where there is one.
pub proof fn law_the_processor_has_preset_and_key(
    preset: &str,
    key: Option<String>,
    args: Vec<String>,
)
    requires
        call_ensures(stereo_tool_args, (preset, &key), args),
    ensures
        crate::laws::outputs::has_option(args@, "-s"@, preset@),
        key is Some && key->Some_0@.len() > 0 ==> crate::laws::outputs::has_option(
            args@,
            "-k"@,
            key->Some_0@,
        ),
        key is None || key->Some_0@.len() == 0 ==> args@.len() == 5,
        crate::laws::outputs::has_option(args@, "-"@, "-"@),
{
    let flags = crate::text::texts(args@);
    assert(flags.len() == args@.len());
    assert(args@[1]@ == flags[1] && args@[2]@ == flags[2]);
    assert(args@[3]@ == flags[3] && args@[4]@ == flags[4]);
    if key is Some && key->Some_0@.len() > 0 {
        assert(args@[5]@ == flags[5] && args@[6]@ == flags[6]);
    }
}

/// Samples travel as four bytes each, the lowest first.
pub proof fn law_bytes_go_lowest_first(samples: &[u32], bytes: Vec<u8>, i: int)
    requires
        call_ensures(samples_to_le_bytes, (samples,), bytes),
        0 <= i < samples@.len(),
    ensures
        bytes@.len() == 4 * samples@.len(),
        bytes@[4 * i] + 0x100 * bytes@[4 * i + 1] + 0x1_0000 * bytes@[4 * i + 2] + 0x100_0000
            * bytes@[4 * i + 3] == samples@[i],
{
    let x = samples@[i];
    assert(bytes@[4 * i] == crate::audio_processing::byte_at(x, 0));
    assert(bytes@[4 * i + 1] == crate::audio_processing::byte_at(x, 1));
    assert(bytes@[4 * i + 2] == crate::audio_processing::byte_at(x, 2));
    assert(bytes@[4 * i + 3] == crate::audio_processing::byte_at(x, 3));
    assert(x % 256 + 0x100 * ((x / 0x100) % 256) + 0x1_0000 * ((x / 0x1_0000) % 256) + 0x100_0000
        * (x / 0x100_0000) == x);
}

/// What a processor hands back unchanged comes back as it was.
pub proof fn law_samples_survive_the_journey(
    samples: &[u32],
    bytes: Vec<u8>,
    back: &[u8],
    out: &mut Vec<u32>,
)
    requires
        call_ensures(samples_to_le_bytes, (samples,), bytes),
        back@ == bytes@,
        call_ensures(le_bytes_into_samples, (back, out), ()),
    ensures
        final(out)@ == samples@,
{
    crate::audio_processing::law_bytes_give_the_samples_back(samples@);
}

/// A window keeps the latest values, in order, and as many as it may; only a
/// full one gives a value up, and that is its oldest.
pub proof fn law_a_window_keeps_the_latest<T>(
    window: &mut SlidingWindow<T>,
    value: T,
    evicted: Option<T>,
)
    requires
        old(window)@.len() <= old(window).limit(),
        call_ensures(SlidingWindow::<T>::push, (window, value), evicted),
    ensures
        evicted is Some <==> old(window)@.len() == old(window).limit(),
        old(window)@.len() > 0 && evicted is Some ==> evicted->Some_0 == old(window)@[0],
        old(window).limit() > 0 ==> final(window)@.len() > 0 && final(window)@.last() == value,
        evicted is None ==> final(window)@ == old(window)@.push(value),
        evicted is Some ==> old(window)@.push(value) == seq![evicted->Some_0]
            + final(window)@,
        final(window).limit() == old(window).limit(),
{
    if evicted is Some {
        assert(old(window)@.push(value) =~= seq![evicted->Some_0] + final(window)@);
    }
}

/// A window starts empty, and counts what it holds.
pub proof fn law_a_window_counts_what_it_holds<T>(
    capacity: usize,
    fresh: SlidingWindow<T>,
    window: SlidingWindow<T>,
    n: usize,
)
    requires
        call_ensures(SlidingWindow::<T>::new, (capacity,), fresh),
        call_ensures(SlidingWindow::<T>::len, (&window,), n),
    ensures
        fresh@.len() == 0,
        fresh.limit() == capacity,
        n == window@.len(),
{
}

/// Audio in the engine's own format is stereo at 44.1 kHz, and is emitted a
/// tenth of a second at a time.
pub proof fn law_the_engine_has_one_format<S, N>(samples: Vec<S>, track: DecodedTrack<S, N>)
    requires
        call_ensures(DecodedTrack::<S, N>::in_pipeline_format, (samples,), track),
    ensures
        track.samples == samples,
        track.sample_rate == 44100,
        track.channels == 2,
        track.replaygain_track_gain_db is None,
        10 * crate::pipeline::EMIT_CHUNK_FRAMES == track.sample_rate,
{
}

/// Failures name the file and the error.
pub proof fn law_decoding_failures_name_the_file(
    file: FileDecoder,
    e: String,
    reading: PacketAction,
    r: Result<(u32, usize), String>,
    decoding: &mut FileDecoder,
    action: DecodeAction,
)
    requires
        call_ensures(FileDecoder::on_packet, (&file, PacketRead::Failed(e)), reading),
        call_ensures(FileDecoder::finish, (&file,), r),
        call_ensures(FileDecoder::on_decoded, (decoding, PacketDecode::Fatal(e)), action),
    ensures
        reading is Fail && reading->Fail_0@ == "error reading packet from "@ + file.path@ + ": "@
            + e@,
        r is Err ==> r->Err_0@ == "no audio frames decoded from "@ + file.path@,
        action is Fail && action->Fail_0@ == "fatal decode error in "@ + old(decoding).path@ + ": "@
            + e@,
{
}

} // verus!
