//! Segmented HLS output on disk: the encoder's arguments, the master playlist,
//! and what each event on a rendition means.

use vstd::prelude::*;

use crate::config::{HlsConfig, HlsStreamConfig};
use crate::output::{input_args, kilobits};
use crate::text::{concat2, decimal_of, push_decimal, push_string, push_text};

verus! {

broadcast use vstd::string::group_string_axioms;

/// Seconds between the end of one encoder and the start of the next.
pub const RECONNECT_BACKOFF_SECS: u64 = 5;

/// The codec of every rendition in the master playlist: AAC-LC, which is what
/// they are encoded as.
pub const HLS_AAC_CODEC_STRING: &'static str = "mp4a.40.2";

/// The file of a rendition: the directory, a slash, its name and an ending.
pub open spec fn rendition_file(base_dir: Seq<char>, name: Seq<char>, ending: Seq<char>) -> Seq<char> {
    base_dir + "/"@ + name + ending
}

/// The file of a rendition.
fn file_of(base_dir: &str, name: &str, ending: &str) -> (path: String)
    ensures
        path@ == rendition_file(base_dir@, name@, ending@),
{
    let mut path = concat2(base_dir, "/");
    path.append(name);
    path.append(ending);
    path
}

/// All arguments of the encoder of a rendition. `segment_time` is the length
/// of a segment in seconds, as text.
pub open spec fn hls_flags<N>(
    name: Seq<char>,
    bitrate_kbps: nat,
    hls: HlsConfig<N>,
    segment_time: Seq<char>,
    sample_rate: nat,
    channels: nat,
) -> Seq<Seq<char>> {
    crate::output::input_flags(sample_rate, channels) + seq![
        "-c:a"@,
        "aac"@,
        "-b:a"@,
        crate::output::kilobits_text(bitrate_kbps),
        "-f"@,
        "hls"@,
        "-hls_time"@,
        segment_time,
        "-hls_list_size"@,
        crate::text::decimal(hls.segments_in_playlist as nat),
        "-hls_delete_threshold"@,
        crate::text::decimal(hls.segments_overhead as nat),
        "-hls_flags"@,
        "delete_segments"@,
        "-hls_segment_filename"@,
        rendition_file(hls.base_dir@, name, "_%d.ts"@),
        rendition_file(hls.base_dir@, name, ".m3u8"@),
    ]
}

/// All arguments of the encoder of a rendition, given the length of a segment
/// as text.
pub fn hls_args_with<N>(
    name: &str,
    bitrate_kbps: u32,
    hls: &HlsConfig<N>,
    segment_time: &str,
    sample_rate: u32,
    channels: u16,
) -> (args: Vec<String>)
    ensures
        crate::text::texts(args@) == hls_flags(
            name@,
            bitrate_kbps as nat,
            *hls,
            segment_time@,
            sample_rate as nat,
            channels as nat,
        ),
{
    let mut args = input_args(sample_rate, channels);
    push_text(&mut args, "-c:a");
    push_text(&mut args, "aac");
    push_text(&mut args, "-b:a");
    push_string(&mut args, kilobits(bitrate_kbps));
    push_text(&mut args, "-f");
    push_text(&mut args, "hls");
    push_text(&mut args, "-hls_time");
    push_text(&mut args, segment_time);
    push_text(&mut args, "-hls_list_size");
    push_string(&mut args, decimal_of(hls.segments_in_playlist as u64));
    push_text(&mut args, "-hls_delete_threshold");
    push_string(&mut args, decimal_of(hls.segments_overhead as u64));
    push_text(&mut args, "-hls_flags");
    push_text(&mut args, "delete_segments");
    push_text(&mut args, "-hls_segment_filename");
    push_string(&mut args, file_of(hls.base_dir.as_str(), name, "_%d.ts"));
    push_string(&mut args, file_of(hls.base_dir.as_str(), name, ".m3u8"));
    assert(crate::text::texts(args@) =~= hls_flags(
        name@,
        bitrate_kbps as nat,
        *hls,
        segment_time@,
        sample_rate as nat,
        channels as nat,
    ));
    args
}

/// All arguments of the encoder of a rendition. The length of a segment is
/// written as its number type shows it.
pub fn hls_ffmpeg_args<N: core::fmt::Display>(
    name: &str,
    bitrate_kbps: u32,
    hls: &HlsConfig<N>,
    sample_rate: u32,
    channels: u16,
) -> (args: Vec<String>)
    ensures
        exists|shown: String|
            #[trigger] vstd::string::to_string_from_display_ensures(&hls.segment_secs, shown)
                && crate::text::texts(args@) == hls_flags(
                name@,
                bitrate_kbps as nat,
                *hls,
                shown@,
                sample_rate as nat,
                channels as nat,
            ),
{
    let shown = hls.segment_secs.to_string();
    hls_args_with(name, bitrate_kbps, hls, shown.as_str(), sample_rate, channels)
}

/// The lines of one rendition in the master playlist.
pub open spec fn playlist_entry(name: Seq<char>, bitrate_kbps: nat) -> Seq<char> {
    "#EXT-X-STREAM-INF:BANDWIDTH="@ + crate::text::decimal(bitrate_kbps * 1000) + ",CODECS=\""@
        + HLS_AAC_CODEC_STRING@ + "\"\n"@ + name + ".m3u8\n"@
}

/// The entries of the first `n` renditions.
pub open spec fn playlist_entries(streams: Seq<HlsStreamConfig>, n: int) -> Seq<char>
    decreases n,
{
    if n <= 0 {
        Seq::empty()
    } else {
        playlist_entries(streams, n - 1) + playlist_entry(
            streams[n - 1].name@,
            streams[n - 1].bitrate as nat,
        )
    }
}

/// The master playlist: a header, and an entry per rendition.
pub open spec fn playlist_text(streams: Seq<HlsStreamConfig>) -> Seq<char> {
    "#EXTM3U\n#EXT-X-VERSION:3\n"@ + playlist_entries(streams, streams.len() as int)
}

/// The master playlist that refers to every rendition by its bandwidth;
/// without renditions there is none to write.
pub fn master_playlist(streams: &[HlsStreamConfig]) -> (playlist: Option<String>)
    ensures
        match playlist {
            Some(text) => streams@.len() > 0 && text@ == playlist_text(streams@),
            None => streams@.len() == 0,
        },
{
    if streams.len() == 0 {
        return None;
    }
    let mut text = "#EXTM3U\n#EXT-X-VERSION:3\n".to_owned();
    let ghost header = text@;
    let mut i: usize = 0;
    assert(header + playlist_entries(streams@, 0) =~= header);
    while i < streams.len()
        invariant
            i <= streams@.len(),
            text@ == header + playlist_entries(streams@, i as int),
        decreases streams@.len() - i,
    {
        text.append("#EXT-X-STREAM-INF:BANDWIDTH=");
        push_decimal(&mut text, streams[i].bitrate as u64 * 1000);
        text.append(",CODECS=\"");
        text.append(HLS_AAC_CODEC_STRING);
        text.append("\"\n");
        text.append(streams[i].name.as_str());
        text.append(".m3u8\n");
        i += 1;
        assert(text@ =~= header + playlist_entries(streams@, i as int));
    }
    Some(text)
}

/// Where the master playlist is written.
pub fn master_playlist_path<N>(hls: &HlsConfig<N>) -> (path: String)
    ensures
        path@ == hls.base_dir@ + "/live.m3u8"@,
{
    concat2(hls.base_dir.as_str(), "/live.m3u8")
}

/// Something that happens to a rendition.
#[derive(Debug)]
pub enum HlsEvent {
    /// The pipeline produced samples.
    Samples,
    /// Samples could not be handed to the encoder.
    WriteFailed(String),
    /// Samples were lost because this rendition was too slow.
    Lagged,
    /// The pipeline is gone.
    TapClosed,
}

/// What is to be done about it.
#[derive(Debug)]
pub enum HlsAction {
    /// Hand the samples to the encoder.
    WriteSamples,
    /// Nothing: wait for the next event.
    Continue,
    /// Let the encoder finish, and end.
    CloseAndFinish,
    /// Stop the encoder, and end with this message.
    Fail(String),
}

/// Decides what an event means for a rendition.
pub fn on_hls_event(event: HlsEvent) -> (action: HlsAction)
    ensures
        match event {
            HlsEvent::Samples => action is WriteSamples,
            HlsEvent::WriteFailed(e) => action matches HlsAction::Fail(m) && m@
                == "failed writing to ffmpeg stdin: "@ + e@,
            HlsEvent::Lagged => action is Continue,
            HlsEvent::TapClosed => action is CloseAndFinish,
        },
{
    match event {
        HlsEvent::Samples => HlsAction::WriteSamples,
        HlsEvent::WriteFailed(e) => HlsAction::Fail(
            concat2("failed writing to ffmpeg stdin: ", e.as_str()),
        ),
        HlsEvent::Lagged => HlsAction::Continue,
        HlsEvent::TapClosed => HlsAction::CloseAndFinish,
    }
}

} // verus!
