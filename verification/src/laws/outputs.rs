//! What is sent to servers, encoders and disk.

use vstd::prelude::*;

use crate::config::{EngineConfig, HlsConfig, HlsStreamConfig};
use crate::hls::{
    hls_args_with, master_playlist, master_playlist_path, on_hls_event, HlsAction, HlsEvent,
};
use crate::output::{
    after_flush, build_targets, check_status_line, ffmpeg_args, is_end_of_headers,
    is_success_status_line, target_address, updinfo_query, updinfo_url, write_source_request,
    FlushEvent, IcecastTarget, NowPlaying, OutputFormat, OutputSession, StreamAction, StreamEvent,
};

verus! {

broadcast use vstd::string::group_string_axioms;

// ---------------------------------------------------------------------------
// Formats.

proof fn lemma_format_names()
    ensures
        "mp3"@ != "aac"@,
        "mp3"@ != "ogg"@,
        "mp3"@ != "opus"@,
        "mp3"@ != "flac"@,
        "aac"@ != "ogg"@,
        "aac"@ != "opus"@,
        "aac"@ != "flac"@,
        "ogg"@ != "opus"@,
        "ogg"@ != "flac"@,
        "opus"@ != "flac"@,
{
    reveal_strlit("mp3");
    reveal_strlit("aac");
    reveal_strlit("ogg");
    reveal_strlit("opus");
    reveal_strlit("flac");
    assert("mp3"@.len() == 3 && "mp3"@[0] == 'm');
    assert("aac"@.len() == 3 && "aac"@[0] == 'a');
    assert("ogg"@.len() == 3 && "ogg"@[0] == 'o');
    assert("opus"@.len() == 4 && "opus"@[0] == 'o');
    assert("flac"@.len() == 4 && "flac"@[0] == 'f');
}

/// A format is known by its name alone, in any letter case, and by no other
/// name.
pub proof fn law_formats_are_known_by_name(name: &str, format: Option<OutputFormat>)
    requires
        call_ensures(OutputFormat::parse, (name,), format),
    ensures
        ({
            let low = crate::text::lower(name@);
            &&& low == "mp3"@ <==> format == Some(OutputFormat::Mp3)
            &&& low == "aac"@ <==> format == Some(OutputFormat::Aac)
            &&& low == "ogg"@ <==> format == Some(OutputFormat::Ogg)
            &&& low == "opus"@ <==> format == Some(OutputFormat::Opus)
            &&& low == "flac"@ <==> format == Some(OutputFormat::Flac)
        }),
{
    lemma_format_names();
}

/// Letter case makes no difference to the name of a format.
pub proof fn law_format_names_have_no_case(
    x: &str,
    y: &str,
    x_format: Option<OutputFormat>,
    y_format: Option<OutputFormat>,
)
    requires
        call_ensures(OutputFormat::parse, (x,), x_format),
        call_ensures(OutputFormat::parse, (y,), y_format),
        x@.len() == y@.len(),
        forall|i: int|
            0 <= i < x@.len() ==> #[trigger] crate::text::lower_char(x@[i])
                == crate::text::lower_char(y@[i]),
    ensures
        x_format == y_format,
{
    assert(crate::text::lower(x@) =~= crate::text::lower(y@)) by {
        assert forall|i: int| 0 <= i < x@.len() implies crate::text::lower(x@)[i]
            == crate::text::lower(y@)[i] by {
            assert(crate::text::lower_char(x@[i]) == crate::text::lower_char(y@[i]));
        }
    }
}

/// The container that is written is named as the format is, but for AAC, which
/// travels in ADTS, and Opus, which travels in Ogg; titles travel inside of Ogg
/// and nowhere else; and what is announced fits what is written.
pub proof fn law_containers_fit_their_formats(
    name: &str,
    format: OutputFormat,
    container: &'static str,
    content_type: &'static str,
    inband: bool,
)
    requires
        call_ensures(OutputFormat::parse, (name,), Some(format)),
        call_ensures(OutputFormat::container, (format,), container),
        call_ensures(OutputFormat::content_type, (format,), content_type),
        call_ensures(OutputFormat::inband_metadata, (format,), inband),
    ensures
        format != OutputFormat::Aac && format != OutputFormat::Opus ==> container@
            == crate::text::lower(name@),
        format == OutputFormat::Aac ==> container@ == "adts"@,
        format == OutputFormat::Opus ==> container@ == "ogg"@,
        inband <==> container@ == "ogg"@,
        container@ == "ogg"@ <==> content_type@ == "application/ogg"@,
        format == OutputFormat::Mp3 ==> content_type@ == "audio/mpeg"@,
        format == OutputFormat::Aac || format == OutputFormat::Flac ==> content_type@ == "audio/"@
            + crate::text::lower(name@),
{
    reveal_strlit("mp3");
    reveal_strlit("adts");
    reveal_strlit("ogg");
    reveal_strlit("aac");
    reveal_strlit("flac");
    reveal_strlit("opus");
    reveal_strlit("audio/");
    reveal_strlit("audio/mpeg");
    reveal_strlit("audio/aac");
    reveal_strlit("audio/flac");
    reveal_strlit("application/ogg");
    lemma_format_names();
    assert("audio/aac"@ =~= "audio/"@ + "aac"@);
    assert("audio/flac"@ =~= "audio/"@ + "flac"@);
    assert("mp3"@[0] != "ogg"@[0]);
    assert("adts"@[0] != "ogg"@[0]);
    assert("flac"@[0] != "ogg"@[0]);
    assert("application/ogg"@[1] != "audio/mpeg"@[1]);
    assert("application/ogg"@[1] != "audio/aac"@[1]);
    assert("application/ogg"@[1] != "audio/flac"@[1]);
}

// ---------------------------------------------------------------------------
// Encoders.

/// Whether `flag`, directly followed by `value`, is among the arguments.
pub open spec fn has_option(args: Seq<String>, flag: Seq<char>, value: Seq<char>) -> bool {
    exists|i: int| 0 <= i && i + 1 < args.len() && (#[trigger] args[i])@ == flag && args[i + 1]@
        == value
}

/// Whether `flag` is among the arguments.
pub open spec fn has_argument(args: Seq<String>, flag: Seq<char>) -> bool {
    exists|i: int| 0 <= i < args.len() && (#[trigger] args[i])@ == flag
}

/// The views of two lists of arguments agree item by item.
proof fn lemma_argument(args: Seq<String>, i: int)
    requires
        0 <= i < args.len(),
    ensures
        crate::text::texts(args)[i] == args[i]@,
{
}

proof fn lemma_option_at(args: Seq<String>, i: int)
    requires
        0 <= i,
        i + 1 < args.len(),
    ensures
        has_option(args, crate::text::texts(args)[i], crate::text::texts(args)[i + 1]),
{
    assert(args[i]@ == crate::text::texts(args)[i]);
    assert(args[i + 1]@ == crate::text::texts(args)[i + 1]);
}

/// The configured bit rate reaches the codec: for every format but FLAC, it is
/// the value of `-b:a`, in kilobits; FLAC is given none. The encoder is the one
/// of the format.
pub proof fn law_the_codec_has_its_bit_rate(
    format: OutputFormat,
    bitrate_kbps: u32,
    args: Vec<String>,
)
    requires
        call_ensures(OutputFormat::codec_args, (format, bitrate_kbps), args),
    ensures
        format != OutputFormat::Flac ==> has_option(
            args@,
            "-b:a"@,
            crate::text::decimal(bitrate_kbps as nat) + "k"@,
        ),
        format == OutputFormat::Flac ==> !has_argument(args@, "-b:a"@),
        format == OutputFormat::Mp3 ==> has_option(args@, "-c:a"@, "libmp3lame"@),
        format == OutputFormat::Aac ==> has_option(args@, "-c:a"@, "aac"@),
        format == OutputFormat::Ogg ==> has_option(args@, "-c:a"@, "libvorbis"@),
        format == OutputFormat::Opus ==> has_option(args@, "-c:a"@, "libopus"@),
        format == OutputFormat::Flac ==> has_option(args@, "-c:a"@, "flac"@),
{
    assert(crate::text::texts(args@).len() == args@.len());
    lemma_option_at(args@, 0);
    if format != OutputFormat::Flac {
        lemma_option_at(args@, 2);
    } else {
        reveal_strlit("-b:a");
        reveal_strlit("-c:a");
        reveal_strlit("flac");
        assert("-b:a"@[1] == 'b' && "-c:a"@[1] == 'c' && "flac"@[1] == 'l');
        assert forall|i: int| 0 <= i < args@.len() implies (#[trigger] args@[i])@ != "-b:a"@ by {
            lemma_argument(args@, i);
        }
    }
}

/// Two bit rates give two different encoders, for every format but FLAC.
pub proof fn law_bit_rates_make_a_difference(
    format: OutputFormat,
    x_kbps: u32,
    x: Vec<String>,
    y_kbps: u32,
    y: Vec<String>,
)
    requires
        format != OutputFormat::Flac,
        x_kbps != y_kbps,
        call_ensures(OutputFormat::codec_args, (format, x_kbps), x),
        call_ensures(OutputFormat::codec_args, (format, y_kbps), y),
    ensures
        crate::text::texts(x@) != crate::text::texts(y@),
{
    reveal_strlit("k");
    let p = crate::text::decimal(x_kbps as nat);
    let q = crate::text::decimal(y_kbps as nat);
    crate::text::lemma_decimal_injective(x_kbps as nat, y_kbps as nat);
    if p + "k"@ == q + "k"@ {
        assert((p + "k"@).drop_last() =~= p);
        assert((q + "k"@).drop_last() =~= q);
    }
    assert(crate::text::texts(x@)[3] == p + "k"@);
    assert(crate::text::texts(y@)[3] == q + "k"@);
}

/// An encoder is told all that it has to know: what its input is, the bit
/// rate, the song, the number of its link where the container is Ogg, and the
/// container; it reads from the first pipe and writes to the second.
pub proof fn law_an_encoder_is_told_everything(
    format: OutputFormat,
    bitrate_kbps: u32,
    sample_rate: u32,
    channels: u16,
    song: NowPlaying,
    serial: u32,
    args: Vec<String>,
    container: &'static str,
)
    requires
        call_ensures(
            ffmpeg_args,
            (format, bitrate_kbps, sample_rate, channels, &song, serial),
            args,
        ),
        call_ensures(OutputFormat::container, (format,), container),
    ensures
        has_option(args@, "-f"@, "f32le"@),
        has_option(args@, "-ar"@, crate::text::decimal(sample_rate as nat)),
        has_option(args@, "-ac"@, crate::text::decimal(channels as nat)),
        has_option(args@, "-i"@, "pipe:0"@),
        format != OutputFormat::Flac ==> has_option(
            args@,
            "-b:a"@,
            crate::text::decimal(bitrate_kbps as nat) + "k"@,
        ),
        song.title is Some ==> has_option(args@, "-metadata"@, "title="@ + song.title->Some_0@),
        song.artist is Some ==> has_option(args@, "-metadata"@, "artist="@ + song.artist->Some_0@),
        container@ == "ogg"@ ==> has_option(
            args@,
            "-serial_offset"@,
            crate::text::decimal(serial as nat),
        ),
        args@.len() == 16 + (if format == OutputFormat::Flac {
            0int
        } else {
            2
        }) + (if song.title is Some {
            2int
        } else {
            0
        }) + (if song.artist is Some {
            2int
        } else {
            0
        }) + (if container@ == "ogg"@ {
            2int
        } else {
            0
        }),
        args@[args@.len() - 3]@ == "-f"@,
        args@[args@.len() - 2]@ == container@,
        args@.last()@ == "pipe:1"@,
{
    let flags = crate::text::texts(args@);
    assert(flags.len() == args@.len());
    let input = crate::output::input_flags(sample_rate as nat, channels as nat);
    let codec = crate::output::codec_flags(format, bitrate_kbps as nat);
    let title = crate::output::metadata_flags("title="@, song@.title);
    let artist = crate::output::metadata_flags("artist="@, song@.artist);
    reveal_strlit("mp3");
    reveal_strlit("adts");
    reveal_strlit("ogg");
    reveal_strlit("flac");
    assert("mp3"@[0] != "ogg"@[0] && "adts"@[0] != "ogg"@[0] && "flac"@[0] != "ogg"@[0]);
    lemma_option_at(args@, 3);
    lemma_option_at(args@, 5);
    lemma_option_at(args@, 7);
    lemma_option_at(args@, 9);
    assert(flags[3] == input[3] && flags[4] == input[4]);
    assert(flags[5] == input[5] && flags[6] == input[6]);
    assert(flags[7] == input[7] && flags[8] == input[8]);
    assert(flags[9] == input[9] && flags[10] == input[10]);
    if format != OutputFormat::Flac {
        lemma_option_at(args@, 13);
        assert(flags[13] == codec[2] && flags[14] == codec[3]);
    }
    let at_title = (input.len() + codec.len()) as int;
    let at_artist = (at_title + title.len()) as int;
    let at_serial = (at_artist + artist.len()) as int;
    if song.title is Some {
        lemma_option_at(args@, at_title);
        assert(flags[at_title] == title[0] && flags[at_title + 1] == title[1]);
    }
    if song.artist is Some {
        lemma_option_at(args@, at_artist);
        assert(flags[at_artist] == artist[0] && flags[at_artist + 1] == artist[1]);
    }
    if container@ == "ogg"@ {
        lemma_option_at(args@, at_serial);
        assert(flags[at_serial] == "-serial_offset"@);
        assert(flags[at_serial + 1] == crate::text::decimal(serial as nat));
    }
    let n = flags.len() as int;
    lemma_argument(args@, n - 3);
    lemma_argument(args@, n - 2);
    lemma_argument(args@, n - 1);
    assert(flags[n - 3] == "-f"@);
    assert(flags[n - 2] == container@);
    assert(flags[n - 1] == "pipe:1"@);
}

/// The next encoder of a connection is that of the target, for the song that
/// plays, and its number is one up from the last; nothing else changes.
pub proof fn law_the_next_encoder_is_the_targets_own(
    session: &mut OutputSession,
    target: IcecastTarget,
    sample_rate: u32,
    channels: u16,
    args: Vec<String>,
    same: Vec<String>,
)
    requires
        call_ensures(OutputSession::next_encoder, (session, &target, sample_rate, channels), args),
        call_ensures(
            ffmpeg_args,
            (
                target.format,
                target.bitrate,
                sample_rate,
                channels,
                &old(session).song,
                old(session).generation,
            ),
            same,
        ),
    ensures
        crate::text::texts(args@) == crate::text::texts(same@),
        old(session).generation < u32::MAX ==> final(session).generation == old(session).generation + 1,
        old(session).generation == u32::MAX ==> final(session).generation == 0,
        final(session).song == old(session).song,
        final(session).watch_alive == old(session).watch_alive,
{
}

// ---------------------------------------------------------------------------
// The source request.

/// Whether `line` stands between the whole lines `before` and `after`.
pub open spec fn is_line_between(
    text: Seq<char>,
    before: Seq<char>,
    line: Seq<char>,
    after: Seq<char>,
) -> bool {
    &&& text == before + line + seq!['\r', '\n'] + after
    &&& before.len() == 0 || before.last() == '\n'
}

/// Whether `line` is one of the lines of `text`, each with its line end.
pub open spec fn has_line(text: Seq<char>, line: Seq<char>) -> bool {
    exists|before: Seq<char>, after: Seq<char>|
        #[trigger] is_line_between(text, before, line, after)
}

proof fn lemma_crlf_end(lines: Seq<Seq<char>>)
    ensures
        crate::harbor::crlf_lines(lines).len() == 0 || crate::harbor::crlf_lines(lines).last()
            == '\n',
    decreases lines.len(),
{
    if lines.len() > 0 {
        lemma_crlf_end(lines.skip(1));
    }
}

proof fn lemma_crlf_split(lines: Seq<Seq<char>>, k: int)
    requires
        0 <= k < lines.len(),
    ensures
        crate::harbor::crlf_lines(lines) == crate::harbor::crlf_lines(lines.take(k)) + lines[k]
            + seq!['\r', '\n'] + crate::harbor::crlf_lines(lines.skip(k + 1)),
    decreases k,
{
    let all = crate::harbor::crlf_lines(lines);
    if k == 0 {
        assert(lines.take(0) =~= Seq::<Seq<char>>::empty());
        assert(all =~= crate::harbor::crlf_lines(lines.take(k)) + lines[k] + seq!['\r', '\n']
            + crate::harbor::crlf_lines(lines.skip(k + 1)));
    } else {
        let rest = lines.skip(1);
        lemma_crlf_split(rest, k - 1);
        assert(lines.take(k).skip(1) =~= rest.take(k - 1));
        assert(rest.skip(k) =~= lines.skip(k + 1));
        assert(all =~= crate::harbor::crlf_lines(lines.take(k)) + lines[k] + seq!['\r', '\n']
            + crate::harbor::crlf_lines(lines.skip(k + 1)));
    }
}

proof fn lemma_has_line(text: Seq<char>, lines: Seq<Seq<char>>, k: int)
    requires
        0 <= k < lines.len(),
        text == crate::harbor::crlf_lines(lines) + seq!['\r', '\n'],
    ensures
        has_line(text, lines[k]),
{
    lemma_crlf_split(lines, k);
    lemma_crlf_end(lines.take(k));
    let before = crate::harbor::crlf_lines(lines.take(k));
    let after = crate::harbor::crlf_lines(lines.skip(k + 1)) + seq!['\r', '\n'];
    assert(text =~= before + lines[k] + seq!['\r', '\n'] + after);
    assert(is_line_between(text, before, lines[k], after));
}

/// A source request asks for the target's mount on its first line, brings the
/// credentials, announces the content type, says whether the stream is public,
/// names the station where it has a name, and ends with a blank line.
pub proof fn law_a_source_request_says_it_all(
    target: IcecastTarget,
    encoded: &str,
    request: String,
    content_type: &'static str,
)
    requires
        call_ensures(write_source_request, (&target, encoded), request),
        call_ensures(OutputFormat::content_type, (target.format,), content_type),
    ensures
        request@.take(("SOURCE "@ + target.mount@ + " ICE/1.0"@).len() as int) == "SOURCE "@
            + target.mount@ + " ICE/1.0"@,
        has_line(request@, "SOURCE "@ + target.mount@ + " ICE/1.0"@),
        has_line(request@, "Authorization: Basic "@ + encoded@),
        has_line(request@, "Content-Type: "@ + content_type@),
        has_line(request@, "User-Agent: azuracast-engine"@),
        target.is_public ==> has_line(request@, "ice-public: 1"@),
        !target.is_public ==> has_line(request@, "ice-public: 0"@),
        crate::text::flattened(target.stream_name@).len() > 0 ==> has_line(
            request@,
            "ice-name: "@ + crate::text::flattened(target.stream_name@),
        ),
        request@.len() >= 2,
        request@.skip(request@.len() - 2) == seq!['\r', '\n'],
{
    reveal_strlit("ice-public: ");
    reveal_strlit("ice-public: 0");
    reveal_strlit("ice-public: 1");
    reveal_strlit("0");
    reveal_strlit("1");
    let lines = seq![crate::output::request_line(target@)] + crate::output::request_headers(
        target@,
        encoded@,
    );
    assert(request@ == crate::harbor::crlf_lines(lines) + seq!['\r', '\n']);
    lemma_has_line(request@, lines, 0);
    lemma_has_line(request@, lines, 1);
    lemma_has_line(request@, lines, 2);
    lemma_has_line(request@, lines, 3);
    lemma_has_line(request@, lines, 4);
    assert("ice-public: "@ + "1"@ =~= "ice-public: 1"@);
    assert("ice-public: "@ + "0"@ =~= "ice-public: 0"@);
    if crate::text::flattened(target.stream_name@).len() > 0 {
        lemma_has_line(request@, lines, 5);
    }
    assert(lines[0] == "SOURCE "@ + target.mount@ + " ICE/1.0"@);
    assert(request@.take(lines[0].len() as int) =~= lines[0]) by {
        assert(crate::harbor::crlf_lines(lines) == lines[0] + seq!['\r', '\n']
            + crate::harbor::crlf_lines(lines.skip(1)));
    }
    assert(request@.skip(request@.len() - 2) =~= seq!['\r', '\n']);
}

/// The address of a target is its host and its port.
pub proof fn law_a_target_is_addressed_by_host_and_port(
    target: IcecastTarget,
    address: String,
    url: String,
)
    requires
        call_ensures(target_address, (&target,), address),
        call_ensures(updinfo_url, (&target,), url),
    ensures
        address@ == target.host@ + seq![':'] + crate::text::decimal(target.port as nat),
        !target.host@.contains(':') ==> url@ == "http://"@ + address@ + "/admin/metadata"@,
        target.host@.contains(':') ==> url@ == "http://["@ + target.host@ + "]:"@
            + crate::text::decimal(target.port as nat) + "/admin/metadata"@,
{
    reveal_strlit(":");
    reveal_strlit("[");
    reveal_strlit("]");
    reveal_strlit("]:");
    reveal_strlit("http://");
    reveal_strlit("http://[");
    assert(":"@ =~= seq![':']);
    assert("http://["@ =~= "http://"@ + "["@);
    assert("]:"@ =~= "]"@ + ":"@);
    if target.host@.contains(':') {
        assert(url@ =~= "http://["@ + target.host@ + "]:"@ + crate::text::decimal(
            target.port as nat,
        ) + "/admin/metadata"@);
    } else {
        assert(url@ =~= "http://"@ + address@ + "/admin/metadata"@);
    }
}

/// A metadata update names the target's mount and the song.
pub proof fn law_an_update_names_mount_and_song(
    target: IcecastTarget,
    song: &str,
    query: Vec<(String, String)>,
    i: int,
)
    requires
        call_ensures(updinfo_query, (&target, song), query),
        0 <= i < query@.len(),
    ensures
        query@.len() == 4,
        query@[i].0@ == "song"@ ==> query@[i].1@ == song@,
        query@[i].0@ == "mount"@ ==> query@[i].1@ == target.mount@,
        query@[i].0@ == "mode"@ ==> query@[i].1@ == "updinfo"@,
        query@[i].0@ == "charset"@ ==> query@[i].1@ == "UTF-8"@,
        exists|k: int| 0 <= k < query@.len() && (#[trigger] query@[k]).0@ == "song"@,
        exists|k: int| 0 <= k < query@.len() && (#[trigger] query@[k]).0@ == "mount"@,
        exists|k: int| 0 <= k < query@.len() && (#[trigger] query@[k]).0@ == "mode"@,
        exists|k: int| 0 <= k < query@.len() && (#[trigger] query@[k]).0@ == "charset"@,
{
    reveal_strlit("song");
    reveal_strlit("mount");
    reveal_strlit("mode");
    reveal_strlit("charset");
    assert("song"@.len() == 4 && "song"@[0] == 's');
    assert("mode"@.len() == 4 && "mode"@[0] == 'm');
    assert("mount"@.len() == 5);
    assert("charset"@.len() == 7);
    let all = crate::output::updinfo_query_texts(target.mount@, song@);
    assert((query@[0].0@, query@[0].1@) == all[0]);
    assert((query@[1].0@, query@[1].1@) == all[1]);
    assert((query@[2].0@, query@[2].1@) == all[2]);
    assert((query@[3].0@, query@[3].1@) == all[3]);
}

/// The headers of an answer end with a line of nothing but its line end, or
/// with the stream; no other line ends them.
pub proof fn law_a_blank_line_ends_the_headers(line: &str, ends: bool)
    requires
        call_ensures(is_end_of_headers, (line,), ends),
    ensures
        line@.len() == 0 ==> ends,
        line@.len() == 1 ==> ends == (line@[0] == '\n'),
        line@.len() == 2 ==> ends == (line@[0] == '\r' && line@[1] == '\n'),
        line@.len() > 2 ==> !ends,
{
    if line@.len() == 1 && line@[0] == '\n' {
        assert(line@ =~= seq!['\n']);
    }
    if line@.len() == 2 && line@[0] == '\r' && line@[1] == '\n' {
        assert(line@ =~= seq!['\r', '\n']);
    }
}

/// A source is accepted exactly where a word of the status line is `200`; it
/// is refused with the line as the reason.
pub proof fn law_only_200_accepts_a_source(
    target: IcecastTarget,
    line: &str,
    yes: bool,
    r: Result<(), String>,
    k: int,
)
    requires
        call_ensures(is_success_status_line, (line,), yes),
        call_ensures(check_status_line, (&target, line), r),
    ensures
        r is Ok <==> yes,
        0 <= k < crate::text::words(line@).len() && crate::text::words(line@)[k] == seq![
            '2',
            '0',
            '0',
        ] ==> yes,
        yes ==> exists|j: int|
            0 <= j < crate::text::words(line@).len() && #[trigger] crate::text::words(line@)[j]
                == seq!['2', '0', '0'],
{
    reveal_strlit("200");
    assert("200"@ =~= seq!['2', '0', '0']);
    if 0 <= k < crate::text::words(line@).len() && crate::text::words(line@)[k] == seq![
        '2',
        '0',
        '0',
    ] {
        assert(crate::text::words(line@).contains(crate::text::words(line@)[k]));
    }
}

// ---------------------------------------------------------------------------
// Targets.

proof fn lemma_mount_targets(
    icecast: crate::config::IcecastOutputConfig,
    mounts: Seq<crate::config::MountConfig>,
    n: int,
    station: Seq<char>,
    k: int,
)
    requires
        0 <= k < n <= mounts.len(),
    ensures
        crate::output::mount_target(icecast, mounts[k], k, station) is Some ==> exists|j: int|
            0 <= j < crate::output::mount_targets(icecast, mounts, n, station).len()
                && #[trigger] crate::output::mount_targets(icecast, mounts, n, station)[j]
                == crate::output::mount_target(icecast, mounts[k], k, station)->Some_0,
    decreases n,
{
    let all = crate::output::mount_targets(icecast, mounts, n, station);
    let front = crate::output::mount_targets(icecast, mounts, n - 1, station);
    if crate::output::mount_target(icecast, mounts[k], k, station) is Some {
        let t = crate::output::mount_target(icecast, mounts[k], k, station)->Some_0;
        if k == n - 1 {
            assert(all[front.len() as int] == t);
        } else {
            lemma_mount_targets(icecast, mounts, n - 1, station, k);
            let j = choose|j: int| 0 <= j < front.len() && #[trigger] front[j] == t;
            assert(all[j] == t);
        }
    }
}

proof fn lemma_mount_target_source(
    icecast: crate::config::IcecastOutputConfig,
    mounts: Seq<crate::config::MountConfig>,
    n: int,
    station: Seq<char>,
    j: int,
) -> (k: int)
    requires
        0 <= n <= mounts.len(),
        0 <= j < crate::output::mount_targets(icecast, mounts, n, station).len(),
    ensures
        0 <= k < n,
        crate::output::mount_target(icecast, mounts[k], k, station) == Some(
            crate::output::mount_targets(icecast, mounts, n, station)[j],
        ),
    decreases n,
{
    let front = crate::output::mount_targets(icecast, mounts, n - 1, station);
    if j < front.len() {
        lemma_mount_target_source(icecast, mounts, n - 1, station, j)
    } else {
        n - 1
    }
}

proof fn lemma_remote_targets(
    remotes: Seq<crate::config::RemoteConfig>,
    n: int,
    station: Seq<char>,
    k: int,
)
    requires
        0 <= k < n <= remotes.len(),
    ensures
        crate::output::remote_target(remotes[k], k, station) is Some ==> exists|j: int|
            0 <= j < crate::output::remote_targets(remotes, n, station).len()
                && #[trigger] crate::output::remote_targets(remotes, n, station)[j]
                == crate::output::remote_target(remotes[k], k, station)->Some_0,
    decreases n,
{
    let all = crate::output::remote_targets(remotes, n, station);
    let front = crate::output::remote_targets(remotes, n - 1, station);
    if crate::output::remote_target(remotes[k], k, station) is Some {
        let t = crate::output::remote_target(remotes[k], k, station)->Some_0;
        if k == n - 1 {
            assert(all[front.len() as int] == t);
        } else {
            lemma_remote_targets(remotes, n - 1, station, k);
            let j = choose|j: int| 0 <= j < front.len() && #[trigger] front[j] == t;
            assert(all[j] == t);
        }
    }
}

proof fn lemma_remote_target_source(
    remotes: Seq<crate::config::RemoteConfig>,
    n: int,
    station: Seq<char>,
    j: int,
) -> (k: int)
    requires
        0 <= n <= remotes.len(),
        0 <= j < crate::output::remote_targets(remotes, n, station).len(),
    ensures
        0 <= k < n,
        crate::output::remote_target(remotes[k], k, station) == Some(
            crate::output::remote_targets(remotes, n, station)[j],
        ),
    decreases n,
{
    let front = crate::output::remote_targets(remotes, n - 1, station);
    if j < front.len() {
        lemma_remote_target_source(remotes, n - 1, station, j)
    } else {
        n - 1
    }
}

/// Whether a target is that of the mount at place `k` of the configuration.
pub open spec fn is_of_mount<N>(
    target: IcecastTarget,
    cfg: EngineConfig<N>,
    k: int,
    format: OutputFormat,
) -> bool {
    &&& cfg.icecast_output is Some
    &&& 0 <= k < cfg.mounts@.len()
    &&& target.host@ == cfg.icecast_output->Some_0.host@
    &&& target.port == cfg.icecast_output->Some_0.port
    &&& target.username@ == "source"@
    &&& target.password@ == cfg.icecast_output->Some_0.source_password@
    &&& target.mount@ == cfg.mounts@[k].path@
    &&& target.format == format
    &&& target.bitrate == cfg.mounts@[k].bitrate
    &&& target.is_public == cfg.mounts@[k].is_public
    &&& target.stream_name@ == cfg.station.name@
}

/// Whether a target is that of the relay at place `k` of the configuration.
pub open spec fn is_of_remote<N>(
    target: IcecastTarget,
    cfg: EngineConfig<N>,
    k: int,
    format: OutputFormat,
) -> bool {
    &&& 0 <= k < cfg.remotes@.len()
    &&& target.host@ == cfg.remotes@[k].host@
    &&& target.port == cfg.remotes@[k].port
    &&& cfg.remotes@[k].username is Some ==> target.username@ == cfg.remotes@[k].username->Some_0@
    &&& cfg.remotes@[k].username is None ==> target.username@ == "source"@
    &&& target.password@ == cfg.remotes@[k].password@
    &&& target.mount@ == cfg.remotes@[k].mount@
    &&& target.format == format
    &&& target.bitrate == cfg.remotes@[k].bitrate
    &&& target.is_public == cfg.remotes@[k].is_public
    &&& target.stream_name@ == cfg.station.name@
}

/// Every mount with a known format is fed, if the station has a frontend of its
/// own, with that mount's settings.
pub proof fn law_every_mount_is_fed<N>(
    cfg: EngineConfig<N>,
    targets: Vec<IcecastTarget>,
    k: int,
    name: &str,
    format: OutputFormat,
) -> (j: int)
    requires
        call_ensures(build_targets::<N>, (&cfg,), targets),
        cfg.icecast_output is Some,
        0 <= k < cfg.mounts@.len(),
        name@ == cfg.mounts@[k].format@,
        call_ensures(OutputFormat::parse, (name,), Some(format)),
    ensures
        0 <= j < targets@.len(),
        is_of_mount(targets@[j], cfg, k, format),
{
    let icecast = cfg.icecast_output->Some_0;
    let n = cfg.mounts@.len() as int;
    let station = cfg.station.name@;
    lemma_mount_targets(icecast, cfg.mounts@, n, station, k);
    let all = crate::output::mount_targets(icecast, cfg.mounts@, n, station);
    let t = crate::output::mount_target(icecast, cfg.mounts@[k], k, station)->Some_0;
    let j = choose|j: int| 0 <= j < all.len() && #[trigger] all[j] == t;
    assert(crate::output::station_targets(cfg)[j] == t);
    assert(crate::output::target_views(targets@).len() == targets@.len());
    assert(crate::output::target_views(targets@)[j] == targets@[j]@);
    j
}

/// Every Icecast relay with a known format is fed, with that relay's settings,
/// whether the station has a frontend of its own or not.
pub proof fn law_every_relay_is_fed<N>(
    cfg: EngineConfig<N>,
    targets: Vec<IcecastTarget>,
    k: int,
    name: &str,
    format: OutputFormat,
) -> (j: int)
    requires
        call_ensures(build_targets::<N>, (&cfg,), targets),
        0 <= k < cfg.remotes@.len(),
        crate::text::lower(cfg.remotes@[k].protocol@) == "icecast"@,
        name@ == cfg.remotes@[k].format@,
        call_ensures(OutputFormat::parse, (name,), Some(format)),
    ensures
        0 <= j < targets@.len(),
        is_of_remote(targets@[j], cfg, k, format),
{
    let n = cfg.remotes@.len() as int;
    let station = cfg.station.name@;
    lemma_remote_targets(cfg.remotes@, n, station, k);
    let all = crate::output::remote_targets(cfg.remotes@, n, station);
    let t = crate::output::remote_target(cfg.remotes@[k], k, station)->Some_0;
    let i = choose|i: int| 0 <= i < all.len() && #[trigger] all[i] == t;
    let j = crate::output::station_targets(cfg).len() - all.len() + i;
    assert(crate::output::station_targets(cfg)[j] == t);
    assert(crate::output::target_views(targets@).len() == targets@.len());
    assert(crate::output::target_views(targets@)[j] == targets@[j]@);
    j
}

/// Nothing else is fed: every target is that of a mount, where the station has
/// a frontend of its own, or that of an Icecast relay.
pub proof fn law_nothing_else_is_fed<N>(
    cfg: EngineConfig<N>,
    targets: Vec<IcecastTarget>,
    j: int,
) -> (k: int)
    requires
        call_ensures(build_targets::<N>, (&cfg,), targets),
        0 <= j < targets@.len(),
    ensures
        is_of_mount(targets@[j], cfg, k, targets@[j].format) || (is_of_remote(
            targets@[j],
            cfg,
            k,
            targets@[j].format,
        ) && crate::text::lower(cfg.remotes@[k].protocol@) == "icecast"@),
{
    let station = cfg.station.name@;
    let local = match cfg.icecast_output {
        Some(icecast) => crate::output::mount_targets(
            icecast,
            cfg.mounts@,
            cfg.mounts@.len() as int,
            station,
        ),
        None => Seq::empty(),
    };
    assert(crate::output::target_views(targets@).len() == targets@.len());
    assert(crate::output::target_views(targets@)[j] == targets@[j]@);
    if j < local.len() {
        assert(crate::output::station_targets(cfg)[j] == local[j]);
        lemma_mount_target_source(
            cfg.icecast_output->Some_0,
            cfg.mounts@,
            cfg.mounts@.len() as int,
            station,
            j,
        )
    } else {
        lemma_remote_target_source(
            cfg.remotes@,
            cfg.remotes@.len() as int,
            station,
            j - local.len(),
        )
    }
}

// ---------------------------------------------------------------------------
// One connection.

/// Another song reaches the listeners of every target: inside the stream where
/// titles travel there, and over HTTP elsewhere, where there is anything to
/// show; and it is remembered.
pub proof fn law_another_song_is_announced(
    session: &mut OutputSession,
    target: IcecastTarget,
    song: NowPlaying,
    action: StreamAction,
    inband: bool,
    text: Option<String>,
)
    requires
        call_ensures(
            OutputSession::on_stream_event,
            (session, &target, StreamEvent::SongChanged(song)),
            action,
        ),
        call_ensures(OutputFormat::inband_metadata, (target.format,), inband),
        call_ensures(NowPlaying::song_string, (&song,), text),
    ensures
        song@ != old(session).song@ && inband ==> action is RestartEncoder,
        song@ != old(session).song@ && !inband && text is Some ==> action is PushMetadata
            && action->PushMetadata_0@ == text->Some_0@,
        song@ != old(session).song@ && !inband && text is None ==> action is Continue,
        song@ == old(session).song@ ==> action is Continue,
        final(session).song@ == song@,
        final(session).generation == old(session).generation,
        final(session).watch_alive == old(session).watch_alive,
{
}

/// Samples are always handed to the encoder, and lost ones do not matter. A
/// connection ends exactly where its encoder or its pipeline is gone, and well
/// exactly where the stream is over by itself.
pub proof fn law_a_connection_ends_for_a_reason(
    session: &mut OutputSession,
    target: IcecastTarget,
    event: StreamEvent,
    action: StreamAction,
)
    requires
        call_ensures(OutputSession::on_stream_event, (session, &target, event), action),
    ensures
        action is WriteSamples <==> event is Samples,
        event is Lagged ==> action is Continue,
        action is Finish <==> event is WriteFailed || event is TapClosed || event is CopyDone
            || event is CopyFailed || event is CopyPanicked,
        action is Finish ==> (action->Finish_0 is Ok <==> event is TapClosed || event
            is CopyDone),
        event is WatchClosed ==> !final(session).watch_alive && action is Continue,
        event !is WatchClosed ==> final(session).watch_alive == old(session).watch_alive,
        event !is SongChanged ==> final(session).song@ == old(session).song@,
        final(session).generation == old(session).generation,
{
}

/// A new connection has told its listeners of the song, and its encoders are
/// numbered from the start.
pub proof fn law_a_connection_starts_afresh(song: NowPlaying, session: OutputSession)
    requires
        call_ensures(OutputSession::new, (song,), session),
    ensures
        session.song == song,
        session.generation == 0,
        session.watch_alive,
{
}

/// The next encoder starts only where the last one has sent everything.
pub proof fn law_a_link_is_finished_before_the_next(event: FlushEvent, r: Result<(), String>)
    requires
        call_ensures(after_flush, (event,), r),
    ensures
        r is Ok <==> event is Flushed,
{
}

// ---------------------------------------------------------------------------
// Segments on disk.

/// The encoder of a rendition is told the input, the rendition's bit rate, the
/// length of a segment, how many are listed and kept, and where to write them.
pub proof fn law_a_rendition_is_written_as_configured<N>(
    name: &str,
    bitrate_kbps: u32,
    hls: HlsConfig<N>,
    segment_time: &str,
    sample_rate: u32,
    channels: u16,
    args: Vec<String>,
)
    requires
        call_ensures(
            hls_args_with::<N>,
            (name, bitrate_kbps, &hls, segment_time, sample_rate, channels),
            args,
        ),
    ensures
        has_option(args@, "-ar"@, crate::text::decimal(sample_rate as nat)),
        has_option(args@, "-ac"@, crate::text::decimal(channels as nat)),
        has_option(args@, "-i"@, "pipe:0"@),
        has_option(args@, "-c:a"@, "aac"@),
        has_option(args@, "-b:a"@, crate::text::decimal(bitrate_kbps as nat) + "k"@),
        has_option(args@, "-f"@, "hls"@),
        has_option(args@, "-hls_time"@, segment_time@),
        has_option(
            args@,
            "-hls_list_size"@,
            crate::text::decimal(hls.segments_in_playlist as nat),
        ),
        has_option(
            args@,
            "-hls_delete_threshold"@,
            crate::text::decimal(hls.segments_overhead as nat),
        ),
        has_option(args@, "-hls_flags"@, "delete_segments"@),
        has_option(
            args@,
            "-hls_segment_filename"@,
            hls.base_dir@ + seq!['/'] + name@ + "_%d.ts"@,
        ),
        args@.len() == 28,
        args@.last()@ == hls.base_dir@ + seq!['/'] + name@ + ".m3u8"@,
{
    reveal_strlit("/");
    assert("/"@ =~= seq!['/']);
    let flags = crate::text::texts(args@);
    assert(flags.len() == args@.len());
    let input = crate::output::input_flags(sample_rate as nat, channels as nat);
    lemma_option_at(args@, 5);
    lemma_option_at(args@, 7);
    lemma_option_at(args@, 9);
    assert(flags[5] == input[5] && flags[6] == input[6]);
    assert(flags[7] == input[7] && flags[8] == input[8]);
    assert(flags[9] == input[9] && flags[10] == input[10]);
    lemma_option_at(args@, 11);
    lemma_option_at(args@, 13);
    lemma_option_at(args@, 15);
    lemma_option_at(args@, 17);
    lemma_option_at(args@, 19);
    lemma_option_at(args@, 21);
    lemma_option_at(args@, 23);
    lemma_option_at(args@, 25);
    lemma_argument(args@, 27);
}

/// The master playlist is there where there is a rendition.
pub proof fn law_renditions_have_a_playlist(
    streams: &[HlsStreamConfig],
    playlist: Option<String>,
)
    requires
        call_ensures(master_playlist, (streams,), playlist),
    ensures
        playlist is Some <==> streams@.len() > 0,
        playlist is Some ==> playlist->Some_0@.len() >= 25 && playlist->Some_0@.take(25)
            == "#EXTM3U\n#EXT-X-VERSION:3\n"@,
{
    reveal_strlit("#EXTM3U\n#EXT-X-VERSION:3\n");
    if playlist is Some {
        assert("#EXTM3U\n#EXT-X-VERSION:3\n"@.len() == 25);
        assert(playlist->Some_0@.take(25) =~= "#EXTM3U\n#EXT-X-VERSION:3\n"@);
    }
}

/// Whether `part` stands somewhere in `text`.
pub open spec fn has_part(text: Seq<char>, part: Seq<char>) -> bool {
    exists|before: Seq<char>, after: Seq<char>| text == #[trigger] (before + part + after)
}

proof fn lemma_playlist_entry(streams: Seq<HlsStreamConfig>, n: int, k: int) -> (parts: (
    Seq<char>,
    Seq<char>,
))
    requires
        0 <= k < n <= streams.len(),
    ensures
        crate::hls::playlist_entries(streams, n) == parts.0 + crate::hls::playlist_entry(
            streams[k].name@,
            streams[k].bitrate as nat,
        ) + parts.1,
    decreases n,
{
    let entry = crate::hls::playlist_entry(streams[k].name@, streams[k].bitrate as nat);
    let front = crate::hls::playlist_entries(streams, n - 1);
    let all = crate::hls::playlist_entries(streams, n);
    if k == n - 1 {
        assert(all =~= front + entry + Seq::<char>::empty());
        (front, Seq::empty())
    } else {
        let last = crate::hls::playlist_entry(streams[n - 1].name@, streams[n - 1].bitrate as nat);
        let (before, after) = lemma_playlist_entry(streams, n - 1, k);
        assert(all =~= before + entry + (after + last));
        (before, after + last)
    }
}

/// Every rendition is in the master playlist: its bandwidth in bits, which is
/// a thousand times its bit rate, and on the line after it its own playlist.
pub proof fn law_every_rendition_is_listed(
    streams: &[HlsStreamConfig],
    playlist: Option<String>,
    k: int,
)
    requires
        call_ensures(master_playlist, (streams,), playlist),
        0 <= k < streams@.len(),
    ensures
        playlist is Some,
        has_part(
            playlist->Some_0@,
            "BANDWIDTH="@ + crate::text::decimal((streams@[k].bitrate * 1000) as nat)
                + ",CODECS=\"mp4a.40.2\"\n"@ + streams@[k].name@ + ".m3u8\n"@,
        ),
{
    reveal_strlit("#EXT-X-STREAM-INF:BANDWIDTH=");
    reveal_strlit("#EXT-X-STREAM-INF:");
    reveal_strlit("BANDWIDTH=");
    reveal_strlit(",CODECS=\"");
    reveal_strlit("mp4a.40.2");
    reveal_strlit("\"\n");
    reveal_strlit(",CODECS=\"mp4a.40.2\"\n");
    assert("#EXT-X-STREAM-INF:BANDWIDTH="@ =~= "#EXT-X-STREAM-INF:"@ + "BANDWIDTH="@);
    assert(",CODECS=\"mp4a.40.2\"\n"@ =~= ",CODECS=\""@ + "mp4a.40.2"@ + "\"\n"@);
    let (before, after) = lemma_playlist_entry(streams@, streams@.len() as int, k);
    let header = "#EXTM3U\n#EXT-X-VERSION:3\n"@;
    let part = "BANDWIDTH="@ + crate::text::decimal((streams@[k].bitrate * 1000) as nat)
        + ",CODECS=\"mp4a.40.2\"\n"@ + streams@[k].name@ + ".m3u8\n"@;
    assert(playlist->Some_0@ =~= (header + before + "#EXT-X-STREAM-INF:"@) + part + after);
}

/// The master playlist stands beside the renditions that it lists.
pub proof fn law_the_playlist_stands_beside_its_renditions<N>(hls: HlsConfig<N>, path: String)
    requires
        call_ensures(master_playlist_path::<N>, (&hls,), path),
    ensures
        path@ == hls.base_dir@ + seq!['/'] + "live.m3u8"@,
{
    reveal_strlit("/live.m3u8");
    reveal_strlit("live.m3u8");
    assert("/live.m3u8"@ =~= seq!['/'] + "live.m3u8"@);
    assert(path@ =~= hls.base_dir@ + seq!['/'] + "live.m3u8"@);
}

/// A rendition takes all samples, does not mind lost ones, and ends well
/// exactly where the pipeline does.
pub proof fn law_a_rendition_ends_for_a_reason(event: HlsEvent, action: HlsAction)
    requires
        call_ensures(on_hls_event, (event,), action),
    ensures
        action is WriteSamples <==> event is Samples,
        action is Continue <==> event is Lagged,
        action is CloseAndFinish <==> event is TapClosed,
        action is Fail <==> event is WriteFailed,
{
}

/// The encoder of a rendition is that of its configuration, with the length of
/// a segment as its number type shows it.
pub proof fn law_a_rendition_shows_its_segment_length<N: core::fmt::Display>(
    name: &str,
    bitrate_kbps: u32,
    hls: HlsConfig<N>,
    sample_rate: u32,
    channels: u16,
    args: Vec<String>,
) -> (shown: String)
    requires
        call_ensures(
            crate::hls::hls_ffmpeg_args::<N>,
            (name, bitrate_kbps, &hls, sample_rate, channels),
            args,
        ),
    ensures
        vstd::string::to_string_from_display_ensures(&hls.segment_secs, shown),
        has_option(args@, "-hls_time"@, shown@),
        has_option(args@, "-ar"@, crate::text::decimal(sample_rate as nat)),
        has_option(args@, "-ac"@, crate::text::decimal(channels as nat)),
        has_option(args@, "-b:a"@, crate::text::decimal(bitrate_kbps as nat) + "k"@),
        args@.len() == 28,
        args@.last()@ == hls.base_dir@ + seq!['/'] + name@ + ".m3u8"@,
{
    let shown = choose|shown: String|
        #[trigger] vstd::string::to_string_from_display_ensures(&hls.segment_secs, shown)
            && crate::text::texts(args@) == crate::hls::hls_flags(
            name@,
            bitrate_kbps as nat,
            hls,
            shown@,
            sample_rate as nat,
            channels as nat,
        );
    reveal_strlit("/");
    assert("/"@ =~= seq!['/']);
    let flags = crate::text::texts(args@);
    assert(flags.len() == args@.len());
    let input = crate::output::input_flags(sample_rate as nat, channels as nat);
    assert(flags[5] == input[5] && flags[6] == input[6]);
    assert(flags[7] == input[7] && flags[8] == input[8]);
    lemma_option_at(args@, 5);
    lemma_option_at(args@, 7);
    lemma_option_at(args@, 13);
    lemma_option_at(args@, 17);
    lemma_argument(args@, 27);
    shown
}

/// A target that took too long is named with its address and the time it had.
pub proof fn law_a_slow_target_is_named(
    target: IcecastTarget,
    address: String,
    message: String,
)
    requires
        call_ensures(target_address, (&target,), address),
        call_ensures(crate::output::handshake_timeout_message, (&target,), message),
    ensures
        message@ == "handshake with "@ + address@ + " timed out after "@ + crate::text::decimal(15)
            + "s"@,
{
}

/// A target that refuses is named with its address, its mount and its answer.
pub proof fn law_a_refusing_target_is_named(
    target: IcecastTarget,
    line: &str,
    address: String,
    tight: String,
    e: String,
)
    requires
        call_ensures(target_address, (&target,), address),
        call_ensures(crate::text::trimmed, (line,), tight),
        call_ensures(check_status_line, (&target, line), Err::<(), String>(e)),
    ensures
        e@ == "target "@ + address@ + target.mount@ + " rejected source request: "@ + tight@,
{
}

proof fn lemma_all_mounts(
    icecast: crate::config::IcecastOutputConfig,
    mounts: Seq<crate::config::MountConfig>,
    n: int,
    station: Seq<char>,
)
    requires
        0 <= n <= mounts.len(),
        forall|k: int|
            0 <= k < n ==> crate::output::named_format((#[trigger] mounts[k]).format@) is Some,
    ensures
        ({
            let all = crate::output::mount_targets(icecast, mounts, n, station);
            &&& all.len() == n
            &&& forall|k: int|
                0 <= k < n ==> Some(#[trigger] all[k]) == crate::output::mount_target(
                    icecast,
                    mounts[k],
                    k,
                    station,
                )
        }),
    decreases n,
{
    if n > 0 {
        lemma_all_mounts(icecast, mounts, n - 1, station);
        assert(crate::output::named_format(mounts[n - 1].format@) is Some);
    }
}

proof fn lemma_all_remotes(remotes: Seq<crate::config::RemoteConfig>, n: int, station: Seq<char>)
    requires
        0 <= n <= remotes.len(),
        forall|k: int|
            0 <= k < n ==> crate::output::named_format((#[trigger] remotes[k]).format@) is Some
                && crate::text::lower(remotes[k].protocol@) == "icecast"@,
    ensures
        ({
            let all = crate::output::remote_targets(remotes, n, station);
            &&& all.len() == n
            &&& forall|k: int|
                0 <= k < n ==> Some(#[trigger] all[k]) == crate::output::remote_target(
                    remotes[k],
                    k,
                    station,
                )
        }),
    decreases n,
{
    if n > 0 {
        lemma_all_remotes(remotes, n - 1, station);
        assert(crate::output::named_format(remotes[n - 1].format@) is Some);
    }
}

/// Where every mount and every relay can be fed, there is one target for each,
/// the mounts first and both in the order of the configuration.
pub proof fn law_one_target_for_each<N>(
    cfg: EngineConfig<N>,
    targets: Vec<IcecastTarget>,
    k: int,
)
    requires
        call_ensures(build_targets::<N>, (&cfg,), targets),
        cfg.icecast_output is Some,
        forall|j: int|
            0 <= j < cfg.mounts@.len() ==> crate::output::named_format(
                (#[trigger] cfg.mounts@[j]).format@,
            ) is Some,
        forall|j: int|
            0 <= j < cfg.remotes@.len() ==> crate::output::named_format(
                (#[trigger] cfg.remotes@[j]).format@,
            ) is Some && crate::text::lower(cfg.remotes@[j].protocol@) == "icecast"@,
    ensures
        targets@.len() == cfg.mounts@.len() + cfg.remotes@.len(),
        0 <= k < cfg.mounts@.len() ==> is_of_mount(targets@[k], cfg, k, targets@[k].format),
        0 <= k < cfg.remotes@.len() ==> is_of_remote(
            targets@[cfg.mounts@.len() + k],
            cfg,
            k,
            targets@[cfg.mounts@.len() + k].format,
        ),
{
    let icecast = cfg.icecast_output->Some_0;
    let n = cfg.mounts@.len() as int;
    let m = cfg.remotes@.len() as int;
    let station = cfg.station.name@;
    lemma_all_mounts(icecast, cfg.mounts@, n, station);
    lemma_all_remotes(cfg.remotes@, m, station);
    let local = crate::output::mount_targets(icecast, cfg.mounts@, n, station);
    let far = crate::output::remote_targets(cfg.remotes@, m, station);
    let views = crate::output::target_views(targets@);
    assert(views.len() == targets@.len());
    assert(views == local + far);
    if 0 <= k < n {
        assert(views[k] == local[k]);
        assert(views[k] == targets@[k]@);
    }
    if 0 <= k < m {
        assert(views[n + k] == far[k]);
        assert(views[n + k] == targets@[n + k]@);
    }
}

/// A connection that ends badly says why.
pub proof fn law_failed_connections_say_why(
    session: &mut OutputSession,
    target: IcecastTarget,
    e: String,
    action: StreamAction,
    flush: Result<(), String>,
    hls: HlsAction,
)
    requires
        call_ensures(after_flush, (FlushEvent::FlushFailed(e),), flush),
        call_ensures(on_hls_event, (HlsEvent::WriteFailed(e),), hls),
        call_ensures(
            OutputSession::on_stream_event,
            (session, &target, StreamEvent::CopyFailed(e)),
            action,
        ),
    ensures
        action is Finish && action->Finish_0 is Err && action->Finish_0->Err_0@
            == "stream copy to "@ + target.label@ + " ended: "@ + e@,
        flush is Err && flush->Err_0@ == "connection ended during encoder restart: "@ + e@,
        hls is Fail && hls->Fail_0@ == "failed writing to ffmpeg stdin: "@ + e@,
{
}

} // verus!
