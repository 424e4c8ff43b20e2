//! Network output: what the engine says to the Icecast servers that it feeds,
//! and to the encoder in between.
//!
//! This is the outbound half of the protocol whose inbound half is
//! [`crate::harbor`]. Each target has one encoder process and one connection.
//! Song titles reach listeners in two ways: formats without in-band metadata
//! are updated over HTTP, while the Ogg family restarts its encoder on the same
//! connection, so that each song becomes one link of a chained stream.

use vstd::prelude::*;

use crate::codec::base64_encode;
use crate::config::{EngineConfig, IcecastOutputConfig, MountConfig, RemoteConfig};
use crate::text::{
    concat2, contains_char, decimal_of, flatten, has_word, lowered, push_decimal, push_string,
    push_text, same_text, trimmed,
};

verus! {

broadcast use vstd::string::group_string_axioms;

/// The source user name where none is configured.
pub const DEFAULT_SOURCE_USERNAME: &'static str = "source";

/// Seconds between the end of one connection attempt and the next.
pub const RECONNECT_BACKOFF_SECS: u64 = 5;

/// Seconds that connecting and shaking hands may take in all.
pub const HANDSHAKE_TIMEOUT_SECS: u64 = 15;

/// Seconds that one metadata update over HTTP may take.
pub const UPDINFO_TIMEOUT_SECS: u64 = 5;

/// Seconds that an encoder may take to flush when it is restarted.
pub const ENCODER_FLUSH_TIMEOUT_SECS: u64 = 10;

// ---------------------------------------------------------------------------
// Songs.

/// The song that every target tells its listeners about.
#[derive(Debug, PartialEq, Eq)]
pub struct NowPlaying {
    pub title: Option<String>,
    pub artist: Option<String>,
}

/// A song as mathematical texts.
pub struct SongView {
    pub title: Option<Seq<char>>,
    pub artist: Option<Seq<char>>,
}

impl View for NowPlaying {
    type V = SongView;

    open spec fn view(&self) -> SongView {
        SongView { title: crate::text::opt_view(self.title), artist: crate::text::opt_view(self.artist) }
    }
}

impl Default for NowPlaying {
    fn default() -> (song: NowPlaying)
        ensures
            song.title is None,
            song.artist is None,
    {
        NowPlaying { title: None, artist: None }
    }
}

/// A copy of an optional text.
pub fn clone_text(s: &Option<String>) -> (r: Option<String>)
    ensures
        r == *s,
{
    match s {
        Some(t) => Some(t.clone()),
        None => None,
    }
}

/// Whether two optional texts are alike.
pub fn same_opt_text(a: &Option<String>, b: &Option<String>) -> (same: bool)
    ensures
        same == (crate::text::opt_view(*a) == crate::text::opt_view(*b)),
{
    match (a, b) {
        (Some(x), Some(y)) => same_text(x.as_str(), y.as_str()),
        (None, None) => true,
        _ => false,
    }
}

impl Clone for NowPlaying {
    fn clone(&self) -> (song: NowPlaying)
        ensures
            song == *self,
    {
        NowPlaying { title: clone_text(&self.title), artist: clone_text(&self.artist) }
    }
}

/// `Artist - Title`, or whichever of the two there is.
pub open spec fn song_text(song: SongView) -> Option<Seq<char>> {
    match (song.artist, song.title) {
        (Some(artist), Some(title)) => Some(artist + " - "@ + title),
        (None, Some(title)) => Some(title),
        (Some(artist), None) => Some(artist),
        (None, None) => None,
    }
}

impl NowPlaying {
    /// The song as one text; `None` when there is nothing to show.
    pub fn song_string(&self) -> (text: Option<String>)
        ensures
            crate::text::opt_view(text) == song_text(self@),
    {
        match (&self.artist, &self.title) {
            (Some(artist), Some(title)) => {
                let mut text = concat2(artist.as_str(), " - ");
                text.append(title.as_str());
                Some(text)
            },
            (None, Some(title)) => Some(title.clone()),
            (Some(artist), None) => Some(artist.clone()),
            (None, None) => None,
        }
    }

    /// Whether both name the same song.
    pub fn same_song(&self, other: &NowPlaying) -> (same: bool)
        ensures
            same == (self@ == other@),
    {
        same_opt_text(&self.title, &other.title) && same_opt_text(&self.artist, &other.artist)
    }
}

// ---------------------------------------------------------------------------
// Formats.

/// The output formats.
#[derive(Debug, Clone, Copy, PartialEq, Eq, Structural)]
pub enum OutputFormat {
    Mp3,
    Aac,
    Ogg,
    Opus,
    Flac,
}

/// The format of this name, in any letter case.
pub open spec fn named_format(name: Seq<char>) -> Option<OutputFormat> {
    let low = crate::text::lower(name);
    if low == "mp3"@ {
        Some(OutputFormat::Mp3)
    } else if low == "aac"@ {
        Some(OutputFormat::Aac)
    } else if low == "ogg"@ {
        Some(OutputFormat::Ogg)
    } else if low == "opus"@ {
        Some(OutputFormat::Opus)
    } else if low == "flac"@ {
        Some(OutputFormat::Flac)
    } else {
        None
    }
}

impl OutputFormat {
    /// The container that the encoder writes; Opus is carried in Ogg.
    pub open spec fn container_text(self) -> Seq<char> {
        match self {
            OutputFormat::Mp3 => "mp3"@,
            OutputFormat::Aac => "adts"@,
            OutputFormat::Ogg => "ogg"@,
            OutputFormat::Opus => "ogg"@,
            OutputFormat::Flac => "flac"@,
        }
    }

    /// The content type that is announced to the server.
    pub open spec fn content_type_text(self) -> Seq<char> {
        match self {
            OutputFormat::Mp3 => "audio/mpeg"@,
            OutputFormat::Aac => "audio/aac"@,
            OutputFormat::Ogg => "application/ogg"@,
            OutputFormat::Opus => "application/ogg"@,
            OutputFormat::Flac => "audio/flac"@,
        }
    }

    /// The name of the encoder.
    pub open spec fn encoder_text(self) -> Seq<char> {
        match self {
            OutputFormat::Mp3 => "libmp3lame"@,
            OutputFormat::Aac => "aac"@,
            OutputFormat::Ogg => "libvorbis"@,
            OutputFormat::Opus => "libopus"@,
            OutputFormat::Flac => "flac"@,
        }
    }

    /// Whether song titles travel inside the stream.
    pub open spec fn is_inband(self) -> bool {
        self == OutputFormat::Ogg || self == OutputFormat::Opus
    }

    /// Reads the name of a format; `None` for one that is not known.
    pub fn parse(s: &str) -> (format: Option<OutputFormat>)
        ensures
            format == named_format(s@),
    {
        let low = lowered(s);
        if same_text(low.as_str(), "mp3") {
            Some(OutputFormat::Mp3)
        } else if same_text(low.as_str(), "aac") {
            Some(OutputFormat::Aac)
        } else if same_text(low.as_str(), "ogg") {
            Some(OutputFormat::Ogg)
        } else if same_text(low.as_str(), "opus") {
            Some(OutputFormat::Opus)
        } else if same_text(low.as_str(), "flac") {
            Some(OutputFormat::Flac)
        } else {
            None
        }
    }

    /// The container that the encoder writes.
    pub fn container(self) -> (s: &'static str)
        ensures
            s@ == self.container_text(),
    {
        match self {
            OutputFormat::Mp3 => "mp3",
            OutputFormat::Aac => "adts",
            OutputFormat::Ogg => "ogg",
            OutputFormat::Opus => "ogg",
            OutputFormat::Flac => "flac",
        }
    }

    /// The content type that is announced to the server.
    pub fn content_type(self) -> (s: &'static str)
        ensures
            s@ == self.content_type_text(),
    {
        match self {
            OutputFormat::Mp3 => "audio/mpeg",
            OutputFormat::Aac => "audio/aac",
            OutputFormat::Ogg => "application/ogg",
            OutputFormat::Opus => "application/ogg",
            OutputFormat::Flac => "audio/flac",
        }
    }

    /// Whether song titles travel inside the stream, as comments of a chained
    /// Ogg stream; the other formats are updated over HTTP.
    pub fn inband_metadata(self) -> (yes: bool)
        ensures
            yes == self.is_inband(),
    {
        match self {
            OutputFormat::Ogg | OutputFormat::Opus => true,
            OutputFormat::Mp3 | OutputFormat::Aac | OutputFormat::Flac => false,
        }
    }

    /// The encoder's arguments for codec and bit rate.
    pub fn codec_args(self, bitrate_kbps: u32) -> (args: Vec<String>)
        ensures
            crate::text::texts(args@) == codec_flags(self, bitrate_kbps as nat),
    {
        let mut args: Vec<String> = Vec::new();
        push_text(&mut args, "-c:a");
        match self {
            OutputFormat::Mp3 => push_text(&mut args, "libmp3lame"),
            OutputFormat::Aac => push_text(&mut args, "aac"),
            OutputFormat::Ogg => push_text(&mut args, "libvorbis"),
            OutputFormat::Opus => push_text(&mut args, "libopus"),
            OutputFormat::Flac => push_text(&mut args, "flac"),
        }
        if self != OutputFormat::Flac {
            push_text(&mut args, "-b:a");
            push_string(&mut args, kilobits(bitrate_kbps));
        }
        assert(crate::text::texts(args@) =~= codec_flags(self, bitrate_kbps as nat));
        args
    }
}

/// A bit rate as the encoder takes it.
pub open spec fn kilobits_text(bitrate_kbps: nat) -> Seq<char> {
    crate::text::decimal(bitrate_kbps) + "k"@
}

/// A bit rate as the encoder takes it.
pub fn kilobits(bitrate_kbps: u32) -> (s: String)
    ensures
        s@ == kilobits_text(bitrate_kbps as nat),
{
    let mut s = decimal_of(bitrate_kbps as u64);
    s.append("k");
    s
}

/// The encoder's arguments for codec and bit rate; FLAC has no bit rate.
pub open spec fn codec_flags(format: OutputFormat, bitrate_kbps: nat) -> Seq<Seq<char>> {
    let codec = seq!["-c:a"@, format.encoder_text()];
    if format == OutputFormat::Flac {
        codec
    } else {
        codec + seq!["-b:a"@, kilobits_text(bitrate_kbps)]
    }
}

/// The encoder's arguments for its input: raw samples from a pipe.
pub open spec fn input_flags(sample_rate: nat, channels: nat) -> Seq<Seq<char>> {
    seq![
        "-hide_banner"@,
        "-loglevel"@,
        "error"@,
        "-f"@,
        "f32le"@,
        "-ar"@,
        crate::text::decimal(sample_rate),
        "-ac"@,
        crate::text::decimal(channels),
        "-i"@,
        "pipe:0"@,
    ]
}

/// The encoder's arguments for one field of a song.
pub open spec fn metadata_flags(name: Seq<char>, value: Option<Seq<char>>) -> Seq<Seq<char>> {
    match value {
        Some(text) => seq!["-metadata"@, name + text],
        None => Seq::empty(),
    }
}

/// All arguments of the encoder.
pub open spec fn encoder_flags(
    format: OutputFormat,
    bitrate_kbps: nat,
    sample_rate: nat,
    channels: nat,
    song: SongView,
    ogg_serial_offset: nat,
) -> Seq<Seq<char>> {
    input_flags(sample_rate, channels) + codec_flags(format, bitrate_kbps) + metadata_flags(
        "title="@,
        song.title,
    ) + metadata_flags("artist="@, song.artist) + (if format.is_inband() {
        seq!["-serial_offset"@, crate::text::decimal(ogg_serial_offset)]
    } else {
        Seq::empty()
    }) + seq!["-f"@, format.container_text(), "pipe:1"@]
}

/// The encoder's arguments for its input.
pub fn input_args(sample_rate: u32, channels: u16) -> (args: Vec<String>)
    ensures
        crate::text::texts(args@) == input_flags(sample_rate as nat, channels as nat),
{
    let mut args: Vec<String> = Vec::new();
    push_text(&mut args, "-hide_banner");
    push_text(&mut args, "-loglevel");
    push_text(&mut args, "error");
    push_text(&mut args, "-f");
    push_text(&mut args, "f32le");
    push_text(&mut args, "-ar");
    push_string(&mut args, decimal_of(sample_rate as u64));
    push_text(&mut args, "-ac");
    push_string(&mut args, decimal_of(channels as u64));
    push_text(&mut args, "-i");
    push_text(&mut args, "pipe:0");
    assert(crate::text::texts(args@) =~= input_flags(sample_rate as nat, channels as nat));
    args
}

/// Appends one field of a song.
fn push_metadata(args: &mut Vec<String>, name: &str, value: &Option<String>)
    ensures
        crate::text::texts(final(args)@) == crate::text::texts(old(args)@) + metadata_flags(name@, crate::text::opt_view(*value)),
{
    match value {
        Some(text) => {
            push_text(args, "-metadata");
            push_string(args, concat2(name, text.as_str()));
        },
        None => {},
    }
    assert(crate::text::texts(args@) =~= crate::text::texts(old(args)@) + metadata_flags(name@, crate::text::opt_view(*value)));
}

/// Appends a list to a list.
fn push_all(args: &mut Vec<String>, more: &Vec<String>)
    ensures
        crate::text::texts(final(args)@) == crate::text::texts(old(args)@) + crate::text::texts(more@),
{
    let mut i: usize = 0;
    while i < more.len()
        invariant
            i <= more@.len(),
            crate::text::texts(args@) =~= crate::text::texts(old(args)@) + crate::text::texts(more@).take(i as int),
        decreases more@.len() - i,
    {
        push_text(args, more[i].as_str());
        i += 1;
    }
    assert(crate::text::texts(more@).take(i as int) =~= crate::text::texts(more@));
}

/// All arguments of the encoder, which reads raw samples from its input and
/// writes `format` to its output. The song becomes container metadata. The
/// serial offset tells consecutive links of a chained Ogg stream apart, and is
/// left out for other containers.
pub fn ffmpeg_args(
    format: OutputFormat,
    bitrate_kbps: u32,
    sample_rate: u32,
    channels: u16,
    song: &NowPlaying,
    ogg_serial_offset: u32,
) -> (args: Vec<String>)
    ensures
        crate::text::texts(args@) == encoder_flags(
            format,
            bitrate_kbps as nat,
            sample_rate as nat,
            channels as nat,
            song@,
            ogg_serial_offset as nat,
        ),
{
    let mut args = input_args(sample_rate, channels);
    let codec = format.codec_args(bitrate_kbps);
    push_all(&mut args, &codec);
    push_metadata(&mut args, "title=", &song.title);
    push_metadata(&mut args, "artist=", &song.artist);
    let ghost so_far = crate::text::texts(args@);
    if same_text(format.container(), "ogg") {
        push_text(&mut args, "-serial_offset");
        push_string(&mut args, decimal_of(ogg_serial_offset as u64));
    }
    proof {
        reveal_strlit("mp3");
        reveal_strlit("adts");
        reveal_strlit("ogg");
        reveal_strlit("flac");
        assert("mp3"@[0] != "ogg"@[0]);
        assert("adts"@[0] != "ogg"@[0]);
        assert("flac"@[0] != "ogg"@[0]);
        assert(format.is_inband() == (format.container_text() == "ogg"@));
    }
    push_text(&mut args, "-f");
    push_text(&mut args, format.container());
    push_text(&mut args, "pipe:1");
    assert(crate::text::texts(args@) =~= encoder_flags(
        format,
        bitrate_kbps as nat,
        sample_rate as nat,
        channels as nat,
        song@,
        ogg_serial_offset as nat,
    ));
    args
}

// ---------------------------------------------------------------------------
// Targets and their requests.

/// One outbound target: a local mount or a remote relay.
#[derive(Debug, Clone)]
pub struct IcecastTarget {
    pub host: String,
    pub port: u16,
    /// Starts with `/`.
    pub mount: String,
    pub username: String,
    pub password: String,
    pub format: OutputFormat,
    pub bitrate: u32,
    pub is_public: bool,
    /// The station's display name; without one no name is announced.
    pub stream_name: String,
    /// For log lines only.
    pub label: String,
}

/// A target as mathematical values.
pub struct TargetView {
    pub host: Seq<char>,
    pub port: u16,
    pub mount: Seq<char>,
    pub username: Seq<char>,
    pub password: Seq<char>,
    pub format: OutputFormat,
    pub bitrate: u32,
    pub is_public: bool,
    pub stream_name: Seq<char>,
    pub label: Seq<char>,
}

impl View for IcecastTarget {
    type V = TargetView;

    open spec fn view(&self) -> TargetView {
        TargetView {
            host: self.host@,
            port: self.port,
            mount: self.mount@,
            username: self.username@,
            password: self.password@,
            format: self.format,
            bitrate: self.bitrate,
            is_public: self.is_public,
            stream_name: self.stream_name@,
            label: self.label@,
        }
    }
}

/// The credentials of a target, before they are encoded.
pub open spec fn credentials_text(target: TargetView) -> Seq<char> {
    target.username + seq![':'] + target.password
}

/// The first line of a source request.
pub open spec fn request_line(target: TargetView) -> Seq<char> {
    "SOURCE "@ + target.mount + " ICE/1.0"@
}

/// The header lines of a source request with these encoded credentials. The
/// station's name has its white space flattened; a name without any word is
/// left out.
pub open spec fn request_headers(target: TargetView, encoded: Seq<char>) -> Seq<Seq<char>> {
    let name = crate::text::flattened(target.stream_name);
    seq![
        "Authorization: Basic "@ + encoded,
        "Content-Type: "@ + target.format.content_type_text(),
        "User-Agent: azuracast-engine"@,
        "ice-public: "@ + (if target.is_public {
            "1"@
        } else {
            "0"@
        }),
    ] + (if name.len() > 0 {
        seq!["ice-name: "@ + name]
    } else {
        Seq::empty()
    })
}

/// The text of a source request with these encoded credentials: the request
/// line, the headers, and a blank line.
pub open spec fn request_text(target: TargetView, encoded: Seq<char>) -> Seq<char> {
    crate::harbor::crlf_lines(seq![request_line(target)] + request_headers(target, encoded))
        + seq!['\r', '\n']
}

/// A target whose request can be read back: the mount begins with `/` and is
/// one word, and the user name has no colon in it.
pub open spec fn readable_target(target: TargetView) -> bool {
    &&& crate::text::is_word(target.mount)
    &&& target.mount[0] == '/'
    &&& !target.username.contains(':')
}

/// The length limit of a target's credentials.
pub open spec fn credentials_fit(target: TargetView) -> bool {
    crate::codec::base64_len(vstd::utf8::encode_utf8(credentials_text(target)).len()) <= isize::MAX
}

/// Appends one line with its line end.
fn push_line(request: &mut String, name: &str, value: &str)
    ensures
        final(request)@ == old(request)@ + (name@ + value@) + seq!['\r', '\n'],
{
    request.append(name);
    request.append(value);
    request.push('\r');
    request.push('\n');
    assert(request@ =~= old(request)@ + (name@ + value@) + seq!['\r', '\n']);
}

/// One more line goes to the end of the written lines.
proof fn lemma_crlf_lines_push(lines: Seq<Seq<char>>, line: Seq<char>)
    ensures
        crate::harbor::crlf_lines(lines.push(line)) == crate::harbor::crlf_lines(lines) + line
            + seq!['\r', '\n'],
    decreases lines.len(),
{
    let all = lines.push(line);
    if lines.len() == 0 {
        assert(all.skip(1) =~= lines);
        assert(crate::harbor::crlf_lines(lines) =~= Seq::<char>::empty());
        assert(crate::harbor::crlf_lines(all) =~= crate::harbor::crlf_lines(lines) + line
            + seq!['\r', '\n']);
    } else {
        assert(all.skip(1) =~= lines.skip(1).push(line));
        lemma_crlf_lines_push(lines.skip(1), line);
        assert(crate::harbor::crlf_lines(all) =~= crate::harbor::crlf_lines(lines) + line
            + seq!['\r', '\n']);
    }
}

/// Writes the request for given encoded credentials.
pub fn write_source_request(target: &IcecastTarget, encoded: &str) -> (request: String)
    ensures
        request@ == request_text(target@, encoded@),
{
    let public_flag = if target.is_public {
        "1"
    } else {
        "0"
    };
    let name = flatten(target.stream_name.as_str());
    let mut request = String::new();
    let mount_part = concat2(target.mount.as_str(), " ICE/1.0");
    let ghost mut lines: Seq<Seq<char>> = Seq::empty();
    push_line(&mut request, "SOURCE ", mount_part.as_str());
    proof {
        lemma_crlf_lines_push(lines, "SOURCE "@ + mount_part@);
        lines = lines.push("SOURCE "@ + mount_part@);
        assert(request@ =~= crate::harbor::crlf_lines(lines));
    }
    push_line(&mut request, "Authorization: Basic ", encoded);
    proof {
        lemma_crlf_lines_push(lines, "Authorization: Basic "@ + encoded@);
        lines = lines.push("Authorization: Basic "@ + encoded@);
        assert(request@ =~= crate::harbor::crlf_lines(lines));
    }
    push_line(&mut request, "Content-Type: ", target.format.content_type());
    proof {
        lemma_crlf_lines_push(lines, "Content-Type: "@ + target.format.content_type_text());
        lines = lines.push("Content-Type: "@ + target.format.content_type_text());
        assert(request@ =~= crate::harbor::crlf_lines(lines));
    }
    push_line(&mut request, "User-Agent: azuracast-engine", "");
    proof {
        lemma_crlf_lines_push(lines, "User-Agent: azuracast-engine"@ + ""@);
        lines = lines.push("User-Agent: azuracast-engine"@ + ""@);
        assert(request@ =~= crate::harbor::crlf_lines(lines));
    }
    push_line(&mut request, "ice-public: ", public_flag);
    proof {
        lemma_crlf_lines_push(lines, "ice-public: "@ + public_flag@);
        lines = lines.push("ice-public: "@ + public_flag@);
        assert(request@ =~= crate::harbor::crlf_lines(lines));
    }
    if !name.as_str().is_empty() {
        push_line(&mut request, "ice-name: ", name.as_str());
        proof {
            lemma_crlf_lines_push(lines, "ice-name: "@ + name@);
            lines = lines.push("ice-name: "@ + name@);
            assert(request@ =~= crate::harbor::crlf_lines(lines));
        }
    }
    request.push('\r');
    request.push('\n');
    proof {
        reveal_strlit("");
        assert("User-Agent: azuracast-engine"@ + ""@ =~= "User-Agent: azuracast-engine"@);
        assert("SOURCE "@ + mount_part@ =~= request_line(target@));
        assert(lines =~= seq![request_line(target@)] + request_headers(target@, encoded@));
        assert(request@ =~= request_text(target@, encoded@));
    }
    request
}

/// A header line splits into its name and its value.
pub proof fn lemma_header_line(line: Seq<char>, name: Seq<char>, value: Seq<char>)
    requires
        line == name + seq![':', ' '] + value,
        name.len() > 0,
        value.len() > 0,
        !name.contains(':'),
        !crate::text::is_white(name[0]),
        !crate::text::is_white(name.last()),
        !crate::text::is_white(value[0]),
        !crate::text::is_white(value.last()),
    ensures
        line.contains(':'),
        crate::text::split_once(line, ':') matches Some((n, v)) && crate::text::trim(n) == name
            && crate::text::trim(v) == value,
{
    let at = name.len() as int;
    assert(line[at] == ':');
    assert forall|j: int| 0 <= j < at implies line[j] != ':' by {
        assert(line[j] == name[j]);
        assert(name.contains(name[j]));
    }
    crate::text::lemma_find_from_is(line, ':', 0, at);
    let n = line.take(at);
    let v = line.skip(at + 1);
    assert(n =~= name);
    assert(v =~= seq![' '] + value);
    crate::text::lemma_trim_is(n, 0);
    assert(n.skip(0) =~= name);
    assert(v.last() == value.last());
    assert(v[1] == value[0]);
    crate::text::lemma_trim_is(v, 1);
    assert(v.skip(1) =~= value);
}

/// A text without line feeds, whose last character is no carriage return, is a
/// line.
pub proof fn lemma_is_line(s: Seq<char>)
    requires
        s.len() > 0,
        forall|k: int| 0 <= k < s.len() ==> #[trigger] s[k] != '\n',
        s.last() != '\r',
    ensures
        crate::harbor::is_line(s),
{
}

/// The header names of a request in lower case.
proof fn lemma_header_names()
    ensures
        crate::text::lower("Authorization"@) == "authorization"@,
        crate::text::lower("Content-Type"@) == "content-type"@,
        crate::text::lower("User-Agent"@).len() == 10,
        crate::text::lower("ice-public"@).len() == 10,
        crate::text::lower("ice-name"@).len() == 8,
        "authorization"@.len() == 13,
        "content-type"@.len() == 12,
{
    reveal_strlit("Authorization");
    reveal_strlit("authorization");
    reveal_strlit("Content-Type");
    reveal_strlit("content-type");
    reveal_strlit("User-Agent");
    reveal_strlit("ice-public");
    reveal_strlit("ice-name");
    assert(crate::text::lower("Authorization"@) =~= "authorization"@);
    assert(crate::text::lower("Content-Type"@) =~= "content-type"@);
}

/// The request line of a readable target asks for its mount.
proof fn lemma_request_line(target: TargetView)
    requires
        readable_target(target),
    ensures
        crate::harbor::is_line(request_line(target)),
        crate::harbor::requested_mount(request_line(target)) == Ok::<Seq<char>, Seq<char>>(
            target.mount,
        ),
{
    reveal_strlit("SOURCE ");
    reveal_strlit(" ICE/1.0");
    reveal_strlit("SOURCE");
    let line = request_line(target);
    let m = target.mount;
    let n = m.len() as int;
    assert(line.len() == 7 + n + 8);
    assert forall|k: int| 7 <= k < 7 + n implies line[k] == #[trigger] m[k - 7] by {}
    assert forall|k: int| 7 <= k < 7 + n implies !crate::text::is_white(#[trigger] line[k]) by {
        assert(line[k] == m[k - 7]);
    }
    assert forall|k: int| 0 <= k < line.len() implies #[trigger] line[k] != '\n' by {
        if k >= 7 + n {
            assert(line[k] == " ICE/1.0"@[k - 7 - n]);
        } else if k >= 7 {
            assert(line[k] == m[k - 7]);
        } else {
            assert(line[k] == "SOURCE "@[k]);
        }
    }
    assert(line.last() == " ICE/1.0"@[7]);
    lemma_is_line(line);
    assert forall|k: int| 0 <= k < 6 implies !crate::text::is_white(#[trigger] line[k]) by {
        assert(line[k] == "SOURCE "@[k]);
    }
    assert(line[6] == "SOURCE "@[6]);
    crate::text::lemma_first_word(line, 0, 0, 6);
    assert(line[7 + n] == " ICE/1.0"@[0]);
    crate::text::lemma_first_word(line, 6, 7, 7 + n);
    let parts = crate::text::words(line);
    assert(parts[0] == line.subrange(0, 6));
    assert(line.subrange(0, 6) =~= "SOURCE"@);
    assert(parts[1] == line.subrange(7, 7 + n));
    assert(line.subrange(7, 7 + n) =~= m);
}

/// The header lines of a request are lines with a colon, and name the encoded
/// credentials and the content type.
proof fn lemma_request_headers(target: TargetView, encoded: Seq<char>)
    requires
        encoded.len() > 0,
        crate::codec::is_base64_text(encoded),
    ensures
        forall|k: int|
            0 <= k < request_headers(target, encoded).len() ==> crate::harbor::is_line(
                #[trigger] request_headers(target, encoded)[k],
            ) && request_headers(target, encoded)[k].contains(':'),
        ({
            let found = crate::harbor::with_header_lines(
                Map::empty(),
                request_headers(target, encoded),
            );
            &&& found.dom().contains("authorization"@)
            &&& found["authorization"@] == "Basic "@ + encoded
            &&& found.dom().contains("content-type"@)
            &&& found["content-type"@] == target.format.content_type_text()
        }),
{
    let lines = request_headers(target, encoded);
    let name = crate::text::flattened(target.stream_name);
    let content_type = target.format.content_type_text();
    let flag = if target.is_public {
        "1"@
    } else {
        "0"@
    };
    lemma_header_names();
    assert(encoded[0] == encoded[0] && crate::codec::is_base64_char(encoded[0]));
    assert(crate::codec::is_base64_char(encoded[encoded.len() - 1]));

    // Authorization
    reveal_strlit("Authorization: Basic ");
    reveal_strlit("Authorization");
    reveal_strlit("Basic ");
    let auth = "Basic "@ + encoded;
    assert(lines[0] =~= "Authorization"@ + seq![':', ' '] + auth);
    assert(auth[0] == 'B');
    assert(auth.last() == encoded.last());
    lemma_header_line(lines[0], "Authorization"@, auth);
    assert forall|k: int| 0 <= k < lines[0].len() implies #[trigger] lines[0][k] != '\n' by {
        if k >= 21 {
            assert(lines[0][k] == encoded[k - 21]);
            assert(crate::codec::is_base64_char(encoded[k - 21]));
        } else {
            assert(lines[0][k] == "Authorization: Basic "@[k]);
        }
    }
    assert(lines[0].last() == encoded.last());
    lemma_is_line(lines[0]);

    // Content-Type
    reveal_strlit("Content-Type: ");
    reveal_strlit("Content-Type");
    reveal_strlit("audio/mpeg");
    reveal_strlit("audio/aac");
    reveal_strlit("application/ogg");
    reveal_strlit("audio/flac");
    assert(lines[1] =~= "Content-Type"@ + seq![':', ' '] + content_type);
    lemma_header_line(lines[1], "Content-Type"@, content_type);
    assert forall|k: int| 0 <= k < lines[1].len() implies #[trigger] lines[1][k] != '\n' by {
        if k >= 14 {
            assert(lines[1][k] == content_type[k - 14]);
        } else {
            assert(lines[1][k] == "Content-Type: "@[k]);
        }
    }
    assert(lines[1].last() == content_type.last());
    lemma_is_line(lines[1]);

    // User-Agent
    reveal_strlit("User-Agent: azuracast-engine");
    reveal_strlit("User-Agent");
    reveal_strlit("azuracast-engine");
    assert(lines[2] =~= "User-Agent"@ + seq![':', ' '] + "azuracast-engine"@);
    lemma_header_line(lines[2], "User-Agent"@, "azuracast-engine"@);
    lemma_is_line(lines[2]);

    // ice-public
    reveal_strlit("ice-public: ");
    reveal_strlit("ice-public");
    reveal_strlit("0");
    reveal_strlit("1");
    assert(lines[3] =~= "ice-public"@ + seq![':', ' '] + flag);
    lemma_header_line(lines[3], "ice-public"@, flag);
    assert(lines[3].last() == flag[0]);
    lemma_is_line(lines[3]);

    // ice-name
    if name.len() > 0 {
        reveal_strlit("ice-name: ");
        reveal_strlit("ice-name");
        crate::text::lemma_words_are_words(target.stream_name, 0);
        crate::text::lemma_joined(crate::text::words(target.stream_name));
        assert(lines[4] =~= "ice-name"@ + seq![':', ' '] + name);
        lemma_header_line(lines[4], "ice-name"@, name);
        assert forall|k: int| 0 <= k < lines[4].len() implies #[trigger] lines[4][k] != '\n' by {
            if k >= 10 {
                assert(lines[4][k] == name[k - 10]);
            } else {
                assert(lines[4][k] == "ice-name: "@[k]);
            }
        }
        assert(lines[4].last() == name.last());
        lemma_is_line(lines[4]);
    }

    // What they name together.
    let l1 = lines.skip(1);
    let l2 = l1.skip(1);
    let l3 = l2.skip(1);
    let l4 = l3.skip(1);
    assert(l1[0] == lines[1] && l2[0] == lines[2] && l3[0] == lines[3]);
    let m0 = Map::<Seq<char>, Seq<char>>::empty();
    let m1 = m0.insert("authorization"@, auth);
    let m2 = m1.insert("content-type"@, content_type);
    let m3 = m2.insert(crate::text::lower("User-Agent"@), "azuracast-engine"@);
    let m4 = m3.insert(crate::text::lower("ice-public"@), flag);
    assert(crate::harbor::with_header_lines(m0, lines) == crate::harbor::with_header_lines(m1, l1));
    assert(crate::harbor::with_header_lines(m1, l1) == crate::harbor::with_header_lines(m2, l2));
    assert(crate::harbor::with_header_lines(m2, l2) == crate::harbor::with_header_lines(m3, l3));
    assert(crate::harbor::with_header_lines(m3, l3) == crate::harbor::with_header_lines(m4, l4));
    if name.len() > 0 {
        assert(l4[0] == lines[4]);
        let l5 = l4.skip(1);
        let m5 = m4.insert(crate::text::lower("ice-name"@), name);
        assert(crate::harbor::with_header_lines(m4, l4) == crate::harbor::with_header_lines(m5, l5));
        assert(crate::harbor::with_header_lines(m5, l5) == m5);
    } else {
        assert(crate::harbor::with_header_lines(m4, l4) == m4);
    }
}

/// The harbor reads back what a source request says.
proof fn lemma_request_reads_back(target: TargetView, encoded: Seq<char>, bytes: Seq<u8>)
    requires
        readable_target(target),
        encoded.len() > 0,
        crate::codec::is_base64_text(encoded),
        encoded == crate::codec::base64_encoded(
            vstd::utf8::encode_utf8(credentials_text(target)),
        ),
        bytes == vstd::utf8::encode_utf8(request_text(target, encoded)),
    ensures
        crate::harbor::handshake(bytes) == Ok::<crate::harbor::HandshakeView, Seq<char>>(
            announced(target),
        ),
{
    let lines = request_headers(target, encoded);
    lemma_request_line(target);
    lemma_request_headers(target, encoded);
    crate::harbor::lemma_written_request(bytes, request_line(target), lines);
    let auth = "Basic "@ + encoded;
    reveal_strlit("Basic ");
    assert(auth.take("Basic "@.len() as int) =~= "Basic "@);
    assert(auth.skip("Basic "@.len() as int) =~= encoded);
    assert(crate::codec::is_base64_char(encoded[0]));
    assert(crate::codec::is_base64_char(encoded[encoded.len() - 1]));
    crate::text::lemma_trim_is(encoded, 0);
    assert(encoded.skip(0) =~= encoded);
    let text = credentials_text(target);
    crate::codec::lemma_base64_decoded(vstd::utf8::encode_utf8(text));
    vstd::utf8::encode_utf8_valid_utf8(text);
    vstd::utf8::encode_utf8_decode_utf8(text);
    let at = target.username.len() as int;
    assert(text[at] == ':');
    assert forall|j: int| 0 <= j < at implies text[j] != ':' by {
        assert(text[j] == target.username[j]);
        assert(target.username.contains(target.username[j]));
    }
    crate::text::lemma_find_from_is(text, ':', 0, at);
    assert(text.take(at) =~= target.username);
    assert(text.skip(at + 1) =~= target.password);
}

/// What a target announces of itself: its mount, its credentials and its
/// content type.
pub open spec fn announced(target: TargetView) -> crate::harbor::HandshakeView {
    crate::harbor::HandshakeView {
        mount: target.mount,
        user: target.username,
        password: target.password,
        content_type: Some(target.format.content_type_text()),
    }
}

/// Builds the source request for `target`: the outbound counterpart of
/// [`crate::harbor::parse_handshake`], which accepts it and reads the same
/// mount, user, password and content type from it.
///
/// The station's name cannot add a line to the request, whatever white space
/// it holds.
pub fn build_source_request(target: &IcecastTarget) -> (request: Vec<u8>)
    requires
        credentials_fit(target@),
    ensures
        request@ == vstd::utf8::encode_utf8(
            request_text(
                target@,
                crate::codec::base64_encoded(vstd::utf8::encode_utf8(credentials_text(target@))),
            ),
        ),
        readable_target(target@) ==> crate::harbor::handshake(request@) == Ok::<
            crate::harbor::HandshakeView,
            Seq<char>,
        >(announced(target@)),
{
    let mut credentials = concat2(target.username.as_str(), ":");
    credentials.append(target.password.as_str());
    proof {
        reveal_strlit(":");
        assert(":"@ =~= seq![':']);
        assert(credentials@ =~= credentials_text(target@));
    }
    let encoded = base64_encode(credentials.as_str().as_bytes());
    let request = write_source_request(target, encoded.as_str());
    let bytes = request.as_str().as_bytes_vec();
    proof {
        if readable_target(target@) {
            crate::codec::lemma_base64_encoded(vstd::utf8::encode_utf8(credentials@));
            vstd::utf8::encode_utf8_first_scalar(credentials@);
            assert(vstd::utf8::encode_utf8(credentials@).len() > 0);
            lemma_request_reads_back(target@, encoded@, bytes@);
        }
    }
    bytes
}

/// Whatever the station's name is, it stays on its line: the flattened name
/// holds no carriage return, no line feed, and no other white space but single
/// spaces between words; and it is empty only where the name has no word.
pub proof fn law_station_name_stays_on_its_line(name: Seq<char>)
    ensures
        !crate::text::flattened(name).contains('\r'),
        !crate::text::flattened(name).contains('\n'),
        forall|k: int|
            0 <= k < crate::text::flattened(name).len() ==> (crate::text::is_white(
                #[trigger] crate::text::flattened(name)[k],
            ) ==> crate::text::flattened(name)[k] == ' '),
        crate::text::flattened(name).len() == 0 <==> crate::text::words(name).len() == 0,
{
    crate::text::lemma_words_are_words(name, 0);
    crate::text::lemma_joined(crate::text::words(name));
}

// ---------------------------------------------------------------------------
// The server's answer.

/// Whether the first line of an answer says that the source is accepted: one
/// of its words is `200`.
pub open spec fn accepts_source(line: Seq<char>) -> bool {
    crate::text::words(line).contains("200"@)
}

/// Whether the first line of an answer says that the source is accepted.
pub fn is_success_status_line(line: &str) -> (yes: bool)
    ensures
        yes == accepts_source(line@),
{
    has_word(line, "200")
}

/// The address of a target, as it is connected to and named in messages.
pub open spec fn address_text(target: TargetView) -> Seq<char> {
    target.host + ":"@ + crate::text::decimal(target.port as nat)
}

/// The address of a target.
pub fn target_address(target: &IcecastTarget) -> (address: String)
    ensures
        address@ == address_text(target@),
{
    let mut address = concat2(target.host.as_str(), ":");
    push_decimal(&mut address, target.port as u64);
    address
}

/// Judges the first line of the server's answer: the handshake goes on, or it
/// failed with this message.
pub fn check_status_line(target: &IcecastTarget, line: &str) -> (r: Result<(), String>)
    ensures
        match r {
            Ok(_) => accepts_source(line@),
            Err(e) => !accepts_source(line@) && e@ == "target "@ + address_text(target@)
                + target.mount@ + " rejected source request: "@ + crate::text::trim(line@),
        },
{
    if is_success_status_line(line) {
        Ok(())
    } else {
        let address = target_address(target);
        let mut e = concat2("target ", address.as_str());
        e.append(target.mount.as_str());
        e.append(" rejected source request: ");
        let what = trimmed(line);
        e.append(what.as_str());
        Err(e)
    }
}

/// Whether `line`, read with its line end, is the last one of a header block:
/// blank, or the end of the stream.
pub open spec fn ends_headers(line: Seq<char>) -> bool {
    line.len() == 0 || is_blank(line)
}

/// A line of nothing but its line end.
pub open spec fn is_blank(line: Seq<char>) -> bool {
    line == seq!['\r', '\n'] || line == seq!['\n']
}

/// Whether `line`, read with its line end, is blank.
pub fn is_blank_line(line: &str) -> (yes: bool)
    ensures
        yes == is_blank(line@),
{
    proof {
        reveal_strlit("\r\n");
        reveal_strlit("\n");
        assert("\r\n"@ =~= seq!['\r', '\n']);
        assert("\n"@ =~= seq!['\n']);
    }
    same_text(line, "\r\n") || same_text(line, "\n")
}

/// Whether the header block of the server's answer ends with `line`.
pub fn is_end_of_headers(line: &str) -> (yes: bool)
    ensures
        yes == ends_headers(line@),
{
    line.is_empty() || is_blank_line(line)
}

// ---------------------------------------------------------------------------
// Metadata over HTTP.

/// The URL of a target's metadata endpoint. A host with a colon in it is an
/// IPv6 address and stands in brackets.
pub open spec fn updinfo_url_text(target: TargetView) -> Seq<char> {
    let host = if target.host.contains(':') {
        "["@ + target.host + "]"@
    } else {
        target.host
    };
    "http://"@ + host + ":"@ + crate::text::decimal(target.port as nat) + "/admin/metadata"@
}

/// The URL of a target's metadata endpoint.
pub fn updinfo_url(target: &IcecastTarget) -> (url: String)
    ensures
        url@ == updinfo_url_text(target@),
{
    let mut url = "http://".to_owned();
    if contains_char(target.host.as_str(), ':') {
        let mut host = concat2("[", target.host.as_str());
        host.append("]");
        url.append(host.as_str());
    } else {
        url.append(target.host.as_str());
    }
    url.append(":");
    push_decimal(&mut url, target.port as u64);
    url.append("/admin/metadata");
    url
}

/// The query of a metadata update, as names and values.
pub open spec fn updinfo_query_texts(mount: Seq<char>, song: Seq<char>) -> Seq<
    (Seq<char>, Seq<char>),
> {
    seq![("mode"@, "updinfo"@), ("mount"@, mount), ("charset"@, "UTF-8"@), ("song"@, song)]
}

/// The query of a metadata update, as names and values.
pub fn updinfo_query(target: &IcecastTarget, song: &str) -> (query: Vec<(String, String)>)
    ensures
        query@.len() == 4,
        forall|i: int|
            0 <= i < 4 ==> ((#[trigger] query@[i]).0@, query@[i].1@) == updinfo_query_texts(
                target.mount@,
                song@,
            )[i],
{
    let mut query: Vec<(String, String)> = Vec::new();
    query.push(("mode".to_owned(), "updinfo".to_owned()));
    query.push(("mount".to_owned(), target.mount.clone()));
    query.push(("charset".to_owned(), "UTF-8".to_owned()));
    query.push(("song".to_owned(), song.to_owned()));
    query
}

// ---------------------------------------------------------------------------
// The targets of a station.

/// The target of the mount at position `idx`, unless its format is not known.
pub open spec fn mount_target(
    icecast: IcecastOutputConfig,
    mount: MountConfig,
    idx: int,
    station: Seq<char>,
) -> Option<TargetView> {
    match named_format(mount.format@) {
        Some(format) => Some(
            TargetView {
                host: icecast.host@,
                port: icecast.port,
                mount: mount.path@,
                username: DEFAULT_SOURCE_USERNAME@,
                password: icecast.source_password@,
                format,
                bitrate: mount.bitrate,
                is_public: mount.is_public,
                stream_name: station,
                label: "local mount #"@ + crate::text::decimal((idx + 1) as nat) + " "@
                    + mount.path@,
            },
        ),
        None => None,
    }
}

/// The target of the relay at position `idx`, unless its protocol is not
/// Icecast's or its format is not known.
pub open spec fn remote_target(remote: RemoteConfig, idx: int, station: Seq<char>) -> Option<
    TargetView,
> {
    if crate::text::lower(remote.protocol@) != "icecast"@ {
        None
    } else {
        match named_format(remote.format@) {
            Some(format) => Some(
                TargetView {
                    host: remote.host@,
                    port: remote.port,
                    mount: remote.mount@,
                    username: match remote.username {
                        Some(name) => name@,
                        None => DEFAULT_SOURCE_USERNAME@,
                    },
                    password: remote.password@,
                    format,
                    bitrate: remote.bitrate,
                    is_public: remote.is_public,
                    stream_name: station,
                    label: "remote relay #"@ + crate::text::decimal((idx + 1) as nat) + " "@
                        + remote.host@ + ":"@ + crate::text::decimal(remote.port as nat)
                        + remote.mount@,
                },
            ),
            None => None,
        }
    }
}

/// A list with one more target, if there is one.
pub open spec fn with_target(targets: Seq<TargetView>, more: Option<TargetView>) -> Seq<TargetView> {
    match more {
        Some(target) => targets.push(target),
        None => targets,
    }
}

/// The targets of the first `n` mounts.
pub open spec fn mount_targets(
    icecast: IcecastOutputConfig,
    mounts: Seq<MountConfig>,
    n: int,
    station: Seq<char>,
) -> Seq<TargetView>
    decreases n,
{
    if n <= 0 {
        Seq::empty()
    } else {
        with_target(
            mount_targets(icecast, mounts, n - 1, station),
            mount_target(icecast, mounts[n - 1], n - 1, station),
        )
    }
}

/// The targets of the first `n` relays.
pub open spec fn remote_targets(remotes: Seq<RemoteConfig>, n: int, station: Seq<char>) -> Seq<
    TargetView,
>
    decreases n,
{
    if n <= 0 {
        Seq::empty()
    } else {
        with_target(
            remote_targets(remotes, n - 1, station),
            remote_target(remotes[n - 1], n - 1, station),
        )
    }
}

/// All targets of a station: its mounts, if it has a local frontend, and then
/// its relays.
pub open spec fn station_targets<N>(cfg: EngineConfig<N>) -> Seq<TargetView> {
    (match cfg.icecast_output {
        Some(icecast) => mount_targets(
            icecast,
            cfg.mounts@,
            cfg.mounts@.len() as int,
            cfg.station.name@,
        ),
        None => Seq::empty(),
    }) + remote_targets(cfg.remotes@, cfg.remotes@.len() as int, cfg.station.name@)
}

/// The views of a list of targets.
pub open spec fn target_views(targets: Seq<IcecastTarget>) -> Seq<TargetView> {
    Seq::new(targets.len(), |i: int| targets[i]@)
}

/// Makes the target of one mount.
fn make_mount_target(
    icecast: &IcecastOutputConfig,
    mount: &MountConfig,
    idx: usize,
    station: &str,
) -> (target: Option<IcecastTarget>)
    requires
        idx < usize::MAX,
    ensures
        match target {
            Some(t) => mount_target(*icecast, *mount, idx as int, station@) == Some(t@),
            None => mount_target(*icecast, *mount, idx as int, station@) is None,
        },
{
    match OutputFormat::parse(mount.format.as_str()) {
        Some(format) => {
            let mut label = "local mount #".to_owned();
            push_decimal(&mut label, (idx + 1) as u64);
            label.append(" ");
            label.append(mount.path.as_str());
            Some(
                IcecastTarget {
                    host: icecast.host.clone(),
                    port: icecast.port,
                    mount: mount.path.clone(),
                    username: DEFAULT_SOURCE_USERNAME.to_owned(),
                    password: icecast.source_password.clone(),
                    format,
                    bitrate: mount.bitrate,
                    is_public: mount.is_public,
                    stream_name: station.to_owned(),
                    label,
                },
            )
        },
        None => None,
    }
}

/// Makes the target of one relay.
fn make_remote_target(remote: &RemoteConfig, idx: usize, station: &str) -> (target: Option<
    IcecastTarget,
>)
    requires
        idx < usize::MAX,
    ensures
        match target {
            Some(t) => remote_target(*remote, idx as int, station@) == Some(t@),
            None => remote_target(*remote, idx as int, station@) is None,
        },
{
    let protocol = lowered(remote.protocol.as_str());
    if !same_text(protocol.as_str(), "icecast") {
        return None;
    }
    match OutputFormat::parse(remote.format.as_str()) {
        Some(format) => {
            let mut label = "remote relay #".to_owned();
            push_decimal(&mut label, (idx + 1) as u64);
            label.append(" ");
            label.append(remote.host.as_str());
            label.append(":");
            push_decimal(&mut label, remote.port as u64);
            label.append(remote.mount.as_str());
            Some(
                IcecastTarget {
                    host: remote.host.clone(),
                    port: remote.port,
                    mount: remote.mount.clone(),
                    username: match &remote.username {
                        Some(name) => name.clone(),
                        None => DEFAULT_SOURCE_USERNAME.to_owned(),
                    },
                    password: remote.password.clone(),
                    format,
                    bitrate: remote.bitrate,
                    is_public: remote.is_public,
                    stream_name: station.to_owned(),
                    label,
                },
            )
        },
        None => None,
    }
}

/// Appends a target, if there is one.
fn push_target(targets: &mut Vec<IcecastTarget>, more: Option<IcecastTarget>)
    ensures
        target_views(final(targets)@) == with_target(
            target_views(old(targets)@),
            match more {
                Some(t) => Some(t@),
                None => None,
            },
        ),
{
    match more {
        Some(target) => {
            let ghost view = target@;
            targets.push(target);
            assert(target_views(targets@) =~= target_views(old(targets)@).push(view));
        },
        None => {},
    }
}

/// The outbound targets of a station: one per mount, if there is a local
/// frontend, and one per Icecast relay. An entry with an unknown format or
/// another protocol is left out, and the others are not affected.
pub fn build_targets<N>(cfg: &EngineConfig<N>) -> (targets: Vec<IcecastTarget>)
    ensures
        target_views(targets@) == station_targets(*cfg),
{
    let station = cfg.station.name.as_str();
    let mut targets: Vec<IcecastTarget> = Vec::new();
    assert(target_views(targets@) =~= Seq::<TargetView>::empty());
    match &cfg.icecast_output {
        Some(icecast) => {
            let mut i: usize = 0;
            while i < cfg.mounts.len()
                invariant
                    i <= cfg.mounts@.len(),
                    station@ == cfg.station.name@,
                    target_views(targets@) == mount_targets(
                        *icecast,
                        cfg.mounts@,
                        i as int,
                        station@,
                    ),
                decreases cfg.mounts@.len() - i,
            {
                push_target(&mut targets, make_mount_target(icecast, &cfg.mounts[i], i, station));
                i += 1;
            }
        },
        None => {},
    }
    let ghost local = target_views(targets@);
    let mut k: usize = 0;
    assert(local + remote_targets(cfg.remotes@, 0, station@) =~= local);
    while k < cfg.remotes.len()
        invariant
            k <= cfg.remotes@.len(),
            station@ == cfg.station.name@,
            target_views(targets@) == local + remote_targets(cfg.remotes@, k as int, station@),
        decreases cfg.remotes@.len() - k,
    {
        push_target(&mut targets, make_remote_target(&cfg.remotes[k], k, station));
        k += 1;
        assert(target_views(targets@) =~= local + remote_targets(cfg.remotes@, k as int, station@));
    }
    targets
}

// ---------------------------------------------------------------------------
// One connection.

/// What is said of a connection that took too long to come about.
pub fn handshake_timeout_message(target: &IcecastTarget) -> (message: String)
    ensures
        message@ == "handshake with "@ + address_text(target@) + " timed out after "@
            + crate::text::decimal(HANDSHAKE_TIMEOUT_SECS as nat) + "s"@,
{
    let address = target_address(target);
    let mut message = concat2("handshake with ", address.as_str());
    message.append(" timed out after ");
    push_decimal(&mut message, HANDSHAKE_TIMEOUT_SECS);
    message.append("s");
    message
}

/// The state of one connection: a series of encoder generations over a single
/// socket.
#[derive(Debug)]
pub struct OutputSession {
    /// The song that listeners have been told of.
    pub song: NowPlaying,
    /// Whether song changes can still arrive.
    pub watch_alive: bool,
    /// How many encoders were started on this connection.
    pub generation: u32,
}

/// Something that happens while an encoder runs.
#[derive(Debug)]
pub enum StreamEvent {
    /// The pipeline produced samples.
    Samples,
    /// Samples could not be handed to the encoder.
    WriteFailed,
    /// Samples were lost because this target was too slow.
    Lagged,
    /// The pipeline is gone.
    TapClosed,
    /// The current song was announced.
    SongChanged(NowPlaying),
    /// No song will be announced any more.
    WatchClosed,
    /// The encoder's output has ended.
    CopyDone,
    /// The encoder's output could not be sent.
    CopyFailed(String),
    /// Sending the encoder's output was aborted.
    CopyPanicked(String),
}

/// What is to be done about it.
#[derive(Debug)]
pub enum StreamAction {
    /// Hand the samples to the encoder.
    WriteSamples,
    /// Nothing: wait for the next event.
    Continue,
    /// Tell the server of this song over HTTP.
    PushMetadata(String),
    /// Let the encoder finish its link, then start the next one.
    RestartEncoder,
    /// The connection is over.
    Finish(Result<(), String>),
}

/// How the encoder's output ended after its input was closed.
#[derive(Debug)]
pub enum FlushEvent {
    /// Everything was sent.
    Flushed,
    /// The rest could not be sent.
    FlushFailed(String),
    /// Sending the rest was aborted.
    FlushPanicked(String),
    /// The encoder did not end in time.
    TimedOut,
}

/// `r` is a failure with this message.
pub open spec fn fails_with(r: Result<(), String>, message: Seq<char>) -> bool {
    r matches Err(e) && e@ == message
}

/// What follows from an event while an encoder runs. Only a change to another
/// song matters: formats with in-band metadata restart their encoder for it,
/// and the others announce it over HTTP, if there is anything to announce.
pub open spec fn stream_step(
    before: OutputSession,
    target: IcecastTarget,
    event: StreamEvent,
    after: OutputSession,
    action: StreamAction,
) -> bool {
    match event {
        StreamEvent::SongChanged(song) => {
            &&& after.watch_alive == before.watch_alive
            &&& after.generation == before.generation
            &&& if song@ == before.song@ {
                after.song@ == before.song@ && action is Continue
            } else {
                &&& after.song@ == song@
                &&& if target.format.is_inband() {
                    action is RestartEncoder
                } else {
                    match song_text(song@) {
                        Some(text) => action matches StreamAction::PushMetadata(t) && t@ == text,
                        None => action is Continue,
                    }
                }
            }
        },
        StreamEvent::WatchClosed => {
            &&& after.song@ == before.song@
            &&& after.generation == before.generation
            &&& !after.watch_alive
            &&& action is Continue
        },
        _ => {
            &&& after == before
            &&& match event {
                StreamEvent::Samples => action is WriteSamples,
                StreamEvent::WriteFailed => action matches StreamAction::Finish(r) && fails_with(
                    r,
                    "ffmpeg stdin write failed (encoder died?)"@,
                ),
                StreamEvent::Lagged => action is Continue,
                StreamEvent::TapClosed | StreamEvent::CopyDone => action
                    matches StreamAction::Finish(r) && r is Ok,
                StreamEvent::CopyFailed(e) => action matches StreamAction::Finish(r) && fails_with(
                    r,
                    "stream copy to "@ + target.label@ + " ended: "@ + e@,
                ),
                StreamEvent::CopyPanicked(e) => action matches StreamAction::Finish(r)
                    && fails_with(r, "stream copy task panicked: "@ + e@),
                _ => true,
            }
        },
    }
}

impl OutputSession {
    /// A fresh connection, which already told its listeners of `song`.
    pub fn new(song: NowPlaying) -> (session: OutputSession)
        ensures
            session.song == song,
            session.watch_alive,
            session.generation == 0,
    {
        OutputSession { song, watch_alive: true, generation: 0 }
    }

    /// The arguments of the next encoder on this connection. Each generation
    /// has a serial offset of its own, one up from the last (wrapping around).
    pub fn next_encoder(
        &mut self,
        target: &IcecastTarget,
        sample_rate: u32,
        channels: u16,
    ) -> (args: Vec<String>)
        ensures
            crate::text::texts(args@) == encoder_flags(
                target.format,
                target.bitrate as nat,
                sample_rate as nat,
                channels as nat,
                old(self).song@,
                old(self).generation as nat,
            ),
            final(self).song == old(self).song,
            final(self).watch_alive == old(self).watch_alive,
            final(self).generation == (old(self).generation + 1) % 0x1_0000_0000,
    {
        let args = ffmpeg_args(
            target.format,
            target.bitrate,
            sample_rate,
            channels,
            &self.song,
            self.generation,
        );
        self.generation = self.generation.wrapping_add(1);
        args
    }

    /// Decides what an event means while an encoder runs.
    pub fn on_stream_event(&mut self, target: &IcecastTarget, event: StreamEvent) -> (action:
        StreamAction)
        ensures
            stream_step(*old(self), *target, event, *final(self), action),
    {
        match event {
            StreamEvent::Samples => StreamAction::WriteSamples,
            StreamEvent::WriteFailed => StreamAction::Finish(
                Err("ffmpeg stdin write failed (encoder died?)".to_owned()),
            ),
            StreamEvent::Lagged => StreamAction::Continue,
            StreamEvent::TapClosed => StreamAction::Finish(Ok(())),
            StreamEvent::SongChanged(song) => {
                if song.same_song(&self.song) {
                    return StreamAction::Continue;
                }
                let text = song.song_string();
                self.song = song;
                if target.format.inband_metadata() {
                    return StreamAction::RestartEncoder;
                }
                match text {
                    Some(text) => StreamAction::PushMetadata(text),
                    None => StreamAction::Continue,
                }
            },
            StreamEvent::WatchClosed => {
                self.watch_alive = false;
                StreamAction::Continue
            },
            StreamEvent::CopyDone => StreamAction::Finish(Ok(())),
            StreamEvent::CopyFailed(e) => {
                let mut message = concat2("stream copy to ", target.label.as_str());
                message.append(" ended: ");
                message.append(e.as_str());
                StreamAction::Finish(Err(message))
            },
            StreamEvent::CopyPanicked(e) => StreamAction::Finish(
                Err(concat2("stream copy task panicked: ", e.as_str())),
            ),
        }
    }
}

/// Decides whether the next encoder can start once the last one was flushed;
/// where it cannot, the connection failed with this message.
pub fn after_flush(event: FlushEvent) -> (r: Result<(), String>)
    ensures
        match event {
            FlushEvent::Flushed => r is Ok,
            FlushEvent::FlushFailed(e) => fails_with(
                r,
                "connection ended during encoder restart: "@ + e@,
            ),
            FlushEvent::FlushPanicked(e) => fails_with(r, "stream copy task panicked: "@ + e@),
            FlushEvent::TimedOut => fails_with(
                r,
                "encoder did not flush within "@ + crate::text::decimal(
                    ENCODER_FLUSH_TIMEOUT_SECS as nat,
                ) + "s during metadata restart"@,
            ),
        },
{
    match event {
        FlushEvent::Flushed => Ok(()),
        FlushEvent::FlushFailed(e) => Err(
            concat2("connection ended during encoder restart: ", e.as_str()),
        ),
        FlushEvent::FlushPanicked(e) => Err(concat2("stream copy task panicked: ", e.as_str())),
        FlushEvent::TimedOut => {
            let mut message = "encoder did not flush within ".to_owned();
            push_decimal(&mut message, ENCODER_FLUSH_TIMEOUT_SECS);
            message.append("s during metadata restart");
            Err(message)
        },
    }
}

/// The number by which an encoder tells its link of a chained stream from
/// others: the value of `-serial_offset`, which stands before the last three
/// arguments.
pub open spec fn serial_argument(flags: Seq<Seq<char>>) -> Option<Seq<char>> {
    if flags.len() >= 5 && flags[flags.len() - 5] == "-serial_offset"@ {
        Some(flags[flags.len() - 4])
    } else {
        None
    }
}

/// Whatever their songs are, two links of a chained stream with different
/// numbers are told apart on their encoders' command lines; and each link's
/// number differs from the one before it.
pub proof fn law_links_have_distinct_serials(
    format: OutputFormat,
    bitrate_kbps: nat,
    sample_rate: nat,
    channels: nat,
    song_a: SongView,
    a: u32,
    song_b: SongView,
    b: u32,
)
    requires
        format.is_inband(),
        a != b,
    ensures
        ({
            let first = serial_argument(
                encoder_flags(format, bitrate_kbps, sample_rate, channels, song_a, a as nat),
            );
            let second = serial_argument(
                encoder_flags(format, bitrate_kbps, sample_rate, channels, song_b, b as nat),
            );
            &&& first == Some(crate::text::decimal(a as nat))
            &&& second == Some(crate::text::decimal(b as nat))
            &&& first != second
        }),
        (a + 1) % 0x1_0000_0000 != a,
{
    crate::text::lemma_decimal_injective(a as nat, b as nat);
    lemma_serial_argument(format, bitrate_kbps, sample_rate, channels, song_a, a as nat);
    lemma_serial_argument(format, bitrate_kbps, sample_rate, channels, song_b, b as nat);
}

proof fn lemma_serial_argument(
    format: OutputFormat,
    bitrate_kbps: nat,
    sample_rate: nat,
    channels: nat,
    song: SongView,
    serial: nat,
)
    requires
        format.is_inband(),
    ensures
        serial_argument(
            encoder_flags(format, bitrate_kbps, sample_rate, channels, song, serial),
        ) == Some(crate::text::decimal(serial)),
{
    let flags = encoder_flags(format, bitrate_kbps, sample_rate, channels, song, serial);
    let front = input_flags(sample_rate, channels) + codec_flags(format, bitrate_kbps)
        + metadata_flags("title="@, song.title) + metadata_flags("artist="@, song.artist);
    let back = seq![
        "-serial_offset"@,
        crate::text::decimal(serial),
        "-f"@,
        format.container_text(),
        "pipe:1"@,
    ];
    assert(flags =~= front + back);
    assert(flags[flags.len() - 5] == back[0]);
    assert(flags[flags.len() - 4] == back[1]);
}

/// A song that was already announced causes nothing at all.
pub proof fn law_same_song_is_not_announced_again(
    before: OutputSession,
    target: IcecastTarget,
    song: NowPlaying,
    after: OutputSession,
    action: StreamAction,
)
    requires
        stream_step(before, target, StreamEvent::SongChanged(song), after, action),
        song@ == before.song@,
    ensures
        action is Continue,
        after.song@ == before.song@,
        after.generation == before.generation,
{
}

/// The encoder is restarted for metadata only where song titles travel inside
/// the stream, and HTTP updates go out only where they do not.
pub proof fn law_metadata_takes_one_way(
    before: OutputSession,
    target: IcecastTarget,
    event: StreamEvent,
    after: OutputSession,
    action: StreamAction,
)
    requires
        stream_step(before, target, event, after, action),
    ensures
        action is RestartEncoder ==> target.format.is_inband(),
        action is PushMetadata ==> !target.format.is_inband(),
        action is RestartEncoder || action is PushMetadata ==> after.song@ != before.song@,
{
}

} // verus!
