//! The callbacks by which the engine asks the station's web application for
//! tracks, decisions and bookkeeping, and what it makes of their answers.

use vstd::prelude::*;

use crate::codec::{json_flag_of, json_string_of};
use crate::config::CallbacksConfig;
use crate::text::{chars_of, push_decimal, string_of};

verus! {

broadcast use vstd::string::group_string_axioms;

/// Seconds that a callback may take.
pub const DEFAULT_TIMEOUT_SECS: u64 = 10;

/// Seconds that `auth` may take.
pub const AUTH_TIMEOUT_SECS: u64 = 5;

/// Seconds that `savecache` may take.
pub const SAVECACHE_TIMEOUT_SECS: u64 = 5;

/// The answer to `nextsong`.
#[derive(Debug)]
pub struct NextSongResponse {
    pub uri: String,
}

/// The answer to `auth`.
#[derive(Debug)]
pub struct DjAuthResponse {
    pub allow: bool,
    pub username: Option<String>,
    pub display_name: Option<String>,
}

impl Default for DjAuthResponse {
    fn default() -> (r: DjAuthResponse)
        ensures
            !r.allow,
            r.username is None,
            r.display_name is None,
    {
        DjAuthResponse { allow: false, username: None, display_name: None }
    }
}

/// What `feedback` is told of a track. Absent fields are left out.
#[derive(Debug)]
pub struct FeedbackPayload {
    pub song_id: Option<String>,
    pub media_id: Option<String>,
    pub playlist_id: Option<String>,
    pub sq_id: Option<String>,
    pub artist: Option<String>,
    pub title: Option<String>,
}

impl Default for FeedbackPayload {
    fn default() -> (p: FeedbackPayload)
        ensures
            p.song_id is None,
            p.media_id is None,
            p.playlist_id is None,
            p.sq_id is None,
            p.artist is None,
            p.title is None,
    {
        FeedbackPayload {
            song_id: None,
            media_id: None,
            playlist_id: None,
            sq_id: None,
            artist: None,
            title: None,
        }
    }
}

/// The answer to `cp`.
#[derive(Debug)]
pub struct CpResponse {
    pub uri: String,
    pub is_temp: bool,
}

/// `s` without the slashes at its end.
pub open spec fn without_slashes(s: Seq<char>) -> Seq<char>
    decreases s.len(),
{
    if s.len() > 0 && s.last() == '/' {
        without_slashes(s.drop_last())
    } else {
        s
    }
}

/// An integer in decimal, with a sign where it is negative.
pub open spec fn signed_decimal(n: int) -> Seq<char> {
    if n < 0 {
        seq!['-'] + crate::text::decimal((-n) as nat)
    } else {
        crate::text::decimal(n as nat)
    }
}

/// Appends an integer in decimal.
fn push_signed(s: &mut String, n: i64)
    ensures
        final(s)@ == old(s)@ + signed_decimal(n as int),
{
    if n < 0 {
        s.push('-');
        let magnitude: u64 = if n == i64::MIN {
            0x8000_0000_0000_0000
        } else {
            (-n) as u64
        };
        push_decimal(s, magnitude);
        assert(s@ =~= old(s)@ + signed_decimal(n as int));
    } else {
        push_decimal(s, n as u64);
    }
}

/// The URL of a callback. Slashes at the end of the base URL do not count.
pub open spec fn callback_url(base_url: Seq<char>, station_id: int, action: Seq<char>) -> Seq<char> {
    without_slashes(base_url) + "/api/internal/"@ + signed_decimal(station_id) + "/liquidsoap/"@
        + action
}

/// The URL of a callback.
pub fn endpoint(cfg: &CallbacksConfig, action: &str) -> (url: String)
    ensures
        url@ == callback_url(cfg.base_url@, cfg.station_id as int, action@),
{
    let chars = chars_of(cfg.base_url.as_str());
    let mut end: usize = chars.len();
    assert(chars@.take(end as int) =~= chars@);
    while end > 0 && chars[end - 1] == '/'
        invariant
            end <= chars@.len(),
            without_slashes(chars@.take(end as int)) == without_slashes(chars@),
        decreases end,
    {
        assert(chars@.take(end as int).drop_last() =~= chars@.take(end - 1));
        end -= 1;
    }
    let mut url = string_of(&chars, 0, end);
    assert(url@ =~= chars@.take(end as int));
    url.append("/api/internal/");
    push_signed(&mut url, cfg.station_id);
    url.append("/liquidsoap/");
    url.append(action);
    url
}

/// Judges the HTTP status of an answer: only 200 is success, and anything else
/// is a failure with this message. `status` is the status as it is shown.
pub fn check_status(url: &str, code: u16, status: &str) -> (r: Result<(), String>)
    ensures
        match r {
            Ok(_) => code == 200,
            Err(e) => code != 200 && e@ == url@ + " returned non-200 status: "@ + status@,
        },
{
    if code == 200 {
        Ok(())
    } else {
        let mut e = url.to_owned();
        e.append(" returned non-200 status: ");
        e.append(status);
        Err(e)
    }
}

/// The callbacks.
#[derive(Debug, Clone, Copy, PartialEq, Eq, Structural)]
pub enum Callback {
    NextSong,
    Auth,
    DjOn,
    DjOff,
    Feedback,
    Cp,
    SaveCache,
}

impl Callback {
    /// The name of the callback in its URL.
    pub open spec fn action_text(self) -> Seq<char> {
        match self {
            Callback::NextSong => "nextsong"@,
            Callback::Auth => "auth"@,
            Callback::DjOn => "djon"@,
            Callback::DjOff => "djoff"@,
            Callback::Feedback => "feedback"@,
            Callback::Cp => "cp"@,
            Callback::SaveCache => "savecache"@,
        }
    }

    /// The name of the callback in its URL.
    pub fn action(self) -> (s: &'static str)
        ensures
            s@ == self.action_text(),
    {
        match self {
            Callback::NextSong => "nextsong",
            Callback::Auth => "auth",
            Callback::DjOn => "djon",
            Callback::DjOff => "djoff",
            Callback::Feedback => "feedback",
            Callback::Cp => "cp",
            Callback::SaveCache => "savecache",
        }
    }

    /// Seconds that the callback may take. `cp` is given its own limit by the
    /// caller.
    pub fn timeout_secs(self, cp_timeout_secs: u64) -> (secs: u64)
        ensures
            secs == match self {
                Callback::Auth => AUTH_TIMEOUT_SECS,
                Callback::SaveCache => SAVECACHE_TIMEOUT_SECS,
                Callback::Cp => cp_timeout_secs,
                _ => DEFAULT_TIMEOUT_SECS,
            },
    {
        match self {
            Callback::Auth => AUTH_TIMEOUT_SECS,
            Callback::SaveCache => SAVECACHE_TIMEOUT_SECS,
            Callback::Cp => cp_timeout_secs,
            _ => DEFAULT_TIMEOUT_SECS,
        }
    }
}

/// What is said of an answer that could not be read.
pub fn unreadable_answer(callback: Callback, error: &str, body: &str) -> (message: String)
    ensures
        message@ == "failed to parse "@ + callback.action_text() + " response: "@ + error@
            + " (body: "@ + body@ + ")"@,
{
    let mut message = "failed to parse ".to_owned();
    message.append(callback.action());
    message.append(" response: ");
    message.append(error);
    message.append(" (body: ");
    message.append(body);
    message.append(")");
    message
}

/// Reads the answer to a callback that is answered by a boolean.
pub fn read_flag_answer(callback: Callback, body: &str) -> (r: Result<bool, String>)
    ensures
        match crate::codec::json_flag(body@) {
            Ok(flag) => r matches Ok(x) && x == flag,
            Err(e) => r matches Err(m) && m@ == "failed to parse "@ + callback.action_text()
                + " response: "@ + e + " (body: "@ + body@ + ")"@,
        },
{
    proof {
        crate::codec::lemma_json_flag_is_one(body@);
    }
    match json_flag_of(body) {
        Ok(flag) => Ok(flag),
        Err(e) => Err(unreadable_answer(callback, e.as_str(), body)),
    }
}

// ---------------------------------------------------------------------------
// Bodies.

/// One member of a JSON object.
pub open spec fn json_member(name: Seq<char>, value: Seq<char>) -> Seq<char> {
    seq!['"'] + name + seq!['"', ':'] + value
}

/// A JSON object of these members.
pub open spec fn json_object(members: Seq<Seq<char>>) -> Seq<char> {
    seq!['{'] + comma_separated(members) + seq!['}']
}

/// Texts with commas between them.
pub open spec fn comma_separated(parts: Seq<Seq<char>>) -> Seq<char>
    decreases parts.len(),
{
    if parts.len() == 0 {
        Seq::empty()
    } else if parts.len() == 1 {
        parts[0]
    } else {
        comma_separated(parts.drop_last()) + seq![','] + parts.last()
    }
}

/// A member whose value is a text.
pub open spec fn text_member(name: Seq<char>, text: Seq<char>) -> Seq<char> {
    json_member(name, crate::codec::json_string(text))
}

/// A list of members with one more, if there is a text for it.
pub open spec fn with_text(
    members: Seq<Seq<char>>,
    name: Seq<char>,
    text: Option<Seq<char>>,
) -> Seq<Seq<char>> {
    match text {
        Some(t) => members.push(text_member(name, t)),
        None => members,
    }
}

/// An object that is being written.
struct JsonWriter {
    text: String,
    started: bool,
}

impl JsonWriter {
    /// Whether these members have been written.
    spec fn holds(self, members: Seq<Seq<char>>) -> bool {
        &&& self.text@ == seq!['{'] + comma_separated(members)
        &&& self.started == (members.len() > 0)
    }

    fn new() -> (w: JsonWriter)
        ensures
            w.holds(Seq::empty()),
    {
        let w = JsonWriter { text: "{".to_owned(), started: false };
        proof {
            reveal_strlit("{");
            assert(w.text@ =~= seq!['{'] + comma_separated(Seq::empty()));
        }
        w
    }

    /// Writes one more member. `value` is JSON already.
    fn member(&mut self, name: &str, value: &str, Ghost(members): Ghost<Seq<Seq<char>>>)
        requires
            old(self).holds(members),
        ensures
            final(self).holds(members.push(json_member(name@, value@))),
    {
        if self.started {
            self.text.push(',');
        }
        self.text.push('"');
        self.text.append(name);
        self.text.push('"');
        self.text.push(':');
        self.text.append(value);
        self.started = true;
        proof {
            let more = members.push(json_member(name@, value@));
            assert(more.drop_last() =~= members);
            assert(self.text@ =~= seq!['{'] + comma_separated(more));
        }
    }

    fn finish(self, Ghost(members): Ghost<Seq<Seq<char>>>) -> (text: String)
        requires
            self.holds(members),
        ensures
            text@ == json_object(members),
    {
        let mut text = self.text;
        text.push('}');
        assert(text@ =~= json_object(members));
        text
    }

    /// Writes one more member whose value is a text, if there is one.
    fn optional_text(
        &mut self,
        name: &str,
        text: &Option<String>,
        Ghost(members): Ghost<Seq<Seq<char>>>,
    )
        requires
            old(self).holds(members),
        ensures
            final(self).holds(with_text(members, name@, crate::text::opt_view(*text))),
    {
        match text {
            Some(t) => {
                let value = json_string_of(t.as_str());
                self.member(name, value.as_str(), Ghost(members));
            },
            None => {},
        }
    }
}

/// An object with one text in it.
fn one_text_body(name: &str, text: &str) -> (body: String)
    ensures
        body@ == json_object(seq![text_member(name@, text@)]),
{
    let ghost none: Seq<Seq<char>> = Seq::empty();
    let ghost one = none.push(text_member(name@, text@));
    let mut w = JsonWriter::new();
    let value = json_string_of(text);
    w.member(name, value.as_str(), Ghost(none));
    assert(one =~= seq![text_member(name@, text@)]);
    w.finish(Ghost(one))
}

/// The body that says which DJ went on or off.
pub fn user_body(user: &str) -> (body: String)
    ensures
        body@ == json_object(seq![text_member("user"@, user@)]),
{
    one_text_body("user", user)
}

/// The body that asks for a local copy of a track.
pub fn uri_body(uri: &str) -> (body: String)
    ensures
        body@ == json_object(seq![text_member("uri"@, uri@)]),
{
    one_text_body("uri", uri)
}

/// The body that asks whether a DJ may go live. Members are in the order of
/// their names.
pub fn auth_body(user: &str, password: &str) -> (body: String)
    ensures
        body@ == json_object(
            seq![text_member("password"@, password@), text_member("user"@, user@)],
        ),
{
    let ghost none: Seq<Seq<char>> = Seq::empty();
    let ghost first = none.push(text_member("password"@, password@));
    let ghost both = first.push(text_member("user"@, user@));
    let mut w = JsonWriter::new();
    let value = json_string_of(password);
    w.member("password", value.as_str(), Ghost(none));
    let value = json_string_of(user);
    w.member("user", value.as_str(), Ghost(first));
    assert(both =~= seq![text_member("password"@, password@), text_member("user"@, user@)]);
    w.finish(Ghost(both))
}

/// The body that stores what was computed of a track; `data` is JSON already.
pub fn savecache_body(cache_key: &str, data: &str) -> (body: String)
    ensures
        body@ == json_object(
            seq![text_member("cache_key"@, cache_key@), json_member("data"@, data@)],
        ),
{
    let ghost none: Seq<Seq<char>> = Seq::empty();
    let ghost first = none.push(text_member("cache_key"@, cache_key@));
    let ghost both = first.push(json_member("data"@, data@));
    let mut w = JsonWriter::new();
    let value = json_string_of(cache_key);
    w.member("cache_key", value.as_str(), Ghost(none));
    w.member("data", data, Ghost(first));
    assert(both =~= seq![text_member("cache_key"@, cache_key@), json_member("data"@, data@)]);
    w.finish(Ghost(both))
}

/// The members of a report: what is known of the track, and nothing of what is
/// not.
pub open spec fn feedback_members(payload: FeedbackPayload) -> Seq<Seq<char>> {
    let m0 = Seq::<Seq<char>>::empty();
    let m1 = with_text(m0, "song_id"@, crate::text::opt_view(payload.song_id));
    let m2 = with_text(m1, "media_id"@, crate::text::opt_view(payload.media_id));
    let m3 = with_text(m2, "playlist_id"@, crate::text::opt_view(payload.playlist_id));
    let m4 = with_text(m3, "sq_id"@, crate::text::opt_view(payload.sq_id));
    let m5 = with_text(m4, "artist"@, crate::text::opt_view(payload.artist));
    with_text(m5, "title"@, crate::text::opt_view(payload.title))
}

/// The body that reports what is playing.
pub fn feedback_body(payload: &FeedbackPayload) -> (body: String)
    ensures
        body@ == json_object(feedback_members(*payload)),
{
    let ghost m0 = Seq::<Seq<char>>::empty();
    let ghost m1 = with_text(m0, "song_id"@, crate::text::opt_view(payload.song_id));
    let ghost m2 = with_text(m1, "media_id"@, crate::text::opt_view(payload.media_id));
    let ghost m3 = with_text(m2, "playlist_id"@, crate::text::opt_view(payload.playlist_id));
    let ghost m4 = with_text(m3, "sq_id"@, crate::text::opt_view(payload.sq_id));
    let ghost m5 = with_text(m4, "artist"@, crate::text::opt_view(payload.artist));
    let mut w = JsonWriter::new();
    w.optional_text("song_id", &payload.song_id, Ghost(m0));
    w.optional_text("media_id", &payload.media_id, Ghost(m1));
    w.optional_text("playlist_id", &payload.playlist_id, Ghost(m2));
    w.optional_text("sq_id", &payload.sq_id, Ghost(m3));
    w.optional_text("artist", &payload.artist, Ghost(m4));
    w.optional_text("title", &payload.title, Ghost(m5));
    w.finish(Ghost(feedback_members(*payload)))
}

} // verus!
