//! Live DJs: how they come in, and how they leave.

use vstd::prelude::*;
use vstd::utf8::*;

use crate::callbacks::DjAuthResponse;
use crate::harbor::{
    check_admission, check_auth, finish_handshake, on_session_event, parse_handshake,
    parse_request_head, response_text, HarborHandshake, HeaderBlock, LiveSession, LiveState,
    Rejection, RequestHead, SessionAction, SessionEvent,
};
use crate::output::{build_source_request, IcecastTarget, OutputFormat};

verus! {

broadcast use vstd::string::group_string_axioms;

// ---------------------------------------------------------------------------
// The handshake.

/// A line of three words.
pub open spec fn three_words(a: Seq<char>, b: Seq<char>, c: Seq<char>) -> Seq<char> {
    a + seq![' '] + b + seq![' '] + c
}

proof fn lemma_three_words(a: Seq<char>, b: Seq<char>, c: Seq<char>)
    requires
        crate::text::is_word(a),
        crate::text::is_word(b),
        crate::text::is_word(c),
    ensures
        crate::text::words(three_words(a, b, c)).len() >= 2,
        crate::text::words(three_words(a, b, c))[0] == a,
        crate::text::words(three_words(a, b, c))[1] == b,
        crate::harbor::is_line(three_words(a, b, c)),
{
    let line = three_words(a, b, c);
    let n = a.len() as int;
    let m = n + 1 + b.len();
    assert forall|k: int| 0 <= k < n implies !crate::text::is_white(#[trigger] line[k]) by {
        assert(line[k] == a[k]);
    }
    assert(line[n] == ' ');
    assert forall|k: int| n + 1 <= k < m implies !crate::text::is_white(#[trigger] line[k]) by {
        assert(line[k] == b[k - n - 1]);
    }
    assert(line[m] == ' ');
    crate::text::lemma_first_word(line, 0, 0, n);
    crate::text::lemma_first_word(line, n, n + 1, m);
    assert(line.subrange(0, n) =~= a);
    assert(line.subrange(n + 1, m) =~= b);
    assert forall|k: int| 0 <= k < line.len() implies #[trigger] line[k] != '\n' by {
        if k < n {
            assert(line[k] == a[k]);
        } else if n < k < m {
            assert(line[k] == b[k - n - 1]);
        } else if m < k {
            assert(line[k] == c[k - m - 1]);
        }
    }
    assert(line.last() == c[c.len() - 1]);
    crate::output::lemma_is_line(line);
}

/// A source client is read by its words: `SOURCE` or `PUT`, and a mount that
/// begins with a slash. Anything else is refused. The credentials are what
/// follows `Basic`, and a client that names no content type has none.
pub proof fn law_source_clients_are_read_by_their_words(
    bytes: &[u8],
    method: Seq<char>,
    mount: Seq<char>,
    protocol: Seq<char>,
    credentials: Seq<char>,
    r: Result<RequestHead, String>,
)
    requires
        crate::text::is_word(method),
        crate::text::is_word(mount),
        crate::text::is_word(protocol),
        crate::text::is_word(credentials),
        bytes@ == encode_utf8(
            three_words(method, mount, protocol) + seq!['\r', '\n'] + ("Authorization: Basic "@
                + credentials) + seq!['\r', '\n'] + seq!['\r', '\n'],
        ),
        call_ensures(parse_request_head, (bytes,), r),
    ensures
        r is Ok <==> (method == "SOURCE"@ || method == "PUT"@) && mount[0] == '/',
        r is Ok ==> {
            &&& r->Ok_0.mount@ == mount
            &&& r->Ok_0.credentials@ == credentials
            &&& r->Ok_0.content_type is None
        },
{
    let line = three_words(method, mount, protocol);
    let auth_line = "Authorization: Basic "@ + credentials;
    let lines = seq![auth_line];
    lemma_three_words(method, mount, protocol);
    lemma_auth_line(credentials);
    assert(crate::harbor::crlf_lines(seq![line] + lines) + seq!['\r', '\n'] =~= line + seq![
        '\r',
        '\n',
    ] + auth_line + seq!['\r', '\n'] + seq!['\r', '\n']) by {
        assert((seq![line] + lines).skip(1) =~= lines);
        assert(lines.skip(1) =~= Seq::<Seq<char>>::empty());
        assert(crate::harbor::crlf_lines(lines.skip(1)) =~= Seq::<char>::empty());
        assert(crate::harbor::crlf_lines(lines) =~= auth_line + seq!['\r', '\n']);
    }
    assert forall|k: int| 0 <= k < lines.len() implies crate::harbor::is_line(#[trigger] lines[k])
        && lines[k].contains(':') by {}
    crate::harbor::lemma_written_request(bytes@, line, lines);
    let found = crate::harbor::with_header_lines(Map::empty(), lines);
    let auth = "Basic "@ + credentials;
    assert(found =~= Map::<Seq<char>, Seq<char>>::empty().insert("authorization"@, auth)) by {
        assert(lines.skip(1) =~= Seq::<Seq<char>>::empty());
        let next = Map::<Seq<char>, Seq<char>>::empty().insert("authorization"@, auth);
        assert(crate::harbor::with_header_lines(next, lines.skip(1)) == next);
        assert(crate::harbor::with_header_lines(Map::empty(), lines)
            == crate::harbor::with_header_lines(next, lines.skip(1)));
    }
    lemma_basic(credentials);
    reveal_strlit("authorization");
    reveal_strlit("content-type");
    assert("authorization"@.len() == 13 && "content-type"@.len() == 12);
}

/// The line of the credentials names them.
proof fn lemma_auth_line(credentials: Seq<char>)
    requires
        crate::text::is_word(credentials),
    ensures
        ({
            let line = "Authorization: Basic "@ + credentials;
            &&& crate::harbor::is_line(line)
            &&& line.contains(':')
            &&& crate::text::split_once(line, ':') matches Some((n, v)) && crate::text::lower(
                crate::text::trim(n),
            ) == "authorization"@ && crate::text::trim(v) == "Basic "@ + credentials
        }),
{
    let line = "Authorization: Basic "@ + credentials;
    reveal_strlit("Authorization: Basic ");
    reveal_strlit("Authorization");
    reveal_strlit("authorization");
    reveal_strlit("Basic ");
    let auth = "Basic "@ + credentials;
    assert(line =~= "Authorization"@ + seq![':', ' '] + auth);
    assert(auth[0] == 'B');
    assert(auth.last() == credentials[credentials.len() - 1]);
    crate::output::lemma_header_line(line, "Authorization"@, auth);
    assert(crate::text::lower("Authorization"@) =~= "authorization"@);
    assert forall|k: int| 0 <= k < line.len() implies #[trigger] line[k] != '\n' by {
        if k >= 21 {
            assert(line[k] == credentials[k - 21]);
        } else {
            assert(line[k] == "Authorization: Basic "@[k]);
        }
    }
    assert(line.last() == credentials[credentials.len() - 1]);
    crate::output::lemma_is_line(line);
}

/// What follows `Basic` are the credentials.
proof fn lemma_basic(credentials: Seq<char>)
    requires
        crate::text::is_word(credentials),
    ensures
        ({
            let auth = "Basic "@ + credentials;
            &&& crate::text::has_prefix(auth, "Basic "@)
            &&& crate::text::trim(auth.skip("Basic "@.len() as int)) == credentials
        }),
{
    let auth = "Basic "@ + credentials;
    reveal_strlit("Basic ");
    assert(auth.take("Basic "@.len() as int) =~= "Basic "@);
    assert(auth.skip("Basic "@.len() as int) =~= credentials);
    assert(!crate::text::is_white(credentials[0]));
    assert(!crate::text::is_white(credentials[credentials.len() - 1]));
    crate::text::lemma_trim_is(credentials, 0);
    assert(credentials.skip(0) =~= credentials);
}

/// A header is known by its name in any letter case, and the last one of a name
/// counts.
pub proof fn law_the_last_header_of_a_name_counts(
    bytes: &[u8],
    mount: Seq<char>,
    credentials: Seq<char>,
    first_name: Seq<char>,
    first: Seq<char>,
    second_name: Seq<char>,
    second: Seq<char>,
    r: Result<RequestHead, String>,
)
    requires
        crate::text::is_word(mount),
        mount[0] == '/',
        crate::text::is_word(credentials),
        crate::text::is_word(first_name),
        crate::text::is_word(second_name),
        !first_name.contains(':'),
        !second_name.contains(':'),
        crate::text::lower(first_name) == "content-type"@,
        crate::text::lower(second_name) == "content-type"@,
        crate::text::is_word(first),
        crate::text::is_word(second),
        bytes@ == encode_utf8(
            crate::harbor::crlf_lines(
                seq![
                    three_words("SOURCE"@, mount, "ICE/1.0"@),
                    "Authorization: Basic "@ + credentials,
                    first_name + seq![':', ' '] + first,
                    second_name + seq![':', ' '] + second,
                ],
            ) + seq!['\r', '\n'],
        ),
        call_ensures(parse_request_head, (bytes,), r),
    ensures
        r is Ok,
        r->Ok_0.mount@ == mount,
        r->Ok_0.credentials@ == credentials,
        r->Ok_0.content_type is Some,
        r->Ok_0.content_type->Some_0@ == second,
{
    let line = three_words("SOURCE"@, mount, "ICE/1.0"@);
    let auth_line = "Authorization: Basic "@ + credentials;
    let l1 = first_name + seq![':', ' '] + first;
    let l2 = second_name + seq![':', ' '] + second;
    let lines = seq![auth_line, l1, l2];
    reveal_strlit("SOURCE");
    reveal_strlit("ICE/1.0");
    lemma_three_words("SOURCE"@, mount, "ICE/1.0"@);
    lemma_auth_line(credentials);
    lemma_word_header(first_name, first);
    lemma_word_header(second_name, second);
    assert(seq![line] + lines =~= seq![line, auth_line, l1, l2]);
    assert forall|k: int| 0 <= k < lines.len() implies crate::harbor::is_line(#[trigger] lines[k])
        && lines[k].contains(':') by {
        assert(k == 0 || k == 1 || k == 2);
    }
    crate::harbor::lemma_written_request(bytes@, line, lines);
    let m0 = Map::<Seq<char>, Seq<char>>::empty();
    let auth = "Basic "@ + credentials;
    let m1 = m0.insert("authorization"@, auth);
    let m2 = m1.insert("content-type"@, first);
    let m3 = m2.insert("content-type"@, second);
    let r1 = lines.skip(1);
    let r2 = r1.skip(1);
    let r3 = r2.skip(1);
    assert(r1[0] == l1 && r2[0] == l2);
    assert(crate::harbor::with_header_lines(m0, lines) == crate::harbor::with_header_lines(m1, r1));
    assert(crate::harbor::with_header_lines(m1, r1) == crate::harbor::with_header_lines(m2, r2));
    assert(crate::harbor::with_header_lines(m2, r2) == crate::harbor::with_header_lines(m3, r3));
    assert(crate::harbor::with_header_lines(m3, r3) == m3);
    lemma_basic(credentials);
    reveal_strlit("authorization");
    reveal_strlit("content-type");
    assert("authorization"@.len() == 13 && "content-type"@.len() == 12);
}

proof fn lemma_word_header(name: Seq<char>, value: Seq<char>)
    requires
        crate::text::is_word(name),
        crate::text::is_word(value),
        !name.contains(':'),
    ensures
        ({
            let line = name + seq![':', ' '] + value;
            &&& crate::harbor::is_line(line)
            &&& line.contains(':')
            &&& crate::text::split_once(line, ':') matches Some((n, v)) && crate::text::trim(n)
                == name && crate::text::trim(v) == value
        }),
{
    let line = name + seq![':', ' '] + value;
    let n = name.len() as int;
    assert(!crate::text::is_white(name[0]) && !crate::text::is_white(name[n - 1]));
    assert(!crate::text::is_white(value[0]) && !crate::text::is_white(value[value.len() - 1]));
    crate::output::lemma_header_line(line, name, value);
    assert forall|k: int| 0 <= k < line.len() implies #[trigger] line[k] != '\n' by {
        if k < n {
            assert(line[k] == name[k]);
        } else if k >= n + 2 {
            assert(line[k] == value[k - n - 2]);
        }
    }
    assert(line.last() == value[value.len() - 1]);
    crate::output::lemma_is_line(line);
}

/// The credentials are a user and a password: whatever stands before the first
/// colon, and all that follows it. Mount and content type are those of the
/// head.
pub proof fn law_credentials_are_user_and_password(
    head: RequestHead,
    decoded: Vec<u8>,
    r: Result<HarborHandshake, String>,
)
    requires
        call_ensures(finish_handshake, (head, Ok(decoded)), r),
    ensures
        r is Ok <==> valid_utf8(decoded@) && decode_utf8(decoded@).contains(':'),
        r is Ok ==> {
            let h = r->Ok_0;
            &&& h.user@ + seq![':'] + h.password@ == decode_utf8(decoded@)
            &&& !h.user@.contains(':')
            &&& h.mount@ == head.mount@
            &&& crate::text::opt_view(h.content_type) == crate::text::opt_view(head.content_type)
        },
{
    let text = decode_utf8(decoded@);
    crate::text::lemma_find_from(text, ':', 0);
    let at = crate::text::find_from(text, ':', 0);
    if at < text.len() {
        assert(text.contains(text[at]));
        assert(text =~= text.take(at) + seq![':'] + text.skip(at + 1));
        assert(!text.take(at).contains(':'));
    } else if text.contains(':') {
        let j = choose|j: int| 0 <= j < text.len() && text[j] == ':';
        assert(text[j] != ':');
    }
}

/// Credentials that could not be decoded are refused.
pub proof fn law_undecodable_credentials_are_refused(
    head: RequestHead,
    e: String,
    r: Result<HarborHandshake, String>,
)
    requires
        call_ensures(finish_handshake, (head, Err(e)), r),
    ensures
        r is Err,
{
}

/// A handshake is its head with the credentials decoded: they are what
/// encodes, in base64, to the text in the head.
pub proof fn law_a_handshake_is_its_head_with_credentials_decoded(
    bytes: &[u8],
    head: Result<RequestHead, String>,
    r: Result<HarborHandshake, String>,
)
    requires
        call_ensures(parse_request_head, (bytes,), head),
        call_ensures(parse_handshake, (bytes,), r),
    ensures
        head is Err ==> r is Err && r->Err_0@ == head->Err_0@,
        r is Ok ==> {
            let h = r->Ok_0;
            &&& head is Ok
            &&& h.mount@ == head->Ok_0.mount@
            &&& crate::text::opt_view(h.content_type) == crate::text::opt_view(
                head->Ok_0.content_type,
            )
            &&& !h.user@.contains(':')
            &&& exists|b: Seq<u8>| #[trigger]
                crate::codec::base64_encoded(b) == head->Ok_0.credentials@ && valid_utf8(b)
                    && decode_utf8(b) == h.user@ + seq![':'] + h.password@
        },
{
    if r is Ok {
        let text = head->Ok_0.credentials@;
        let decoded = crate::codec::base64_decoded(text);
        assert(decoded is Ok);
        let b = decoded->Ok_0;
        assert(crate::codec::base64_encoded(b) == text);
        let t = decode_utf8(b);
        crate::text::lemma_find_from(t, ':', 0);
        let at = crate::text::find_from(t, ':', 0);
        assert(t =~= t.take(at) + seq![':'] + t.skip(at + 1));
        assert(!t.take(at).contains(':'));
    }
}

/// The two ends of the protocol fit: the harbor reads from a source request the
/// mount, the credentials and the content type of the target that it was built
/// for.
pub proof fn law_the_harbor_reads_what_a_source_sends(
    target: IcecastTarget,
    request: Vec<u8>,
    bytes: &[u8],
    r: Result<HarborHandshake, String>,
    content_type: &'static str,
)
    requires
        call_ensures(build_source_request, (&target,), request),
        bytes@ == request@,
        call_ensures(parse_handshake, (bytes,), r),
        call_ensures(OutputFormat::content_type, (target.format,), content_type),
        crate::text::is_word(target.mount@),
        target.mount@[0] == '/',
        !target.username@.contains(':'),
    ensures
        r is Ok,
        r->Ok_0.mount@ == target.mount@,
        r->Ok_0.user@ == target.username@,
        r->Ok_0.password@ == target.password@,
        r->Ok_0.content_type is Some,
        r->Ok_0.content_type->Some_0@ == content_type@,
{
}

// ---------------------------------------------------------------------------
// Admission.

/// A source comes in exactly where it asks for the mount that there is and
/// nobody is live. Another mount is not found, whoever is live; the right one
/// is in use.
pub proof fn law_one_source_at_a_time_on_one_mount(
    handshake: HarborHandshake,
    mount_point: &str,
    taken: bool,
    r: Result<(), Rejection>,
)
    requires
        call_ensures(check_admission, (&handshake, mount_point, taken), r),
    ensures
        r is Ok <==> handshake.mount@ == mount_point@ && !taken,
        handshake.mount@ != mount_point@ ==> r is Err && r->Err_0.status == 404
            && r->Err_0.reason@ == "Not Found"@,
        handshake.mount@ == mount_point@ && taken ==> r is Err && r->Err_0.status == 403
            && r->Err_0.reason@ == "Mount In Use"@,
{
}

/// A DJ goes live exactly where the station allows it, under the names that it
/// gives, or else under the user name of the handshake and a general name; any
/// other answer, or none, is a refusal.
pub proof fn law_the_station_decides_who_goes_live(
    handshake: HarborHandshake,
    auth: Result<DjAuthResponse, String>,
    r: Result<LiveSession, Rejection>,
)
    requires
        call_ensures(check_auth, (&handshake, auth), r),
    ensures
        r is Ok <==> auth is Ok && auth->Ok_0.allow,
        r is Err ==> r->Err_0.status == 401 && r->Err_0.reason@ == "Unauthorized"@,
        r is Ok && auth->Ok_0.username is Some ==> r->Ok_0.user@ == auth->Ok_0.username->Some_0@,
        r is Ok && auth->Ok_0.username is None ==> r->Ok_0.user@ == handshake.user@,
        r is Ok && auth->Ok_0.display_name is Some ==> r->Ok_0.display_name@
            == auth->Ok_0.display_name->Some_0@,
        r is Ok && auth->Ok_0.display_name is None ==> r->Ok_0.display_name@
            == "Live Broadcast"@,
{
}

/// An answer has its status and its reason on one line, and a blank one after
/// it.
pub proof fn law_an_answer_is_a_status_line(status: u16, reason: &str, text: String)
    requires
        call_ensures(response_text, (status, reason), text),
    ensures
        text@ == "HTTP/1.0 "@ + crate::text::decimal(status as nat) + seq![' '] + reason@ + seq![
            '\r',
            '\n',
            '\r',
            '\n',
        ],
{
    reveal_strlit(" ");
    assert(" "@ =~= seq![' ']);
}

/// A header block is what was read, line by line, up to a blank line; without
/// another line it was cut off. It may grow to eight kilobytes before another
/// line is refused.
pub proof fn law_a_header_block_ends_with_a_blank_line(
    block: &mut HeaderBlock,
    line: &str,
    r: Result<bool, String>,
    size: Result<(), String>,
)
    requires
        call_ensures(HeaderBlock::check_size, (old(block),), size),
        call_ensures(HeaderBlock::add_line, (block, line), r),
    ensures
        size is Ok <==> encode_utf8(old(block).text@).len() <= 8192,
        r is Err <==> line@.len() == 0,
        r is Ok ==> final(block).text@ == old(block).text@ + line@,
        r is Err ==> final(block).text@ == old(block).text@,
        r is Ok && r->Ok_0 <==> (line@.len() == 1 && line@[0] == '\n') || (line@.len() == 2
            && line@[0] == '\r' && line@[1] == '\n'),
{
    if line@.len() == 1 && line@[0] == '\n' {
        assert(line@ =~= seq!['\n']);
    }
    if line@.len() == 2 && line@[0] == '\r' && line@[1] == '\n' {
        assert(line@ =~= seq!['\r', '\n']);
    }
}

// ---------------------------------------------------------------------------
// The session.

/// What is asked of the live state is what it is.
pub proof fn law_the_live_state_says_who_is_live(
    live: LiveState,
    ready: bool,
    taken: bool,
    closable: bool,
    user: Option<String>,
    name: Option<String>,
)
    requires
        call_ensures(LiveState::is_ready, (&live,), ready),
        call_ensures(LiveState::has_session, (&live,), taken),
        call_ensures(LiveState::force_disconnect, (&live,), closable),
        call_ensures(LiveState::live_dj, (&live,), user),
        call_ensures(LiveState::live_dj_name, (&live,), name),
    ensures
        taken == closable,
        taken <==> user is Some,
        user is Some <==> name is Some,
        taken ==> live@.session == Some((user->Some_0@, name->Some_0@)),
        ready == live@.ready,
{
}

/// A DJ who is let in is reported at once under the name that was let in.
pub proof fn law_a_dj_is_reported_on_admission(
    live: &mut LiveState,
    user: String,
    action: SessionAction,
)
    requires
        call_ensures(on_session_event, (live, SessionEvent::Admitted(user)), action),
    ensures
        action is ReportOn && action->ReportOn_0@ == user@,
        final(live)@ == old(live)@,
{
}

/// From the connection on, the DJ holds the session; from the first audio on,
/// the source is ready. Neither changes the other.
pub proof fn law_a_dj_connects_then_is_heard(
    live: &mut LiveState,
    session: LiveSession,
    connected: SessionAction,
    then: &mut LiveState,
    heard: SessionAction,
    after: LiveState,
    user: Option<String>,
    name: Option<String>,
    ready: bool,
)
    requires
        call_ensures(on_session_event, (live, SessionEvent::Connected(session)), connected),
        *old(then) == *final(live),
        call_ensures(on_session_event, (then, SessionEvent::FirstAudio), heard),
        after == *final(then),
        call_ensures(LiveState::live_dj, (&after,), user),
        call_ensures(LiveState::live_dj_name, (&after,), name),
        call_ensures(LiveState::is_ready, (&after,), ready),
    ensures
        connected is Decode,
        heard is Continue,
        final(live)@.ready == old(live)@.ready,
        user is Some && user->Some_0@ == session.user@,
        name is Some && name->Some_0@ == session.display_name@,
        ready,
{
}

/// When the stream ends, the source is off at once and its user is reported
/// off, still holding the session; once the station has answered, nobody holds
/// it, and the next one can come in.
pub proof fn law_a_dj_is_off_then_gone(
    live: &mut LiveState,
    user: String,
    ended: SessionAction,
    between: LiveState,
    still: Option<String>,
    before_user: Option<String>,
    ready: bool,
    then: &mut LiveState,
    answered: SessionAction,
    after: LiveState,
    taken: bool,
)
    requires
        call_ensures(LiveState::live_dj, (old(live),), before_user),
        call_ensures(on_session_event, (live, SessionEvent::StreamEnded(user)), ended),
        between == *final(live),
        call_ensures(LiveState::is_ready, (&between,), ready),
        call_ensures(LiveState::live_dj, (&between,), still),
        *old(then) == *final(live),
        call_ensures(on_session_event, (then, SessionEvent::OffAnswered), answered),
        after == *final(then),
        call_ensures(LiveState::has_session, (&after,), taken),
    ensures
        ended is ReportOff && ended->ReportOff_0@ == user@,
        !ready,
        crate::text::opt_view(still) == crate::text::opt_view(before_user),
        answered is Release,
        !taken,
        !after@.ready,
{
}

/// The playback loop hears of a ready source once: the first look finds it, the
/// next does not, and only after the source was gone does a look find it again.
pub proof fn law_a_ready_source_is_noticed_once(
    live: &mut LiveState,
    first: bool,
    again: &mut LiveState,
    second: bool,
)
    requires
        call_ensures(LiveState::poll_transition, (live,), first),
        *old(again) == *final(live),
        call_ensures(LiveState::poll_transition, (again,), second),
    ensures
        first ==> old(live)@.ready,
        old(live)@.ready && !old(live)@.to_live ==> first,
        !second,
        final(live)@.ready == old(live)@.ready,
        final(live)@.session == old(live)@.session,
{
}

/// A source that was gone when the loop looked is noticed when it is back.
pub proof fn law_a_source_that_comes_back_is_noticed(
    live: &mut LiveState,
    seen: bool,
    back: &mut LiveState,
    look: &mut LiveState,
    noticed: bool,
)
    requires
        !old(live)@.ready,
        call_ensures(LiveState::poll_transition, (live,), seen),
        *old(back) == *final(live),
        call_ensures(LiveState::mark_ready, (back,), ()),
        *old(look) == *final(back),
        call_ensures(LiveState::poll_transition, (look,), noticed),
    ensures
        !seen,
        noticed,
{
}

/// The single steps of a session: who holds it, whether the source is ready,
/// and nothing else.
pub proof fn law_steps_of_a_session_touch_one_thing(
    live: &mut LiveState,
    user: String,
    name: String,
)
    ensures
        call_ensures(LiveState::set_session, (live, user, name), ()) ==> final(live)@.session
            == Some((user@, name@)) && final(live)@.ready == old(live)@.ready
            && final(live)@.to_live == old(live)@.to_live,
        call_ensures(LiveState::clear_session, (live,), ()) ==> final(live)@.session is None
            && final(live)@.ready == old(live)@.ready && final(live)@.to_live
            == old(live)@.to_live,
        call_ensures(LiveState::mark_ready, (live,), ()) ==> final(live)@.ready
            && final(live)@.session == old(live)@.session && final(live)@.to_live
            == old(live)@.to_live,
        call_ensures(LiveState::mark_disconnected, (live,), ()) ==> !final(live)@.ready
            && final(live)@.session == old(live)@.session && final(live)@.to_live
            == old(live)@.to_live,
{
}

/// Audio that follows a complete head makes no difference to the handshake.
pub proof fn law_audio_makes_no_difference_to_a_handshake(
    head: &[u8],
    parsed: Result<RequestHead, String>,
    r: Result<HarborHandshake, String>,
    all: &[u8],
    audio: Seq<u8>,
    with_audio: Result<HarborHandshake, String>,
)
    requires
        call_ensures(parse_request_head, (head,), parsed),
        parsed is Ok,
        crate::harbor::head_len(head@) == head@.len(),
        head@.last() == 10,
        call_ensures(parse_handshake, (head,), r),
        all@ == head@ + audio,
        call_ensures(parse_handshake, (all,), with_audio),
    ensures
        r is Ok <==> with_audio is Ok,
        r is Ok ==> r->Ok_0@ == with_audio->Ok_0@,
        r is Err ==> r->Err_0@ == with_audio->Err_0@,
{
    crate::harbor::law_audio_after_the_head_is_not_read(head@, audio);
    assert(head@.take(crate::harbor::head_len(head@)) =~= head@);
}

/// A client without credentials is told so, and so is one whose credentials are
/// of another kind.
pub proof fn law_missing_credentials_are_told(
    bytes: &[u8],
    mount: Seq<char>,
    name: Seq<char>,
    value: Seq<char>,
    r: Result<RequestHead, String>,
)
    requires
        crate::text::is_word(mount),
        mount[0] == '/',
        crate::text::is_word(name),
        !name.contains(':'),
        crate::text::is_word(value),
        bytes@ == encode_utf8(
            crate::harbor::crlf_lines(
                seq![three_words("PUT"@, mount, "HTTP/1.0"@), name + seq![':', ' '] + value],
            ) + seq!['\r', '\n'],
        ),
        call_ensures(parse_request_head, (bytes,), r),
    ensures
        r is Err,
        crate::text::lower(name) != "authorization"@ ==> r->Err_0@
            == "missing Authorization header"@,
        crate::text::lower(name) == "authorization"@ ==> r->Err_0@
            == "Authorization header is not 'Basic <credentials>'"@,
{
    let line = three_words("PUT"@, mount, "HTTP/1.0"@);
    let header = name + seq![':', ' '] + value;
    let lines = seq![header];
    reveal_strlit("PUT");
    reveal_strlit("HTTP/1.0");
    reveal_strlit("Basic ");
    lemma_three_words("PUT"@, mount, "HTTP/1.0"@);
    lemma_word_header(name, value);
    assert(seq![line] + lines =~= seq![line, header]);
    assert forall|k: int| 0 <= k < lines.len() implies crate::harbor::is_line(#[trigger] lines[k])
        && lines[k].contains(':') by {}
    crate::harbor::lemma_written_request(bytes@, line, lines);
    let next = Map::<Seq<char>, Seq<char>>::empty().insert(crate::text::lower(name), value);
    assert(lines.skip(1) =~= Seq::<Seq<char>>::empty());
    assert(crate::harbor::with_header_lines(next, lines.skip(1)) == next);
    assert(crate::harbor::with_header_lines(Map::empty(), lines)
        == crate::harbor::with_header_lines(next, lines.skip(1)));
    if crate::text::has_prefix(value, "Basic "@) {
        assert(value.take("Basic "@.len() as int)[5] == value[5]);
        assert("Basic "@[5] == ' ');
        assert(crate::text::is_white(' '));
        assert(!crate::text::is_white(value[5]));
    }
}

/// The rejections say why.
pub proof fn law_rejections_say_why(
    handshake: HarborHandshake,
    mount_point: &str,
    taken: bool,
    refused: Rejection,
    auth: Result<DjAuthResponse, String>,
    denied: Rejection,
)
    requires
        call_ensures(
            check_admission,
            (&handshake, mount_point, taken),
            Err::<(), Rejection>(refused),
        ),
        call_ensures(check_auth, (&handshake, auth), Err::<LiveSession, Rejection>(denied)),
    ensures
        handshake.mount@ != mount_point@ ==> refused.message@ == "rejected: mount '"@
            + handshake.mount@ + "' does not match configured mount '"@ + mount_point@ + "'"@,
        handshake.mount@ == mount_point@ ==> refused.message@
            == "rejected: a live session is already active on this mount"@,
        auth is Ok ==> denied.message@ == "auth rejected for user '"@ + handshake.user@ + "'"@,
        auth is Err ==> denied.message@ == "auth callback failed: "@ + auth->Err_0@,
{
}

} // verus!
