//! Live-DJ harbor: reads the handshake of an incoming source client, decides
//! whether it may go on air, and keeps the state of the live session.
//!
//! Only the Icecast2/HTTP-style source handshake is spoken: a
//! `SOURCE <mount> ICE/1.0` or `PUT <mount> HTTP/1.0` request line, HTTP-style
//! headers up to a blank line, and credentials in
//! `Authorization: Basic <base64(user:pass)>`.

use vstd::prelude::*;
use vstd::slice::slice_subrange;
use vstd::utf8::*;

use crate::callbacks::DjAuthResponse;
use crate::codec::{base64_decode, utf8_text};
use crate::fields::TextMap;
use crate::output::is_blank_line;
use crate::text::{
    chars_of, find_char, lower_of, next_word, push_decimal, same_text, starts_with, string_of,
    trim_range,
};

verus! {

broadcast use vstd::string::group_string_axioms;

// ---------------------------------------------------------------------------
// Lines.

/// The position after the first line feed at or after `i`, or the length.
pub open spec fn line_end(bytes: Seq<u8>, i: int) -> int
    decreases bytes.len() - i,
{
    if i >= bytes.len() {
        bytes.len() as int
    } else if bytes[i] == 10 {
        i + 1
    } else {
        line_end(bytes, i + 1)
    }
}

/// A line that begins inside the bytes is not empty.
pub proof fn lemma_line_end(bytes: Seq<u8>, i: int)
    requires
        0 <= i <= bytes.len(),
    ensures
        i <= line_end(bytes, i) <= bytes.len(),
        i < bytes.len() ==> i < line_end(bytes, i),
    decreases bytes.len() - i,
{
    if i < bytes.len() {
        lemma_line_end(bytes, i + 1);
    }
}

/// `s` without the carriage returns and line feeds at its end.
pub open spec fn trim_eol(s: Seq<char>) -> Seq<char>
    decreases s.len(),
{
    if s.len() > 0 && (s.last() == '\r' || s.last() == '\n') {
        trim_eol(s.drop_last())
    } else {
        s
    }
}

/// The end of the line that begins at `from`.
fn find_line_end(bytes: &[u8], from: usize) -> (end: usize)
    requires
        from <= bytes@.len(),
    ensures
        end == line_end(bytes@, from as int),
        from <= end <= bytes@.len(),
        from < bytes@.len() ==> from < end,
{
    let mut i: usize = from;
    while i < bytes.len()
        invariant
            from <= i <= bytes@.len(),
            line_end(bytes@, from as int) == line_end(bytes@, i as int),
        decreases bytes@.len() - i,
    {
        if bytes[i] == 10 {
            return i + 1;
        }
        i += 1;
    }
    i
}

/// The characters of the line `bytes[from..to]` without its line end; `None`
/// where it is not UTF-8.
fn line_chars(bytes: &[u8], from: usize, to: usize) -> (line: Option<Vec<char>>)
    requires
        from <= to <= bytes@.len(),
    ensures
        ({
            let raw = bytes@.subrange(from as int, to as int);
            match line {
                Some(v) => valid_utf8(raw) && v@ == trim_eol(decode_utf8(raw)),
                None => !valid_utf8(raw),
            }
        }),
{
    match utf8_text(slice_subrange(bytes, from, to)) {
        Err(_) => None,
        Ok(text) => {
            let mut v = chars_of(text.as_str());
            while v.len() > 0 && (v[v.len() - 1] == '\r' || v[v.len() - 1] == '\n')
                invariant
                    trim_eol(v@) == trim_eol(text@),
                decreases v@.len(),
            {
                let ghost before = v@;
                v.pop();
                assert(v@ =~= before.drop_last());
            }
            Some(v)
        },
    }
}

// ---------------------------------------------------------------------------
// The handshake.

/// The headers of the lines from position `i` on, added to `headers`, up to
/// the blank line; or what is wrong with them. Names are in lower case, and a
/// later header wins over an earlier one of the same name.
pub open spec fn headers_from(
    bytes: Seq<u8>,
    i: int,
    headers: Map<Seq<char>, Seq<char>>,
) -> Result<Map<Seq<char>, Seq<char>>, Seq<char>>
    decreases bytes.len() - i,
{
    if !(0 <= i < bytes.len()) {
        Err("connection closed before headers completed"@)
    } else {
        proof {
            lemma_line_end(bytes, i);
        }
        let end = line_end(bytes, i);
        let raw = bytes.subrange(i, end);
        let line = trim_eol(decode_utf8(raw));
        if !valid_utf8(raw) {
            Err("failed to read header line: stream did not contain valid UTF-8"@)
        } else if line.len() == 0 {
            Ok(headers)
        } else {
            match crate::text::split_once(line, ':') {
                Some((name, value)) => headers_from(
                    bytes,
                    end,
                    headers.insert(
                        crate::text::lower(crate::text::trim(name)),
                        crate::text::trim(value),
                    ),
                ),
                None => Err("malformed header line: '"@ + line + "'"@),
            }
        }
    }
}

/// The part of a handshake that precedes the decoding of its credentials.
#[derive(Debug)]
pub struct RequestHead {
    pub mount: String,
    /// The text after `Basic `, still encoded.
    pub credentials: String,
    pub content_type: Option<String>,
}

/// A request head as mathematical texts.
pub struct RequestHeadView {
    pub mount: Seq<char>,
    pub credentials: Seq<char>,
    pub content_type: Option<Seq<char>>,
}

impl View for RequestHead {
    type V = RequestHeadView;

    open spec fn view(&self) -> RequestHeadView {
        RequestHeadView {
            mount: self.mount@,
            credentials: self.credentials@,
            content_type: crate::text::opt_view(self.content_type),
        }
    }
}

/// The mount that a request line asks for, or what is wrong with the line.
pub open spec fn requested_mount(line: Seq<char>) -> Result<Seq<char>, Seq<char>> {
    let parts = crate::text::words(line);
    if line.len() == 0 {
        Err("empty request line"@)
    } else if parts.len() < 2 {
        Err("malformed request line: '"@ + line + "'"@)
    } else if parts[0] != "SOURCE"@ && parts[0] != "PUT"@ {
        Err(
            "unsupported source method '"@ + parts[0]
                + "' (expected SOURCE or PUT -- legacy Shoutcast framing is out of scope for this engine)"@,
        )
    } else if !(parts[1].len() > 0 && parts[1][0] == '/') {
        Err("malformed mount point '"@ + parts[1] + "' (expected a leading '/')"@)
    } else {
        Ok(parts[1])
    }
}

/// What the headers say of the client's credentials and of its stream.
pub open spec fn head_of(mount: Seq<char>, headers: Map<Seq<char>, Seq<char>>) -> Result<
    RequestHeadView,
    Seq<char>,
> {
    if !headers.dom().contains("authorization"@) {
        Err("missing Authorization header"@)
    } else {
        let auth = headers["authorization"@];
        if !crate::text::has_prefix(auth, "Basic "@) {
            Err("Authorization header is not 'Basic <credentials>'"@)
        } else {
            Ok(
                RequestHeadView {
                    mount,
                    credentials: crate::text::trim(auth.skip("Basic "@.len() as int)),
                    content_type: if headers.dom().contains("content-type"@) {
                        Some(headers["content-type"@])
                    } else {
                        None
                    },
                },
            )
        }
    }
}

/// The head of the request at the start of `bytes`, or what is wrong with it.
pub open spec fn request_head(bytes: Seq<u8>) -> Result<RequestHeadView, Seq<char>> {
    let end = line_end(bytes, 0);
    let raw = bytes.take(end);
    if !valid_utf8(raw) {
        Err("failed to read request line: stream did not contain valid UTF-8"@)
    } else {
        match requested_mount(trim_eol(decode_utf8(raw))) {
            Err(e) => Err(e),
            Ok(mount) => match headers_from(bytes, end, Map::empty()) {
                Err(e) => Err(e),
                Ok(headers) => head_of(mount, headers),
            },
        }
    }
}

/// Whether the line that begins at `i` has nothing on it.
pub open spec fn is_blank_at(bytes: Seq<u8>, i: int) -> bool {
    let raw = bytes.subrange(i, line_end(bytes, i));
    valid_utf8(raw) && trim_eol(decode_utf8(raw)).len() == 0
}

/// The position after the first blank line of those from `i` on, or the
/// length.
pub open spec fn head_end(bytes: Seq<u8>, i: int) -> int
    decreases bytes.len() - i,
{
    if !(0 <= i < bytes.len()) {
        bytes.len() as int
    } else {
        proof {
            lemma_line_end(bytes, i);
        }
        if is_blank_at(bytes, i) {
            line_end(bytes, i)
        } else {
            head_end(bytes, line_end(bytes, i))
        }
    }
}

/// How many bytes the request line and the headers take, the blank line after
/// them included.
pub open spec fn head_len(bytes: Seq<u8>) -> int {
    head_end(bytes, line_end(bytes, 0))
}

/// Whether a line begins at `i`.
pub open spec fn is_line_start(bytes: Seq<u8>, i: int) -> bool {
    i == 0 || (0 < i <= bytes.len() && bytes[i - 1] == 10)
}

/// Whether `at` is where the first blank line after the request line begins.
pub open spec fn is_first_blank(bytes: Seq<u8>, at: int) -> bool {
    &&& line_end(bytes, 0) <= at < bytes.len()
    &&& is_line_start(bytes, at)
    &&& is_blank_at(bytes, at)
    &&& forall|j: int|
        line_end(bytes, 0) <= j < at && #[trigger] is_line_start(bytes, j) ==> !is_blank_at(bytes, j)
}

/// Whether the first `n` bytes are a complete head: the line that ends there is
/// blank, and it is the first such line after the request line.
pub open spec fn is_complete_head(bytes: Seq<u8>, n: int) -> bool {
    exists|at: int| #[trigger] is_first_blank(bytes, at) && line_end(bytes, at) == n
}

/// A line ends at its first line feed, or with the bytes.
proof fn lemma_line_feed(bytes: Seq<u8>, i: int)
    requires
        0 <= i <= bytes.len(),
    ensures
        forall|j: int| i < j < line_end(bytes, i) ==> !#[trigger] is_line_start(bytes, j),
        i < line_end(bytes, i) < bytes.len() ==> is_line_start(bytes, line_end(bytes, i)),
    decreases bytes.len() - i,
{
    if i < bytes.len() && bytes[i] != 10 {
        lemma_line_feed(bytes, i + 1);
        lemma_line_end(bytes, i + 1);
        assert forall|j: int| i < j < line_end(bytes, i) implies !#[trigger] is_line_start(
            bytes,
            j,
        ) by {
            if j == i + 1 {
                assert(bytes[j - 1] == bytes[i]);
            }
        }
    }
}

/// Headers that are complete end with a blank line, and no line before it is
/// blank.
proof fn lemma_head_end(bytes: Seq<u8>, i: int, headers: Map<Seq<char>, Seq<char>>) -> (at: int)
    requires
        0 <= i <= bytes.len(),
        i < bytes.len() ==> is_line_start(bytes, i),
        headers_from(bytes, i, headers) is Ok,
    ensures
        i <= at < bytes.len(),
        is_line_start(bytes, at),
        is_blank_at(bytes, at),
        forall|j: int| i <= j < at && #[trigger] is_line_start(bytes, j) ==> !is_blank_at(bytes, j),
        head_end(bytes, i) == line_end(bytes, at),
    decreases bytes.len() - i,
{
    lemma_line_end(bytes, i);
    lemma_line_feed(bytes, i);
    let end = line_end(bytes, i);
    let line = trim_eol(decode_utf8(bytes.subrange(i, end)));
    if line.len() == 0 {
        i
    } else {
        let (name, value) = crate::text::split_once(line, ':')->Some_0;
        let more = headers.insert(
            crate::text::lower(crate::text::trim(name)),
            crate::text::trim(value),
        );
        assert(headers_from(bytes, end, more) is Ok);
        let at = lemma_head_end(bytes, end, more);
        assert forall|j: int| i <= j < at && #[trigger] is_line_start(bytes, j) implies !is_blank_at(
            bytes,
            j,
        ) by {}
        at
    }
}

/// A request that can be read begins with a complete head.
proof fn lemma_head_is_complete(bytes: Seq<u8>)
    requires
        headers_from(bytes, line_end(bytes, 0), Map::empty()) is Ok,
    ensures
        is_complete_head(bytes, head_len(bytes)),
{
    lemma_line_end(bytes, 0);
    lemma_line_feed(bytes, 0);
    let at = lemma_head_end(bytes, line_end(bytes, 0), Map::empty());
    assert(is_first_blank(bytes, at));
}

/// The user and the password in decoded credentials, or what is wrong with
/// them.
pub open spec fn credentials_of(decoded: Result<Seq<u8>, Seq<char>>) -> Result<
    (Seq<char>, Seq<char>),
    Seq<char>,
> {
    match decoded {
        Err(e) => Err("failed to base64-decode Authorization header: "@ + e),
        Ok(bytes) => if !valid_utf8(bytes) {
            Err("Authorization payload is not valid UTF-8: "@ + crate::codec::utf8_error(bytes))
        } else {
            match crate::text::split_once(decode_utf8(bytes), ':') {
                None => Err("Authorization payload missing ':' separator"@),
                Some((user, password)) => Ok((user, password)),
            }
        },
    }
}

/// A parsed source-client handshake.
#[derive(Debug, Clone, PartialEq, Eq)]
pub struct HarborHandshake {
    pub mount: String,
    pub user: String,
    pub password: String,
    pub content_type: Option<String>,
}

/// A handshake as mathematical texts.
pub struct HandshakeView {
    pub mount: Seq<char>,
    pub user: Seq<char>,
    pub password: Seq<char>,
    pub content_type: Option<Seq<char>>,
}

impl View for HarborHandshake {
    type V = HandshakeView;

    open spec fn view(&self) -> HandshakeView {
        HandshakeView {
            mount: self.mount@,
            user: self.user@,
            password: self.password@,
            content_type: crate::text::opt_view(self.content_type),
        }
    }
}

/// The handshake that a request head makes with its decoded credentials.
pub open spec fn handshake_with(
    head: RequestHeadView,
    decoded: Result<Seq<u8>, Seq<char>>,
) -> Result<HandshakeView, Seq<char>> {
    match credentials_of(decoded) {
        Err(e) => Err(e),
        Ok((user, password)) => Ok(
            HandshakeView {
                mount: head.mount,
                user,
                password,
                content_type: head.content_type,
            },
        ),
    }
}

/// The handshake at the start of `bytes`, or what is wrong with it.
pub open spec fn handshake(bytes: Seq<u8>) -> Result<HandshakeView, Seq<char>> {
    match request_head(bytes) {
        Err(e) => Err(e),
        Ok(head) => handshake_with(head, crate::codec::base64_decoded(head.credentials)),
    }
}

/// An error message made of a fixed part, a quoted text and a fixed part.
fn message(before: &str, quoted: &str, after: &str) -> (m: String)
    ensures
        m@ == before@ + quoted@ + after@,
{
    let mut m = before.to_owned();
    m.append(quoted);
    m.append(after);
    m
}

/// Reads the mount point from the request line.
fn parse_request_line(line: &Vec<char>) -> (r: Result<String, String>)
    ensures
        match r {
            Ok(mount) => requested_mount(line@) == Ok::<Seq<char>, Seq<char>>(mount@),
            Err(e) => requested_mount(line@) == Err::<Seq<char>, Seq<char>>(e@),
        },
{
    if line.len() == 0 {
        return Err("empty request line".to_owned());
    }
    let ghost parts = crate::text::words(line@);
    let all = string_of(line, 0, line.len());
    assert(all@ =~= line@);
    let first = next_word(line, 0);
    let second = match first {
        Some((_, b)) => next_word(line, b),
        None => None,
    };
    match (first, second) {
        (Some((a, b)), Some((c, d))) => {
            let method = string_of(line, a, b);
            let mount = string_of(line, c, d);
            proof {
                assert(parts[0] == method@);
                assert(parts[1] == mount@);
                assert(parts.len() >= 2);
            }
            if !same_text(method.as_str(), "SOURCE") && !same_text(method.as_str(), "PUT") {
                return Err(
                    message(
                        "unsupported source method '",
                        method.as_str(),
                        "' (expected SOURCE or PUT -- legacy Shoutcast framing is out of scope for this engine)",
                    ),
                );
            }
            if line[c] != '/' {
                assert(mount@[0] == line@[c as int]);
                return Err(
                    message("malformed mount point '", mount.as_str(), "' (expected a leading '/')"),
                );
            }
            Ok(mount)
        },
        _ => Err(message("malformed request line: '", all.as_str(), "'")),
    }
}

/// Reads the header lines from `from` up to the blank line.
fn parse_headers(bytes: &[u8], from: usize) -> (r: Result<TextMap, String>)
    requires
        from <= bytes@.len(),
    ensures
        match r {
            Ok(headers) => headers_from(bytes@, from as int, Map::empty()) == Ok::<
                Map<Seq<char>, Seq<char>>,
                Seq<char>,
            >(headers@),
            Err(e) => headers_from(bytes@, from as int, Map::empty()) == Err::<
                Map<Seq<char>, Seq<char>>,
                Seq<char>,
            >(e@),
        },
{
    let mut headers = TextMap::new();
    let mut i: usize = from;
    while i < bytes.len()
        invariant
            from <= i <= bytes@.len(),
            headers_from(bytes@, from as int, Map::empty()) == headers_from(
                bytes@,
                i as int,
                headers@,
            ),
        decreases bytes@.len() - i,
    {
        let end = find_line_end(bytes, i);
        let line = match line_chars(bytes, i, end) {
            Some(line) => line,
            None => {
                return Err(
                    "failed to read header line: stream did not contain valid UTF-8".to_owned(),
                );
            },
        };
        if line.len() == 0 {
            return Ok(headers);
        }
        let colon = find_char(&line, ':', 0);
        if colon >= line.len() {
            let text = string_of(&line, 0, line.len());
            assert(text@ =~= line@);
            return Err(message("malformed header line: '", text.as_str(), "'"));
        }
        let mut name_part: Vec<char> = Vec::new();
        let mut k: usize = 0;
        while k < colon
            invariant
                k <= colon < line@.len(),
                name_part@ == line@.take(k as int),
            decreases colon - k,
        {
            name_part.push(line[k]);
            k += 1;
        }
        let (a, b) = trim_range(&name_part, 0);
        assert(name_part@.skip(0) =~= line@.take(colon as int));
        let lowered = lower_of(&name_part, a, b);
        let name = string_of(&lowered, 0, lowered.len());
        assert(name@ =~= lowered@);
        let (c, d) = trim_range(&line, colon + 1);
        let value = string_of(&line, c, d);
        headers.insert(name, value);
        i = end;
    }
    Err("connection closed before headers completed".to_owned())
}

/// Reads the request line and the headers at the start of `bytes`, up to the
/// decoding of the credentials. Nothing after the blank line is looked at.
pub fn parse_request_head(bytes: &[u8]) -> (r: Result<RequestHead, String>)
    ensures
        match r {
            Ok(head) => {
                &&& request_head(bytes@) == Ok::<RequestHeadView, Seq<char>>(head@)
                &&& is_complete_head(bytes@, head_len(bytes@))
            },
            Err(e) => request_head(bytes@) == Err::<RequestHeadView, Seq<char>>(e@),
        },
{
    let end = find_line_end(bytes, 0);
    assert(bytes@.subrange(0, end as int) =~= bytes@.take(end as int));
    let line = match line_chars(bytes, 0, end) {
        Some(line) => line,
        None => {
            return Err(
                "failed to read request line: stream did not contain valid UTF-8".to_owned(),
            );
        },
    };
    let mount = match parse_request_line(&line) {
        Ok(mount) => mount,
        Err(e) => {
            return Err(e);
        },
    };
    let headers = match parse_headers(bytes, end) {
        Ok(headers) => headers,
        Err(e) => {
            return Err(e);
        },
    };
    proof {
        lemma_head_is_complete(bytes@);
    }
    let auth = match headers.get("authorization") {
        Some(auth) => chars_of(auth),
        None => {
            return Err("missing Authorization header".to_owned());
        },
    };
    if !starts_with(&auth, "Basic ") {
        return Err("Authorization header is not 'Basic <credentials>'".to_owned());
    }
    let prefix = chars_of("Basic ");
    let (a, b) = trim_range(&auth, prefix.len());
    let credentials = string_of(&auth, a, b);
    let content_type = match headers.get("content-type") {
        Some(value) => Some(value.to_owned()),
        None => None,
    };
    Ok(RequestHead { mount, credentials, content_type })
}

/// Completes a handshake from its head and from what the base64 decoder made
/// of the credentials.
pub fn finish_handshake(head: RequestHead, decoded: Result<Vec<u8>, String>) -> (r: Result<
    HarborHandshake,
    String,
>)
    ensures
        ({
            let found = handshake_with(
                head@,
                match decoded {
                    Ok(bytes) => Ok(bytes@),
                    Err(e) => Err(e@),
                },
            );
            match r {
                Ok(h) => found == Ok::<HandshakeView, Seq<char>>(h@),
                Err(e) => found == Err::<HandshakeView, Seq<char>>(e@),
            }
        }),
{
    let bytes = match decoded {
        Ok(bytes) => bytes,
        Err(e) => {
            let mut m = "failed to base64-decode Authorization header: ".to_owned();
            m.append(e.as_str());
            return Err(m);
        },
    };
    let text = match utf8_text(bytes.as_slice()) {
        Ok(text) => text,
        Err(e) => {
            let mut m = "Authorization payload is not valid UTF-8: ".to_owned();
            m.append(e.as_str());
            return Err(m);
        },
    };
    let chars = chars_of(text.as_str());
    let colon = find_char(&chars, ':', 0);
    if colon >= chars.len() {
        return Err("Authorization payload missing ':' separator".to_owned());
    }
    let user = string_of(&chars, 0, colon);
    let password = string_of(&chars, colon + 1, chars.len());
    assert(user@ =~= chars@.take(colon as int));
    assert(password@ =~= chars@.skip(colon + 1));
    Ok(HarborHandshake { mount: head.mount, user, password, content_type: head.content_type })
}

/// Parses the source-client handshake at the start of `bytes`: the request
/// line and the headers up to the blank line, which are [`head_len`] bytes. The
/// audio that may follow the blank line is not looked at.
pub fn parse_handshake(bytes: &[u8]) -> (r: Result<HarborHandshake, String>)
    ensures
        match r {
            Ok(h) => {
                &&& handshake(bytes@) == Ok::<HandshakeView, Seq<char>>(h@)
                &&& is_complete_head(bytes@, head_len(bytes@))
            },
            Err(e) => handshake(bytes@) == Err::<HandshakeView, Seq<char>>(e@),
        },
{
    match parse_request_head(bytes) {
        Err(e) => Err(e),
        Ok(head) => {
            let decoded = base64_decode(head.credentials.as_str());
            proof {
                if decoded is Ok {
                    crate::codec::lemma_base64_decoded(decoded->Ok_0@);
                }
            }
            finish_handshake(head, decoded)
        },
    }
}

// ---------------------------------------------------------------------------
// What is known of handshakes that are put together from lines.

/// The lines, each with a carriage return and a line feed at its end.
pub open spec fn crlf_lines(lines: Seq<Seq<char>>) -> Seq<char>
    decreases lines.len(),
{
    if lines.len() == 0 {
        Seq::empty()
    } else {
        lines[0] + seq!['\r', '\n'] + crlf_lines(lines.skip(1))
    }
}

/// The headers that these lines add to `headers`.
pub open spec fn with_header_lines(
    headers: Map<Seq<char>, Seq<char>>,
    lines: Seq<Seq<char>>,
) -> Map<Seq<char>, Seq<char>>
    decreases lines.len(),
{
    if lines.len() == 0 {
        headers
    } else {
        match crate::text::split_once(lines[0], ':') {
            Some((name, value)) => with_header_lines(
                headers.insert(
                    crate::text::lower(crate::text::trim(name)),
                    crate::text::trim(value),
                ),
                lines.skip(1),
            ),
            None => headers,
        }
    }
}

/// A text that can stand as one line: no line feed in it, and no carriage
/// return at its end.
pub open spec fn is_line(s: Seq<char>) -> bool {
    &&& s.len() > 0
    &&& !s.contains('\n')
    &&& s.last() != '\r'
}

/// Encoding distributes over concatenation.
pub proof fn lemma_encode_concat(a: Seq<char>, b: Seq<char>)
    ensures
        encode_utf8(a + b) == encode_utf8(a) + encode_utf8(b),
    decreases a.len(),
{
    if a.len() == 0 {
        assert(a + b =~= b);
        assert(encode_utf8(a) + encode_utf8(b) =~= encode_utf8(b));
    } else {
        let whole = a + b;
        assert(whole.drop_first() =~= a.drop_first() + b);
        assert(whole[0] == a[0]);
        lemma_encode_concat(a.drop_first(), b);
        assert(encode_utf8(whole) =~= encode_utf8(a) + encode_utf8(b));
    }
}

/// Only a line feed encodes to a byte that is a line feed.
proof fn lemma_scalar_no_lf(c: char)
    requires
        c != '\n',
    ensures
        forall|k: int| 0 <= k < encode_scalar(c as u32).len() ==> #[trigger] encode_scalar(c as u32)[k]
            != 10,
{
    let v = c as u32;
    assert(v <= 0x7F && v != 10 ==> (v & 0x7F) as u8 != 10) by (bit_vector);
    assert(0xC0u8 | ((v >> 6) & 0x1F) as u8 >= 0x80) by (bit_vector);
    assert(0xE0u8 | ((v >> 12) & 0x0F) as u8 >= 0x80) by (bit_vector);
    assert(0xF0u8 | ((v >> 18) & 0x7) as u8 >= 0x80) by (bit_vector);
    assert(0x80u8 | (v & 0x3F) as u8 >= 0x80) by (bit_vector);
    assert(0x80u8 | ((v >> 6) & 0x3F) as u8 >= 0x80) by (bit_vector);
    assert(0x80u8 | ((v >> 12) & 0x3F) as u8 >= 0x80) by (bit_vector);
}

/// A text without line feeds encodes to bytes without line feeds.
proof fn lemma_encode_no_lf(s: Seq<char>)
    requires
        !s.contains('\n'),
    ensures
        forall|k: int| 0 <= k < encode_utf8(s).len() ==> #[trigger] encode_utf8(s)[k] != 10,
    decreases s.len(),
{
    if s.len() > 0 {
        let rest = s.drop_first();
        assert(s.contains(s[0]));
        assert forall|c: char| rest.contains(c) implies s.contains(c) by {
            let k = choose|k: int| 0 <= k < rest.len() && rest[k] == c;
            assert(s[k + 1] == c);
        }
        lemma_encode_no_lf(rest);
        lemma_scalar_no_lf(s[0]);
        let first = encode_scalar(s[0] as u32);
        assert(encode_utf8(s) == first + encode_utf8(rest));
        assert forall|k: int| 0 <= k < encode_utf8(s).len() implies #[trigger] encode_utf8(s)[k]
            != 10 by {
            if k < first.len() {
                assert(encode_utf8(s)[k] == first[k]);
            } else {
                assert(encode_utf8(s)[k] == encode_utf8(rest)[k - first.len()]);
            }
        }
    }
}

proof fn lemma_line_end_is(bytes: Seq<u8>, i: int, end: int)
    requires
        0 <= i < end <= bytes.len(),
        bytes[end - 1] == 10,
        forall|k: int| i <= k < end - 1 ==> #[trigger] bytes[k] != 10,
    ensures
        line_end(bytes, i) == end,
    decreases end - i,
{
    if i < end - 1 {
        lemma_line_end_is(bytes, i + 1, end);
    }
}

/// Reading a line that was written with a line end gives that line back.
proof fn lemma_line_at(bytes: Seq<u8>, i: int, line: Seq<char>, rest: Seq<u8>)
    requires
        0 <= i <= bytes.len(),
        bytes.skip(i) == encode_utf8(line + seq!['\r', '\n']) + rest,
        line.len() == 0 || is_line(line),
    ensures
        ({
            let end = line_end(bytes, i);
            let raw = bytes.subrange(i, end);
            &&& i < end <= bytes.len()
            &&& bytes.skip(end) == rest
            &&& valid_utf8(raw)
            &&& trim_eol(decode_utf8(raw)) == line
        }),
{
    let crlf = seq!['\r', '\n'];
    let whole = line + crlf;
    let enc = encode_utf8(whole);
    let head = encode_utf8(line);
    lemma_encode_concat(line, crlf);
    is_ascii_chars_encode_utf8(crlf);
    assert(encode_utf8(crlf).len() == 2);
    assert(encode_utf8(crlf)[0] == 13 && encode_utf8(crlf)[1] == 10);
    assert(!line.contains('\n'));
    lemma_encode_no_lf(line);
    let tail = bytes.skip(i);
    assert(tail.len() == enc.len() + rest.len());
    let end = i + enc.len();
    assert(forall|k: int| 0 <= k < tail.len() ==> tail[k] == #[trigger] bytes[i + k]);
    assert forall|k: int| i <= k < end - 1 implies #[trigger] bytes[k] != 10 by {
        assert(bytes[i + (k - i)] == tail[k - i]);
        assert(tail[k - i] == enc[k - i]);
        if k - i < head.len() {
            assert(enc[k - i] == head[k - i]);
        }
    }
    assert(bytes[i + (enc.len() - 1)] == tail[enc.len() - 1]);
    lemma_line_end_is(bytes, i, end);
    let raw = bytes.subrange(i, end);
    assert(raw =~= enc) by {
        assert forall|k: int| 0 <= k < raw.len() implies raw[k] == enc[k] by {
            assert(raw[k] == bytes[i + k]);
        }
    }
    assert(bytes.skip(end) =~= rest) by {
        assert(bytes.skip(end) =~= tail.skip(enc.len() as int));
        assert(tail.skip(enc.len() as int) =~= rest);
    }
    encode_utf8_valid_utf8(whole);
    encode_utf8_decode_utf8(whole);
    assert(trim_eol(whole) == line) by {
        assert(whole.drop_last() =~= line.push('\r'));
        assert(line.push('\r').drop_last() =~= line);
        assert(trim_eol(whole) == trim_eol(line.push('\r')));
        assert(trim_eol(line.push('\r')) == trim_eol(line));
        if line.len() > 0 {
            assert(line.contains(line.last()));
        }
    }
}

/// Reading header lines that were written up to a blank line gives exactly
/// the headers that they name.
pub proof fn lemma_written_headers(
    bytes: Seq<u8>,
    i: int,
    lines: Seq<Seq<char>>,
    headers: Map<Seq<char>, Seq<char>>,
)
    requires
        0 <= i <= bytes.len(),
        bytes.skip(i) == encode_utf8(crlf_lines(lines) + seq!['\r', '\n']),
        forall|k: int| 0 <= k < lines.len() ==> is_line(#[trigger] lines[k]) && lines[k].contains(':'),
    ensures
        headers_from(bytes, i, headers) == Ok::<Map<Seq<char>, Seq<char>>, Seq<char>>(
            with_header_lines(headers, lines),
        ),
    decreases lines.len(),
{
    let crlf = seq!['\r', '\n'];
    if lines.len() == 0 {
        assert(crlf_lines(lines) + crlf =~= Seq::<char>::empty() + crlf);
        assert(bytes.skip(i) =~= encode_utf8(Seq::<char>::empty() + crlf) + Seq::<u8>::empty());
        lemma_line_at(bytes, i, Seq::empty(), Seq::empty());
        assert(i < bytes.len());
    } else {
        let line = lines[0];
        let rest = lines.skip(1);
        assert(is_line(line) && line.contains(':'));
        assert(crlf_lines(lines) + crlf =~= (line + crlf) + (crlf_lines(rest) + crlf));
        lemma_encode_concat(line + crlf, crlf_lines(rest) + crlf);
        lemma_line_at(bytes, i, line, encode_utf8(crlf_lines(rest) + crlf));
        let end = line_end(bytes, i);
        crate::text::lemma_find_from(line, ':', 0);
        assert(crate::text::find_from(line, ':', 0) < line.len()) by {
            let k = choose|k: int| 0 <= k < line.len() && line[k] == ':';
            assert(line[k] == ':');
        }
        let (name, value) = crate::text::split_once(line, ':').unwrap();
        let next = headers.insert(
            crate::text::lower(crate::text::trim(name)),
            crate::text::trim(value),
        );
        assert(forall|k: int| 0 <= k < rest.len() ==> #[trigger] rest[k] == lines[k + 1]);
        lemma_written_headers(bytes, end, rest, next);
    }
}

/// Reading a request that was written line by line gives what its first line
/// asks for and what its other lines name.
#[verifier::spinoff_prover]
#[verifier::rlimit(40)]
pub proof fn lemma_written_request(bytes: Seq<u8>, line: Seq<char>, lines: Seq<Seq<char>>)
    requires
        bytes == encode_utf8(crlf_lines(seq![line] + lines) + seq!['\r', '\n']),
        is_line(line),
        forall|k: int| 0 <= k < lines.len() ==> is_line(#[trigger] lines[k]) && lines[k].contains(':'),
    ensures
        request_head(bytes) == match requested_mount(line) {
            Err(e) => Err(e),
            Ok(mount) => head_of(mount, with_header_lines(Map::empty(), lines)),
        },
{
    let crlf = seq!['\r', '\n'];
    let all = seq![line] + lines;
    assert(all.skip(1) =~= lines);
    assert(all[0] == line);
    assert(crlf_lines(all) + crlf =~= (line + crlf) + (crlf_lines(lines) + crlf));
    lemma_encode_concat(line + crlf, crlf_lines(lines) + crlf);
    assert(bytes.skip(0) =~= bytes);
    lemma_line_at(bytes, 0, line, encode_utf8(crlf_lines(lines) + crlf));
    let end = line_end(bytes, 0);
    assert(bytes.subrange(0, end) =~= bytes.take(end));
    lemma_written_headers(bytes, end, lines, Map::empty());
}

/// A longer stream whose start is a complete head, ending in a line feed,
/// reads like that head alone.
proof fn lemma_headers_prefix(
    bytes: Seq<u8>,
    audio: Seq<u8>,
    i: int,
    headers: Map<Seq<char>, Seq<char>>,
)
    requires
        0 <= i <= bytes.len(),
        bytes.len() > 0,
        bytes.last() == 10,
        headers_from(bytes, i, headers) is Ok,
    ensures
        headers_from(bytes + audio, i, headers) == headers_from(bytes, i, headers),
    decreases bytes.len() - i,
{
    let all = bytes + audio;
    lemma_line_end(bytes, i);
    lemma_line_end_prefix(bytes, audio, i);
    let end = line_end(bytes, i);
    let raw = bytes.subrange(i, end);
    assert(all.subrange(i, end) =~= raw);
    let line = trim_eol(decode_utf8(raw));
    if line.len() > 0 {
        match crate::text::split_once(line, ':') {
            Some((name, value)) => {
                lemma_headers_prefix(
                    bytes,
                    audio,
                    end,
                    headers.insert(
                        crate::text::lower(crate::text::trim(name)),
                        crate::text::trim(value),
                    ),
                );
            },
            None => {},
        }
    }
}

proof fn lemma_line_end_prefix(bytes: Seq<u8>, audio: Seq<u8>, i: int)
    requires
        0 <= i < bytes.len(),
        bytes.last() == 10,
    ensures
        line_end(bytes + audio, i) == line_end(bytes, i),
    decreases bytes.len() - i,
{
    assert((bytes + audio)[i] == bytes[i]);
    if bytes[i] != 10 {
        lemma_line_end_prefix(bytes, audio, i + 1);
    }
}

proof fn lemma_line_end_take(bytes: Seq<u8>, n: int, i: int)
    requires
        0 <= i <= bytes.len(),
        line_end(bytes, i) <= n <= bytes.len(),
    ensures
        line_end(bytes.take(n), i) == line_end(bytes, i),
    decreases bytes.len() - i,
{
    lemma_line_end(bytes, i);
    if i < bytes.len() && bytes[i] != 10 {
        lemma_line_end_take(bytes, n, i + 1);
        lemma_line_end(bytes, i + 1);
    }
}

/// Headers read the same without what follows their end.
proof fn lemma_headers_take(bytes: Seq<u8>, i: int, headers: Map<Seq<char>, Seq<char>>)
    requires
        0 <= i <= bytes.len(),
        headers_from(bytes, i, headers) is Ok,
    ensures
        i < head_end(bytes, i) <= bytes.len(),
        line_end(bytes, i) <= head_end(bytes, i),
        headers_from(bytes.take(head_end(bytes, i)), i, headers) == headers_from(
            bytes,
            i,
            headers,
        ),
    decreases bytes.len() - i,
{
    lemma_line_end(bytes, i);
    let n = head_end(bytes, i);
    let end = line_end(bytes, i);
    let line = trim_eol(decode_utf8(bytes.subrange(i, end)));
    if line.len() > 0 {
        let (name, value) = crate::text::split_once(line, ':')->Some_0;
        let more = headers.insert(
            crate::text::lower(crate::text::trim(name)),
            crate::text::trim(value),
        );
        assert(headers_from(bytes, end, more) is Ok);
        lemma_headers_take(bytes, end, more);
        assert(head_end(bytes, end) == n);
    }
    lemma_line_end_take(bytes, n, i);
    assert(bytes.take(n).subrange(i, end) =~= bytes.subrange(i, end));
}

/// Exactly the head is read: where there is a complete one, the handshake is
/// that of the head alone, and whatever audio follows the head's last line feed
/// makes no difference to it.
pub proof fn law_audio_after_the_head_is_not_read(bytes: Seq<u8>, audio: Seq<u8>)
    requires
        headers_from(bytes, line_end(bytes, 0), Map::empty()) is Ok,
    ensures
        is_complete_head(bytes, head_len(bytes)),
        handshake(bytes.take(head_len(bytes))) == handshake(bytes),
        bytes[head_len(bytes) - 1] == 10 ==> handshake(bytes.take(head_len(bytes)) + audio)
            == handshake(bytes),
{
    let end = line_end(bytes, 0);
    let n = head_len(bytes);
    let head = bytes.take(n);
    lemma_head_is_complete(bytes);
    lemma_line_end(bytes, 0);
    lemma_headers_take(bytes, end, Map::empty());
    lemma_line_end_take(bytes, n, 0);
    assert(head.take(end) =~= bytes.take(end));
    if bytes[n - 1] == 10 {
        let all = head + audio;
        assert(head.last() == 10);
        lemma_line_end_prefix(head, audio, 0);
        assert(all.take(end) =~= head.take(end));
        lemma_headers_prefix(head, audio, end, Map::empty());
    }
}

// ---------------------------------------------------------------------------
// The state of the live session.

/// Who is live.
#[derive(Debug)]
pub struct LiveSession {
    pub user: String,
    pub display_name: String,
}

/// The state of the live source.
#[derive(Debug)]
pub struct LiveState {
    ready: bool,
    to_live: bool,
    session: Option<LiveSession>,
}

/// The state of the live source as mathematical values.
pub struct LiveView {
    /// Whether the source has produced audio and is still connected.
    pub ready: bool,
    /// Whether the playback loop has seen that.
    pub to_live: bool,
    /// The user and the display name of the session.
    pub session: Option<(Seq<char>, Seq<char>)>,
}

impl View for LiveState {
    type V = LiveView;

    closed spec fn view(&self) -> LiveView {
        LiveView {
            ready: self.ready,
            to_live: self.to_live,
            session: match self.session {
                Some(s) => Some((s.user@, s.display_name@)),
                None => None,
            },
        }
    }
}

/// Nobody is live.
pub open spec fn nobody_live() -> LiveView {
    LiveView { ready: false, to_live: false, session: None }
}

impl Default for LiveState {
    fn default() -> (live: LiveState)
        ensures
            live@ == nobody_live(),
    {
        LiveState::new()
    }
}

impl LiveState {
    /// Nobody is live.
    pub fn new() -> (live: LiveState)
        ensures
            live@ == nobody_live(),
    {
        LiveState { ready: false, to_live: false, session: None }
    }

    /// Whether the connected source has produced audio.
    pub fn is_ready(&self) -> (ready: bool)
        ensures
            ready == self@.ready,
    {
        self.ready
    }

    /// The user who is live. Stays set after a disconnect until the station
    /// has been told.
    pub fn live_dj(&self) -> (user: Option<String>)
        ensures
            crate::text::opt_view(user) == match self@.session {
                Some((user, _)) => Some(user),
                None => None,
            },
    {
        match &self.session {
            Some(s) => Some(s.user.clone()),
            None => None,
        }
    }

    /// The display name of the user who is live.
    pub fn live_dj_name(&self) -> (name: Option<String>)
        ensures
            crate::text::opt_view(name) == match self@.session {
                Some((_, name)) => Some(name),
                None => None,
            },
    {
        match &self.session {
            Some(s) => Some(s.display_name.clone()),
            None => None,
        }
    }

    /// Whether a session is taken.
    pub fn has_session(&self) -> (yes: bool)
        ensures
            yes == self@.session is Some,
    {
        self.session.is_some()
    }

    /// Whether the live source became ready since this was last called. Called
    /// once per round of the playback loop.
    pub fn poll_transition(&mut self) -> (edge: bool)
        ensures
            edge == (old(self)@.ready && !old(self)@.to_live),
            final(self)@ == (LiveView { to_live: old(self)@.ready, ..old(self)@ }),
    {
        let edge = self.ready && !self.to_live;
        self.to_live = self.ready;
        edge
    }

    /// Whether there is a connection to close. Closing it runs the same
    /// sequence as a disconnect by the client.
    pub fn force_disconnect(&self) -> (yes: bool)
        ensures
            yes == self@.session is Some,
    {
        self.session.is_some()
    }

    /// Takes the session.
    pub fn set_session(&mut self, user: String, display_name: String)
        ensures
            final(self)@ == (LiveView { session: Some((user@, display_name@)), ..old(self)@ }),
    {
        self.session = Some(LiveSession { user, display_name });
    }

    /// The source has produced audio.
    pub fn mark_ready(&mut self)
        ensures
            final(self)@ == (LiveView { ready: true, ..old(self)@ }),
    {
        self.ready = true;
    }

    /// The source has disconnected. Takes effect at once; who was live stays
    /// known.
    pub fn mark_disconnected(&mut self)
        ensures
            final(self)@ == (LiveView { ready: false, ..old(self)@ }),
    {
        self.ready = false;
    }

    /// Gives the session up, once the station has been told of the disconnect.
    pub fn clear_session(&mut self)
        ensures
            final(self)@ == (LiveView { session: None, ..old(self)@ }),
    {
        self.session = None;
    }
}

/// Something that happens to the session of a DJ.
#[derive(Debug)]
pub enum SessionEvent {
    /// This user has been let in.
    Admitted(String),
    /// The connection is ready to be read.
    Connected(LiveSession),
    /// The first audio has been decoded.
    FirstAudio,
    /// The stream of this user has ended.
    StreamEnded(String),
    /// The station has answered that the DJ is off, or has failed to.
    OffAnswered,
}

/// What is to be done about it.
#[derive(Debug)]
pub enum SessionAction {
    /// Tell the station that this user is on, and do not wait for its answer.
    ReportOn(String),
    /// Read and decode the stream.
    Decode,
    /// Nothing: go on.
    Continue,
    /// Tell the station that this user is off, and wait for its answer.
    ReportOff(String),
    /// Let go of the connection.
    Release,
}

/// What follows from an event. The source is off at once when its stream ends;
/// who was live stays known until the station has answered to that.
pub open spec fn session_step(
    before: LiveView,
    event: SessionEvent,
    after: LiveView,
    action: SessionAction,
) -> bool {
    match event {
        SessionEvent::Admitted(user) => {
            &&& after == before
            &&& action matches SessionAction::ReportOn(u)
            &&& u@ == user@
        },
        SessionEvent::Connected(session) => {
            &&& after == (LiveView {
                session: Some((session.user@, session.display_name@)),
                ..before
            })
            &&& action is Decode
        },
        SessionEvent::FirstAudio => {
            &&& after == (LiveView { ready: true, ..before })
            &&& action is Continue
        },
        SessionEvent::StreamEnded(user) => {
            &&& after == (LiveView { ready: false, ..before })
            &&& action matches SessionAction::ReportOff(u)
            &&& u@ == user@
        },
        SessionEvent::OffAnswered => {
            &&& after == (LiveView { session: None, ..before })
            &&& action is Release
        },
    }
}

/// Takes note of an event in the session of a DJ, and decides what it asks for.
pub fn on_session_event(live: &mut LiveState, event: SessionEvent) -> (action: SessionAction)
    ensures
        session_step(old(live)@, event, final(live)@, action),
{
    match event {
        SessionEvent::Admitted(user) => SessionAction::ReportOn(user),
        SessionEvent::Connected(session) => {
            live.set_session(session.user, session.display_name);
            SessionAction::Decode
        },
        SessionEvent::FirstAudio => {
            live.mark_ready();
            SessionAction::Continue
        },
        SessionEvent::StreamEnded(user) => {
            live.mark_disconnected();
            SessionAction::ReportOff(user)
        },
        SessionEvent::OffAnswered => {
            live.clear_session();
            SessionAction::Release
        },
    }
}

/// A DJ leaves in order. When the stream ends, the source is not ready any
/// more, the station is told, and who was live is still known; only when the
/// station has answered is the session given up. No other event but a new
/// connection touches it.
pub proof fn law_a_dj_leaves_in_order(
    before: LiveView,
    event: SessionEvent,
    after: LiveView,
    action: SessionAction,
)
    requires
        session_step(before, event, after, action),
    ensures
        event is StreamEnded <==> action is ReportOff,
        event is StreamEnded ==> !after.ready && after.session == before.session,
        before.session is Some && after.session is None ==> event is OffAnswered,
        event is OffAnswered ==> after.session is None && after.ready == before.ready,
        after.session != before.session ==> event is OffAnswered || event is Connected,
        !before.ready && after.ready ==> event is FirstAudio,
{
}

/// What a series of polls returns, given what the readiness was at each, where
/// `seen` tells whether the last poll before them found the source ready.
pub open spec fn polled_edges(ready: Seq<bool>, seen: bool) -> Seq<bool>
    decreases ready.len(),
{
    if ready.len() == 0 {
        Seq::empty()
    } else {
        seq![ready[0] && !seen] + polled_edges(ready.skip(1), ready[0])
    }
}

/// The edge fires once per period of readiness: a poll reports it exactly
/// where it finds the source ready and the poll before it did not.
pub proof fn law_live_edge_fires_once_per_ready_period(ready: Seq<bool>, seen: bool, i: int)
    requires
        0 <= i < ready.len(),
    ensures
        polled_edges(ready, seen).len() == ready.len(),
        polled_edges(ready, seen)[i] == (ready[i] && !(if i == 0 {
            seen
        } else {
            ready[i - 1]
        })),
    decreases ready.len(),
{
    let rest = ready.skip(1);
    lemma_polled_len(rest, ready[0]);
    if i > 0 {
        law_live_edge_fires_once_per_ready_period(rest, ready[0], i - 1);
        assert(polled_edges(ready, seen)[i] == polled_edges(rest, ready[0])[i - 1]);
    }
}

proof fn lemma_polled_len(ready: Seq<bool>, seen: bool)
    ensures
        polled_edges(ready, seen).len() == ready.len(),
    decreases ready.len(),
{
    if ready.len() > 0 {
        lemma_polled_len(ready.skip(1), ready[0]);
    }
}

// ---------------------------------------------------------------------------
// Admission.

/// How a connection is refused: the answer that it gets, and the message.
#[derive(Debug)]
pub struct Rejection {
    pub status: u16,
    pub reason: &'static str,
    pub message: String,
}

/// Whether a rejection says this.
pub open spec fn rejects_with(
    r: Rejection,
    status: u16,
    reason: Seq<char>,
    message: Seq<char>,
) -> bool {
    r.status == status && r.reason@ == reason && r.message@ == message
}

/// Decides whether a handshake may go on to authentication. It has to ask for
/// the one mount point that there is, and nobody else may be live.
pub fn check_admission(handshake: &HarborHandshake, mount_point: &str, has_session: bool) -> (r:
    Result<(), Rejection>)
    ensures
        match r {
            Ok(_) => handshake.mount@ == mount_point@ && !has_session,
            Err(e) => if handshake.mount@ != mount_point@ {
                rejects_with(
                    e,
                    404,
                    "Not Found"@,
                    "rejected: mount '"@ + handshake.mount@
                        + "' does not match configured mount '"@ + mount_point@ + "'"@,
                )
            } else {
                has_session && rejects_with(
                    e,
                    403,
                    "Mount In Use"@,
                    "rejected: a live session is already active on this mount"@,
                )
            },
        },
{
    if !same_text(handshake.mount.as_str(), mount_point) {
        let mut m = message(
            "rejected: mount '",
            handshake.mount.as_str(),
            "' does not match configured mount '",
        );
        m.append(mount_point);
        m.append("'");
        return Err(Rejection { status: 404, reason: "Not Found", message: m });
    }
    if has_session {
        return Err(
            Rejection {
                status: 403,
                reason: "Mount In Use",
                message: "rejected: a live session is already active on this mount".to_owned(),
            },
        );
    }
    Ok(())
}

/// The display name of a session whose user has none.
pub const DEFAULT_LIVE_BROADCAST_TEXT: &'static str = "Live Broadcast";

/// The user and the display name of an admitted session: what the station
/// says, or else the handshake's user and a fixed text.
pub open spec fn session_names(
    user: Seq<char>,
    auth: DjAuthResponse,
) -> (Seq<char>, Seq<char>) {
    (
        match auth.username {
            Some(name) => name@,
            None => user,
        },
        match auth.display_name {
            Some(name) => name@,
            None => DEFAULT_LIVE_BROADCAST_TEXT@,
        },
    )
}

/// Decides whether a user may go live, by the station's answer.
pub fn check_auth(handshake: &HarborHandshake, auth: Result<DjAuthResponse, String>) -> (r: Result<
    LiveSession,
    Rejection,
>)
    ensures
        match r {
            Ok(session) => {
                &&& auth matches Ok(a)
                &&& a.allow
                &&& (session.user@, session.display_name@) == session_names(handshake.user@, a)
            },
            Err(e) => match auth {
                Ok(a) => !a.allow && rejects_with(
                    e,
                    401,
                    "Unauthorized"@,
                    "auth rejected for user '"@ + handshake.user@ + "'"@,
                ),
                Err(m) => rejects_with(
                    e,
                    401,
                    "Unauthorized"@,
                    "auth callback failed: "@ + m@,
                ),
            },
        },
{
    match auth {
        Ok(a) => {
            if !a.allow {
                return Err(
                    Rejection {
                        status: 401,
                        reason: "Unauthorized",
                        message: message("auth rejected for user '", handshake.user.as_str(), "'"),
                    },
                );
            }
            let user = match a.username {
                Some(name) => name,
                None => handshake.user.clone(),
            };
            let display_name = match a.display_name {
                Some(name) => name,
                None => DEFAULT_LIVE_BROADCAST_TEXT.to_owned(),
            };
            Ok(LiveSession { user, display_name })
        },
        Err(m) => {
            let mut text = "auth callback failed: ".to_owned();
            text.append(m.as_str());
            Err(Rejection { status: 401, reason: "Unauthorized", message: text })
        },
    }
}

/// The answer to a source client: a status line and a blank line.
pub fn response_text(status: u16, reason: &str) -> (text: String)
    ensures
        text@ == "HTTP/1.0 "@ + crate::text::decimal(status as nat) + " "@ + reason@ + seq![
            '\r',
            '\n',
            '\r',
            '\n',
        ],
{
    let mut text = "HTTP/1.0 ".to_owned();
    push_decimal(&mut text, status as u64);
    text.append(" ");
    text.append(reason);
    text.push('\r');
    text.push('\n');
    text.push('\r');
    text.push('\n');
    assert(text@ =~= "HTTP/1.0 "@ + crate::text::decimal(status as nat) + " "@ + reason@ + seq![
        '\r',
        '\n',
        '\r',
        '\n',
    ]);
    text
}

// ---------------------------------------------------------------------------
// Reading the header block.

/// How many bytes of request line and headers are read at most, up to the end
/// of the line that goes over.
pub const MAX_HEADER_BLOCK_BYTES: usize = 8192;

/// The request line and the headers as far as they have been read.
#[derive(Debug)]
pub struct HeaderBlock {
    pub text: String,
}

impl HeaderBlock {
    /// Nothing has been read yet.
    pub fn new() -> (block: HeaderBlock)
        ensures
            block.text@ == Seq::<char>::empty(),
    {
        HeaderBlock { text: String::new() }
    }

    /// Whether another line may be read.
    pub fn check_size(&self) -> (r: Result<(), String>)
        ensures
            match r {
                Ok(_) => encode_utf8(self.text@).len() <= MAX_HEADER_BLOCK_BYTES,
                Err(e) => {
                    &&& encode_utf8(self.text@).len() > MAX_HEADER_BLOCK_BYTES
                    &&& e@ == "header block exceeded maximum size"@
                },
            },
    {
        if self.text.as_str().as_bytes().len() > MAX_HEADER_BLOCK_BYTES {
            Err("header block exceeded maximum size".to_owned())
        } else {
            Ok(())
        }
    }

    /// Takes a line that was read, with its line end; no line at all means
    /// that the connection was closed. Returns whether the block is complete.
    pub fn add_line(&mut self, line: &str) -> (r: Result<bool, String>)
        ensures
            match r {
                Ok(complete) => {
                    &&& line@.len() > 0
                    &&& final(self).text@ == old(self).text@ + line@
                    &&& complete == crate::output::is_blank(line@)
                },
                Err(e) => {
                    &&& line@.len() == 0
                    &&& final(self).text@ == old(self).text@
                    &&& e@ == "connection closed before headers completed"@
                },
            },
    {
        if line.is_empty() {
            return Err("connection closed before headers completed".to_owned());
        }
        self.text.append(line);
        Ok(is_blank_line(line))
    }
}

/// A line as it is read: its only line feed is at its end.
pub open spec fn is_read_line(line: Seq<char>) -> bool {
    &&& line.len() > 0
    &&& line.last() == '\n'
    &&& !line.drop_last().contains('\n')
}

/// Lines that make a complete header block: the last one is blank.
pub open spec fn is_complete_block(lines: Seq<Seq<char>>) -> bool {
    &&& lines.len() > 0
    &&& forall|k: int| 0 <= k < lines.len() ==> is_read_line(#[trigger] lines[k])
    &&& crate::output::is_blank(lines.last())
}

/// The lines, one after the other.
pub open spec fn all_lines(lines: Seq<Seq<char>>) -> Seq<char>
    decreases lines.len(),
{
    if lines.len() == 0 {
        Seq::empty()
    } else {
        lines[0] + all_lines(lines.skip(1))
    }
}

proof fn lemma_read_line_at(bytes: Seq<u8>, i: int, line: Seq<char>, rest: Seq<u8>)
    requires
        0 <= i <= bytes.len(),
        is_read_line(line),
        bytes.skip(i) == encode_utf8(line) + rest,
    ensures
        ({
            let end = line_end(bytes, i);
            let raw = bytes.subrange(i, end);
            &&& i < end <= bytes.len()
            &&& bytes.skip(end) == rest
            &&& valid_utf8(raw)
            &&& decode_utf8(raw) == line
        }),
{
    let body = line.drop_last();
    let lf = seq!['\n'];
    let enc = encode_utf8(line);
    let head = encode_utf8(body);
    assert(line =~= body + lf);
    lemma_encode_concat(body, lf);
    is_ascii_chars_encode_utf8(lf);
    assert(encode_utf8(lf).len() == 1 && encode_utf8(lf)[0] == 10);
    lemma_encode_no_lf(body);
    let tail = bytes.skip(i);
    assert(tail.len() == enc.len() + rest.len());
    assert(forall|k: int| 0 <= k < tail.len() ==> tail[k] == #[trigger] bytes[i + k]);
    let end = i + enc.len();
    assert forall|k: int| i <= k < end - 1 implies #[trigger] bytes[k] != 10 by {
        assert(bytes[i + (k - i)] == tail[k - i]);
        assert(tail[k - i] == enc[k - i]);
        assert(enc[k - i] == head[k - i]);
    }
    assert(bytes[i + (enc.len() - 1)] == tail[enc.len() - 1]);
    lemma_line_end_is(bytes, i, end);
    let raw = bytes.subrange(i, end);
    assert(raw =~= enc) by {
        assert forall|k: int| 0 <= k < raw.len() implies raw[k] == enc[k] by {
            assert(raw[k] == bytes[i + k]);
        }
    }
    assert(bytes.skip(end) =~= rest) by {
        assert(bytes.skip(end) =~= tail.skip(enc.len() as int));
        assert(tail.skip(enc.len() as int) =~= rest);
    }
    encode_utf8_valid_utf8(line);
    encode_utf8_decode_utf8(line);
}

proof fn lemma_block_headers(
    bytes: Seq<u8>,
    i: int,
    lines: Seq<Seq<char>>,
    headers: Map<Seq<char>, Seq<char>>,
)
    requires
        0 <= i <= bytes.len(),
        is_complete_block(lines),
        bytes.skip(i) == encode_utf8(all_lines(lines)),
    ensures
        headers_from(bytes, i, headers) matches Err(e) ==> e
            != "connection closed before headers completed"@,
    decreases lines.len(),
{
    let line = lines[0];
    let rest = lines.skip(1);
    assert(is_read_line(line));
    lemma_encode_concat(line, all_lines(rest));
    lemma_read_line_at(bytes, i, line, encode_utf8(all_lines(rest)));
    let end = line_end(bytes, i);
    let trimmed = trim_eol(line);
    reveal_strlit("connection closed before headers completed");
    reveal_strlit("malformed header line: '");
    if lines.len() == 1 {
        lemma_blank_trims_to_nothing(line);
    } else if trimmed.len() > 0 {
        match crate::text::split_once(trimmed, ':') {
            Some((name, value)) => {
                assert(rest.last() == lines.last());
                assert(forall|k: int| 0 <= k < rest.len() ==> #[trigger] rest[k] == lines[k + 1]);
                lemma_block_headers(
                    bytes,
                    end,
                    rest,
                    headers.insert(
                        crate::text::lower(crate::text::trim(name)),
                        crate::text::trim(value),
                    ),
                );
            },
            None => {
                let e = "malformed header line: '"@ + trimmed + "'"@;
                assert(e[0] == 'm');
                assert("connection closed before headers completed"@[0] == 'c');
            },
        }
    }
}

proof fn lemma_blank_trims_to_nothing(line: Seq<char>)
    requires
        crate::output::is_blank(line),
    ensures
        trim_eol(line).len() == 0,
{
    if line.len() == 2 {
        assert(line.drop_last() =~= seq!['\r']);
        assert(seq!['\r'].drop_last() =~= Seq::<char>::empty());
        assert(trim_eol(line) == trim_eol(seq!['\r']));
        assert(trim_eol(seq!['\r']) == trim_eol(Seq::<char>::empty()));
    } else {
        assert(line.drop_last() =~= Seq::<char>::empty());
        assert(trim_eol(line) == trim_eol(Seq::<char>::empty()));
    }
}

/// A header block that was read to its blank line is never found to be cut
/// short when it is parsed.
#[verifier::spinoff_prover]
#[verifier::rlimit(40)]
pub proof fn law_complete_block_is_not_cut_short(lines: Seq<Seq<char>>)
    requires
        is_complete_block(lines),
    ensures
        request_head(encode_utf8(all_lines(lines))) matches Err(e) ==> e
            != "connection closed before headers completed"@,
{
    let bytes = encode_utf8(all_lines(lines));
    let line = lines[0];
    let rest = lines.skip(1);
    assert(is_read_line(line));
    lemma_encode_concat(line, all_lines(rest));
    assert(bytes.skip(0) =~= bytes);
    lemma_read_line_at(bytes, 0, line, encode_utf8(all_lines(rest)));
    let end = line_end(bytes, 0);
    assert(bytes.subrange(0, end) =~= bytes.take(end));
    reveal_strlit("connection closed before headers completed");
    reveal_strlit("empty request line");
    reveal_strlit("malformed request line: '");
    reveal_strlit("unsupported source method '");
    reveal_strlit("malformed mount point '");
    reveal_strlit("missing Authorization header");
    reveal_strlit("Authorization header is not 'Basic <credentials>'");
    let cut_short = "connection closed before headers completed"@;
    assert(cut_short[0] == 'c');
    let trimmed = trim_eol(line);
    let parts = crate::text::words(trimmed);
    assert("empty request line"@[0] == 'e');
    assert(("malformed request line: '"@ + trimmed + "'"@)[0] == 'm');
    if parts.len() >= 2 {
        assert(("unsupported source method '"@ + parts[0]
            + "' (expected SOURCE or PUT -- legacy Shoutcast framing is out of scope for this engine)"@)[0]
            == 'u');
        assert(("malformed mount point '"@ + parts[1] + "' (expected a leading '/')"@)[0] == 'm');
    }
    assert("missing Authorization header"@[0] == 'm');
    assert("Authorization header is not 'Basic <credentials>'"@[0] == 'A');
    if lines.len() == 1 {
        lemma_blank_trims_to_nothing(line);
    } else {
        assert(rest.last() == lines.last());
        assert(forall|k: int| 0 <= k < rest.len() ==> #[trigger] rest[k] == lines[k + 1]);
        lemma_block_headers(bytes, end, rest, Map::empty());
    }
}

} // verus!
