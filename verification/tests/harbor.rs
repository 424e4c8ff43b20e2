use azuracast_engine::callbacks::DjAuthResponse;
use azuracast_engine::harbor::{
    check_admission, check_auth, finish_handshake, on_session_event, parse_handshake,
    parse_request_head, response_text, HarborHandshake, HeaderBlock, LiveSession, LiveState,
    RequestHead, SessionAction, SessionEvent, MAX_HEADER_BLOCK_BYTES,
};
use base64::engine::general_purpose::STANDARD;
use base64::Engine;

fn basic_auth_header(user: &str, pass: &str) -> String {
    STANDARD.encode(format!("{user}:{pass}"))
}

#[test]
fn parses_source_request_with_basic_auth() {
    let auth = basic_auth_header("streamer1", "hunter2");
    let raw = format!(
        "SOURCE /live ICE/1.0\r\nAuthorization: Basic {auth}\r\nContent-Type: audio/mpeg\r\nUser-Agent: BUTT\r\n\r\n"
    );
    let hs = parse_handshake(raw.as_bytes()).expect("should parse");
    assert_eq!(hs.mount, "/live");
    assert_eq!(hs.user, "streamer1");
    assert_eq!(hs.password, "hunter2");
    assert_eq!(hs.content_type.as_deref(), Some("audio/mpeg"));
}

#[test]
fn parses_put_request() {
    let auth = basic_auth_header("dj", "pw");
    let raw = format!("PUT /live HTTP/1.0\r\nAuthorization: Basic {auth}\r\n\r\n");
    let hs = parse_handshake(raw.as_bytes()).expect("should parse");
    assert_eq!(hs.mount, "/live");
    assert_eq!(hs.user, "dj");
    assert_eq!(hs.password, "pw");
    assert_eq!(hs.content_type, None);
}

#[test]
fn rejects_unsupported_method() {
    let raw = b"GET /live HTTP/1.0\r\nAuthorization: Basic Zm9vOmJhcg==\r\n\r\n";
    assert!(parse_handshake(&raw[..]).is_err());
}

#[test]
fn rejects_missing_authorization_header() {
    let raw = b"SOURCE /live ICE/1.0\r\nContent-Type: audio/mpeg\r\n\r\n";
    assert!(parse_handshake(&raw[..]).is_err());
}

#[test]
fn rejects_non_basic_authorization() {
    let raw = b"SOURCE /live ICE/1.0\r\nAuthorization: Bearer sometoken\r\n\r\n";
    assert!(parse_handshake(&raw[..]).is_err());
}

#[test]
fn rejects_malformed_base64() {
    let raw = b"SOURCE /live ICE/1.0\r\nAuthorization: Basic not-valid-base64!!!\r\n\r\n";
    assert!(parse_handshake(&raw[..]).is_err());
}

#[test]
fn rejects_credentials_missing_colon() {
    let b64 = STANDARD.encode("nocolonhere");
    let raw = format!("SOURCE /live ICE/1.0\r\nAuthorization: Basic {b64}\r\n\r\n");
    assert!(parse_handshake(raw.as_bytes()).is_err());
}

#[test]
fn rejects_mount_without_leading_slash() {
    let auth = basic_auth_header("u", "p");
    let raw = format!("SOURCE live ICE/1.0\r\nAuthorization: Basic {auth}\r\n\r\n");
    assert!(parse_handshake(raw.as_bytes()).is_err());
}

#[test]
fn rejects_malformed_header_line() {
    let raw = b"SOURCE /live ICE/1.0\r\nNotAHeaderLine\r\n\r\n";
    assert!(parse_handshake(&raw[..]).is_err());
}

#[test]
fn rejects_truncated_connection_before_headers_complete() {
    let raw = b"SOURCE /live ICE/1.0\r\nAuthorization: Basic Zm9vOmJhcg==\r\n";
    assert!(parse_handshake(&raw[..]).is_err());
}

#[test]
fn live_state_poll_transition_fires_once_per_ready_period() {
    let mut live = LiveState::new();
    assert!(!live.poll_transition());
    live.mark_ready();
    assert!(live.poll_transition(), "first ready poll should be the edge");
    assert!(!live.poll_transition(), "subsequent polls while ready should not re-fire");
    live.mark_disconnected();
    assert!(!live.poll_transition());
    live.mark_ready();
    assert!(
        live.poll_transition(),
        "becoming ready again after a disconnect should re-fire the edge"
    );
}

fn message_for(raw: &[u8]) -> String {
    parse_handshake(raw).unwrap_err()
}

#[test]
fn every_handshake_error_has_its_message() {
    assert_eq!(message_for(b""), "empty request line");
    assert_eq!(message_for(b"\r\n"), "empty request line");
    assert_eq!(message_for(b"SOURCE\r\n"), "malformed request line: 'SOURCE'");
    assert_eq!(
        message_for(b"GET /live HTTP/1.0\r\n\r\n"),
        "unsupported source method 'GET' (expected SOURCE or PUT -- legacy Shoutcast framing is out of scope for this engine)"
    );
    assert_eq!(
        message_for(b"PUT live HTTP/1.0\r\n\r\n"),
        "malformed mount point 'live' (expected a leading '/')"
    );
    assert_eq!(
        message_for(b"\xff /live\r\n\r\n"),
        "failed to read request line: stream did not contain valid UTF-8"
    );
    assert_eq!(
        message_for(b"PUT /live X\r\nA: \xff\r\n\r\n"),
        "failed to read header line: stream did not contain valid UTF-8"
    );
    assert_eq!(message_for(b"PUT /live X\r\nNope\r\n\r\n"), "malformed header line: 'Nope'");
    assert_eq!(
        message_for(b"PUT /live X\r\nA: b\r\n"),
        "connection closed before headers completed"
    );
    assert_eq!(message_for(b"PUT /live X"), "connection closed before headers completed");
    assert_eq!(message_for(b"PUT /live X\r\n\r\n"), "missing Authorization header");
    assert_eq!(
        message_for(b"PUT /live X\r\nAuthorization: basic Zm9v\r\n\r\n"),
        "Authorization header is not 'Basic <credentials>'"
    );
    assert_eq!(
        message_for(b"PUT /live X\r\nAuthorization: Basic !\r\n\r\n"),
        format!(
            "failed to base64-decode Authorization header: {}",
            STANDARD.decode("!").unwrap_err()
        )
    );
    let not_text = STANDARD.encode([0xffu8, b':']);
    assert_eq!(
        message_for(format!("PUT /live X\r\nAuthorization: Basic {not_text}\r\n\r\n").as_bytes()),
        format!(
            "Authorization payload is not valid UTF-8: {}",
            String::from_utf8(vec![0xff, b':']).unwrap_err()
        )
    );
    assert_eq!(
        message_for(b"PUT /live X\r\nAuthorization: Basic Zm9v\r\n\r\n"),
        "Authorization payload missing ':' separator"
    );
}

#[test]
fn header_names_are_case_insensitive_and_the_last_one_wins() {
    let one = basic_auth_header("one", "1");
    let two = basic_auth_header("two", "2:3");
    let raw = format!(
        "SOURCE\t/live ICE/1.0\nAUTHORIZATION : Basic {one}\nauthorization:Basic   {two}  \nContent-type:\u{a0}audio/ogg\n\nmore: audio"
    );
    let hs = parse_handshake(raw.as_bytes()).unwrap();
    assert_eq!(hs.mount, "/live");
    assert_eq!(hs.user, "two");
    assert_eq!(hs.password, "2:3");
    assert_eq!(hs.content_type.as_deref(), Some("audio/ogg"));
}

#[test]
fn audio_after_the_blank_line_is_not_read() {
    let auth = basic_auth_header("u", "p");
    let mut raw = format!("PUT /live X\r\nAuthorization: Basic {auth}\r\n\r\n").into_bytes();
    let alone = parse_handshake(&raw).unwrap();
    raw.extend_from_slice(&[0xff, 0xfb, 0x90, b'\n', 0x00]);
    assert_eq!(parse_handshake(&raw).unwrap(), alone);
}

#[test]
fn a_head_ends_at_its_first_blank_line() {
    let auth = basic_auth_header("u", "p");
    // Carriage returns alone do not fill a line.
    let raw = format!("PUT /live X\nAuthorization: Basic {auth}\n\r\r\nNope\n\n");
    assert_eq!(parse_handshake(raw.as_bytes()).unwrap().user, "u");
    // A space does.
    let raw = format!("PUT /live X\nAuthorization: Basic {auth}\n \r\n\n");
    assert_eq!(message_for(raw.as_bytes()), "malformed header line: ' '");
    // Without its last line feed a blank line is not complete.
    let raw = format!("PUT /live X\nAuthorization: Basic {auth}\n\r");
    let whole = format!("{raw}\n");
    assert_eq!(parse_handshake(whole.as_bytes()).unwrap().user, "u");
    assert!(parse_handshake(format!("PUT /live X\nAuthorization: Basic {auth}\n").as_bytes()).is_err());
}

#[test]
fn only_what_base64_encoding_writes_is_read() {
    for text in ["Zm9vOg", "Zm9vOg=", "Zm9vOg===", "Zm9vOh==", "Zm9v Og==", "Zm9vOg==Zg==", "Zm9-Og=="] {
        let raw = format!("PUT /live X\nAuthorization: Basic {text}\n\n");
        assert_eq!(
            message_for(raw.as_bytes()),
            format!(
                "failed to base64-decode Authorization header: {}",
                STANDARD.decode(text).unwrap_err()
            )
        );
    }
    let raw = b"PUT /live X\nAuthorization: Basic Zm9vOg==\n\n";
    let hs = parse_handshake(&raw[..]).unwrap();
    assert_eq!((hs.user.as_str(), hs.password.as_str()), ("foo", ""));
}

#[test]
fn a_handshake_is_finished_from_its_head_and_decoded_credentials() {
    let raw = b"PUT /m X\r\nAuthorization: Basic  abc \r\n\r\n";
    let head = parse_request_head(&raw[..]).unwrap();
    assert_eq!(head.mount, "/m");
    assert_eq!(head.credentials, "abc");
    assert_eq!(head.content_type, None);
    let done = finish_handshake(head, Ok(b"a:b:c".to_vec())).unwrap();
    assert_eq!((done.user.as_str(), done.password.as_str()), ("a", "b:c"));

    let head = RequestHead {
        mount: "/m".to_string(),
        credentials: String::new(),
        content_type: Some("x/y".to_string()),
    };
    assert_eq!(
        finish_handshake(head, Err("bad".to_string())),
        Err("failed to base64-decode Authorization header: bad".to_string())
    );
}

#[test]
fn who_is_live_stays_known_until_the_session_is_cleared() {
    let mut live = LiveState::default();
    assert!(!live.has_session());
    assert!(!live.force_disconnect());
    assert_eq!(live.live_dj(), None);
    live.set_session("dj".to_string(), "DJ Name".to_string());
    assert!(live.has_session());
    assert!(live.force_disconnect());
    assert!(!live.is_ready());
    live.mark_ready();
    assert!(live.is_ready());
    live.mark_disconnected();
    assert!(!live.is_ready());
    assert_eq!(live.live_dj().as_deref(), Some("dj"));
    assert_eq!(live.live_dj_name().as_deref(), Some("DJ Name"));
    live.clear_session();
    assert_eq!(live.live_dj(), None);
    assert_eq!(live.live_dj_name(), None);
}

#[test]
fn a_dj_leaves_in_order() {
    let mut live = LiveState::new();
    match on_session_event(&mut live, SessionEvent::Admitted("dj".to_string())) {
        SessionAction::ReportOn(user) => assert_eq!(user, "dj"),
        other => panic!("unexpected action {other:?}"),
    }
    assert!(!live.has_session());

    let session = LiveSession { user: "dj".to_string(), display_name: "DJ".to_string() };
    assert!(matches!(
        on_session_event(&mut live, SessionEvent::Connected(session)),
        SessionAction::Decode
    ));
    assert!(live.has_session() && !live.is_ready());
    assert!(matches!(
        on_session_event(&mut live, SessionEvent::FirstAudio),
        SessionAction::Continue
    ));
    assert!(live.is_ready());

    match on_session_event(&mut live, SessionEvent::StreamEnded("dj".to_string())) {
        SessionAction::ReportOff(user) => assert_eq!(user, "dj"),
        other => panic!("unexpected action {other:?}"),
    }
    assert!(!live.is_ready());
    assert_eq!(live.live_dj().as_deref(), Some("dj"));
    assert_eq!(live.live_dj_name().as_deref(), Some("DJ"));

    assert!(matches!(
        on_session_event(&mut live, SessionEvent::OffAnswered),
        SessionAction::Release
    ));
    assert!(!live.has_session());
}

fn handshake() -> HarborHandshake {
    HarborHandshake {
        mount: "/live".to_string(),
        user: "dj".to_string(),
        password: "pw".to_string(),
        content_type: None,
    }
}

#[test]
fn refused_clients_are_told_why() {
    let hs = handshake();
    let e = check_admission(&hs, "/other", true).unwrap_err();
    assert_eq!((e.status, e.reason), (404, "Not Found"));
    assert_eq!(
        e.message,
        "rejected: mount '/live' does not match configured mount '/other'"
    );
    let e = check_admission(&hs, "/live", true).unwrap_err();
    assert_eq!((e.status, e.reason), (403, "Mount In Use"));
    assert_eq!(e.message, "rejected: a live session is already active on this mount");
    assert!(check_admission(&hs, "/live", false).is_ok());

    let e = check_auth(&hs, Ok(DjAuthResponse::default())).unwrap_err();
    assert_eq!((e.status, e.reason), (401, "Unauthorized"));
    assert_eq!(e.message, "auth rejected for user 'dj'");
    let e = check_auth(&hs, Err("down".to_string())).unwrap_err();
    assert_eq!((e.status, e.reason), (401, "Unauthorized"));
    assert_eq!(e.message, "auth callback failed: down");
}

#[test]
fn admitted_clients_have_names() {
    let hs = handshake();
    let s = check_auth(
        &hs,
        Ok(DjAuthResponse { allow: true, username: None, display_name: None }),
    )
    .unwrap();
    assert_eq!((s.user.as_str(), s.display_name.as_str()), ("dj", "Live Broadcast"));
    let s = check_auth(
        &hs,
        Ok(DjAuthResponse {
            allow: true,
            username: Some("real".to_string()),
            display_name: Some("Real DJ".to_string()),
        }),
    )
    .unwrap();
    assert_eq!((s.user.as_str(), s.display_name.as_str()), ("real", "Real DJ"));
}

#[test]
fn answers_are_a_status_line_and_a_blank_line() {
    assert_eq!(response_text(404, "Not Found"), "HTTP/1.0 404 Not Found\r\n\r\n");
    assert_eq!(response_text(200, "OK"), "HTTP/1.0 200 OK\r\n\r\n");
}

#[test]
fn header_blocks_end_at_the_blank_line() {
    let mut block = HeaderBlock::new();
    assert!(block.check_size().is_ok());
    assert_eq!(block.add_line("PUT /live X\r\n"), Ok(false));
    assert_eq!(block.add_line("A: b\r\n"), Ok(false));
    assert_eq!(block.add_line("\r\n"), Ok(true));
    assert_eq!(block.text, "PUT /live X\r\nA: b\r\n\r\n");
    assert_eq!(
        block.add_line(""),
        Err("connection closed before headers completed".to_string())
    );
    assert_eq!(HeaderBlock::new().add_line("\n"), Ok(true));
}

#[test]
fn header_blocks_have_a_limit() {
    let mut block = HeaderBlock::new();
    block.add_line(&"x".repeat(MAX_HEADER_BLOCK_BYTES)).unwrap();
    assert!(block.check_size().is_ok());
    block.add_line("y").unwrap();
    assert_eq!(block.check_size(), Err("header block exceeded maximum size".to_string()));
}
