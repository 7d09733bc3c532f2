use iterm2_api::codec::{decode_node, decode_session, decode_tab, decode_window};
use iterm2_api::connection::{create_tab_status_text, send_text_status_text};
use iterm2_api::text::decimal_string;
use iterm2_api::wire::{read_fields, read_varint, write_varint, WireValue};
use iterm2_api::{
    auth_string_from_output, create_tab_reply, create_tab_request, create_window_reply,
    create_window_request, decode_response, encode_command, handshake_headers, handshake_result,
    list_sessions_reply, list_sessions_request, missing_endpoint_error, send_text_reply,
    send_text_request, windows_reply, Authenticator, CommandChannel, CommandKind, ConnectAction,
    ConnectEvent, ConnectPhase, Connector, Error, Inbound, Response,
};

fn varint(v: u64) -> Vec<u8> {
    let mut out = Vec::new();
    write_varint(&mut out, v);
    out
}

fn bytes_field(number: u64, payload: &[u8]) -> Vec<u8> {
    let mut out = varint(number * 8 + 2);
    out.extend(varint(payload.len() as u64));
    out.extend_from_slice(payload);
    out
}

fn varint_field(number: u64, v: u64) -> Vec<u8> {
    let mut out = varint(number * 8);
    out.extend(varint(v));
    out
}

fn create_tab_frame(status: u64, session_id: &str) -> Vec<u8> {
    let mut body = varint_field(1, status);
    body.extend(bytes_field(4, session_id.as_bytes()));
    bytes_field(108, &body)
}

fn send_text_frame(status: u64) -> Vec<u8> {
    bytes_field(107, &varint_field(1, status))
}

fn open_channel_after(cmd: &iterm2_api::Command) -> CommandChannel {
    let mut ch = CommandChannel::new();
    ch.begin(cmd).unwrap();
    ch
}

#[test]
fn varint_encodes_known_values() {
    assert_eq!(varint(0), vec![0x00]);
    assert_eq!(varint(127), vec![0x7f]);
    assert_eq!(varint(300), vec![0xac, 0x02]);
    assert_eq!(varint(u64::MAX).len(), 10);
}

#[test]
fn varint_reads_back() {
    let b = vec![0xac, 0x02, 0x05];
    assert_eq!(read_varint(&b, 0), Some((300, 2)));
    assert_eq!(read_varint(&b, 2), Some((5, 3)));
    assert_eq!(read_varint(&[0x80, 0x80], 0), None);
    let big = varint(u64::MAX);
    assert_eq!(read_varint(&big, 0), Some((u64::MAX, 10)));
    let too_long = vec![0xff; 10];
    assert_eq!(read_varint(&too_long, 0), None);
}

#[test]
fn fields_are_split_in_order() {
    let mut b = varint_field(1, 7);
    b.extend(bytes_field(2, b"ab"));
    let fields = read_fields(&b).unwrap();
    assert_eq!(fields.len(), 2);
    assert_eq!(fields[0].number, 1);
    assert!(matches!(fields[0].value, WireValue::Varint(7)));
    assert_eq!(fields[1].number, 2);
    assert!(matches!(&fields[1].value, WireValue::Bytes(p) if p == b"ab"));
}

#[test]
fn create_window_command_bytes() {
    let cmd = create_window_request(None);
    assert_eq!(encode_command(&cmd), vec![0xe2, 0x06, 0x00]);
    let cmd = create_window_request(Some("Default"));
    let mut expected = vec![0xe2, 0x06, 0x09, 0x0a, 0x07];
    expected.extend_from_slice(b"Default");
    assert_eq!(encode_command(&cmd), expected);
}

#[test]
fn create_tab_command_bytes() {
    let cmd = create_tab_request(None, "pty-1");
    let mut expected = vec![0xe2, 0x06, 0x07, 0x12, 0x05];
    expected.extend_from_slice(b"pty-1");
    assert_eq!(encode_command(&cmd), expected);
}

#[test]
fn send_text_command_bytes_keep_text_verbatim() {
    let cmd = send_text_request("s1", "ls\r");
    let expected = vec![0xda, 0x06, 0x09, 0x0a, 0x02, b's', b'1', 0x12, 0x03, b'l', b's', b'\r'];
    assert_eq!(encode_command(&cmd), expected);
}

#[test]
fn list_sessions_command_bytes() {
    assert_eq!(encode_command(&list_sessions_request()), vec![0xd2, 0x06, 0x00]);
}

#[test]
fn ok_create_tab_reply_gives_session() {
    let mut ch = open_channel_after(&create_window_request(None));
    let resp = ch.finish(Inbound::Frame(create_tab_frame(0, "w0t0p0:ABC123"))).unwrap();
    let session = create_window_reply(resp).unwrap();
    assert_eq!(session.unique_identifier(), "w0t0p0:ABC123");
    assert!(!ch.is_closed());
    assert_eq!(ch.pending(), None);
}

#[test]
fn absent_status_counts_as_ok() {
    let frame = bytes_field(108, &bytes_field(4, b"w1t0p0:XYZ"));
    let resp = decode_response(&frame).unwrap();
    let session = create_tab_reply(resp).unwrap();
    assert_eq!(session.unique_identifier, "w1t0p0:XYZ");
}

#[test]
fn ok_send_text_reply_gives_unit() {
    let resp = decode_response(&send_text_frame(0)).unwrap();
    assert!(send_text_reply(resp).is_ok());
}

#[test]
fn invalid_profile_name_is_api_error() {
    let cmd = create_window_request(Some("bogus"));
    let mut ch = open_channel_after(&cmd);
    let resp = ch.finish(Inbound::Frame(create_tab_frame(1, ""))).unwrap();
    match create_window_reply(resp) {
        Err(Error::Api(m)) => {
            assert!(m.contains("INVALID_PROFILE_NAME"));
            assert_eq!(m, "Create window failed: INVALID_PROFILE_NAME");
        }
        other => panic!("unexpected {:?}", other),
    }
}

#[test]
fn create_tab_failure_names_status() {
    let resp = decode_response(&create_tab_frame(2, "")).unwrap();
    match create_tab_reply(resp) {
        Err(Error::Api(m)) => assert_eq!(m, "Create tab failed: INVALID_WINDOW_ID"),
        other => panic!("unexpected {:?}", other),
    }
}

#[test]
fn unknown_status_is_named_by_number() {
    let resp = decode_response(&create_tab_frame(17, "")).unwrap();
    match create_window_reply(resp) {
        Err(Error::Api(m)) => assert_eq!(m, "Create window failed: 17"),
        other => panic!("unexpected {:?}", other),
    }
    assert_eq!(create_tab_status_text(3), "INVALID_TAB_INDEX");
    assert_eq!(create_tab_status_text(4), "MISSING_SUBSTITUTION");
    assert_eq!(send_text_status_text(1), "SESSION_NOT_FOUND");
}

#[test]
fn send_text_session_not_found_is_api_error() {
    let resp = decode_response(&send_text_frame(1)).unwrap();
    match send_text_reply(resp) {
        Err(Error::Api(m)) => assert_eq!(m, "Send text failed: SESSION_NOT_FOUND"),
        other => panic!("unexpected {:?}", other),
    }
}

#[test]
fn send_text_given_create_tab_reply_is_protocol_error() {
    let mut ch = open_channel_after(&send_text_request("s1", "echo hi\r"));
    assert_eq!(ch.pending(), Some(CommandKind::SendText));
    let resp = ch.finish(Inbound::Frame(create_tab_frame(0, "w0t0p0:ABC123"))).unwrap();
    match send_text_reply(resp) {
        Err(Error::Protocol(m)) => assert_eq!(m, "expected send-text response"),
        other => panic!("unexpected {:?}", other),
    }
}

#[test]
fn other_mismatches_are_protocol_errors() {
    let resp = decode_response(&send_text_frame(0)).unwrap();
    match create_window_reply(resp) {
        Err(Error::Protocol(m)) => assert_eq!(m, "expected create-tab response"),
        other => panic!("unexpected {:?}", other),
    }
    let resp = decode_response(&send_text_frame(0)).unwrap();
    match list_sessions_reply(resp) {
        Err(Error::Protocol(m)) => assert_eq!(m, "expected list-sessions response"),
        other => panic!("unexpected {:?}", other),
    }
    let resp = decode_response(&[]).unwrap();
    assert!(matches!(resp, Response::Empty));
    assert!(matches!(windows_reply(resp), Err(Error::Protocol(_))));
}

fn list_frame() -> Vec<u8> {
    let tab = bytes_field(2, b"tab-1");
    let mut window = bytes_field(1, &tab);
    window.extend(bytes_field(1, &bytes_field(2, b"tab-2")));
    window.extend(bytes_field(2, b"pty-W1"));
    let mut body = bytes_field(1, &window);
    body.extend(bytes_field(2, &bytes_field(1, b"buried-1")));
    body.extend(bytes_field(2, &bytes_field(1, b"buried-2")));
    bytes_field(106, &body)
}

#[test]
fn list_sessions_returns_buried_sessions_only() {
    let mut ch = open_channel_after(&list_sessions_request());
    let resp = ch.finish(Inbound::Frame(list_frame())).unwrap();
    let sessions = list_sessions_reply(resp).unwrap();
    let ids: Vec<&str> = sessions.iter().map(|s| s.unique_identifier()).collect();
    assert_eq!(ids, vec!["buried-1", "buried-2"]);
}

#[test]
fn get_windows_returns_windows_and_tabs() {
    let resp = decode_response(&list_frame()).unwrap();
    let windows = windows_reply(resp).unwrap();
    assert_eq!(windows.len(), 1);
    assert_eq!(windows[0].window_id(), "pty-W1");
    let tabs: Vec<&str> = windows[0].tabs.iter().map(|t| t.tab_id.as_str()).collect();
    assert_eq!(tabs, vec!["tab-1", "tab-2"]);
}

#[test]
fn nested_decoders_read_their_fields() {
    let s = decode_session(&bytes_field(1, b"abc")).unwrap();
    assert_eq!(s.unique_identifier, "abc");
    let w = decode_window(&bytes_field(2, b"w")).unwrap();
    assert_eq!(w.window_id, "w");
    assert!(w.tabs.is_empty());
}

#[test]
fn server_error_and_other_submessages() {
    let resp = decode_response(&bytes_field(2, b"boom")).unwrap();
    assert!(matches!(&resp, Response::ServerError(m) if m == "boom"));
    let resp = decode_response(&bytes_field(120, b"")).unwrap();
    assert!(matches!(resp, Response::Other(120)));
    let mut frame = varint_field(1, 42);
    frame.extend(send_text_frame(0));
    let resp = decode_response(&frame).unwrap();
    assert!(matches!(resp, Response::SendText(s) if s.status == 0));
}

#[test]
fn truncated_frame_is_decode_error() {
    let frame = create_tab_frame(0, "w0t0p0:ABC123");
    for cut in 1..frame.len() {
        let part = &frame[..frame.len() - cut];
        if part.is_empty() {
            continue;
        }
        assert!(matches!(decode_response(part), Err(Error::Decode(_))), "cut {}", cut);
    }
}

#[test]
fn corrupted_tag_is_decode_error() {
    let mut frame = create_tab_frame(0, "x");
    frame[0] = (frame[0] & !0x07) | 0x03;
    assert!(matches!(decode_response(&frame), Err(Error::Decode(_))));
    assert!(matches!(decode_response(&[0x00, 0x01]), Err(Error::Decode(_))));
    assert!(matches!(decode_response(&[0x0f]), Err(Error::Decode(_))));
}

#[test]
fn wrong_wire_type_and_bad_utf8_are_decode_errors() {
    let frame = varint_field(108, 3);
    assert!(matches!(decode_response(&frame), Err(Error::Decode(_))));
    let frame = bytes_field(108, &bytes_field(4, &[0xff, 0xfe]));
    match decode_response(&frame) {
        Err(Error::Decode(m)) => assert_eq!(m, "unexpected value in field 4"),
        other => panic!("unexpected {:?}", other),
    }
}

#[test]
fn closed_stream_fails_every_later_operation() {
    let mut ch = open_channel_after(&list_sessions_request());
    match ch.finish(Inbound::EndOfStream) {
        Err(Error::Connection(m)) => assert_eq!(m, "connection closed"),
        other => panic!("unexpected {:?}", other),
    }
    assert!(ch.is_closed());
    for _ in 0..3 {
        match ch.begin(&send_text_request("s", "t")) {
            Err(Error::Connection(m)) => assert_eq!(m, "connection closed"),
            other => panic!("unexpected {:?}", other),
        }
        match ch.finish(Inbound::Frame(send_text_frame(0))) {
            Err(Error::Connection(m)) => assert_eq!(m, "connection closed"),
            other => panic!("unexpected {:?}", other),
        }
    }
    assert!(ch.is_closed());
}

#[test]
fn read_failure_closes_the_channel() {
    let mut ch = open_channel_after(&list_sessions_request());
    assert!(matches!(ch.finish(Inbound::ReadFailed), Err(Error::Connection(_))));
    assert!(ch.is_closed());
    let mut ch = open_channel_after(&list_sessions_request());
    assert!(matches!(ch.finish(Inbound::SendFailed), Err(Error::Connection(_))));
    assert!(ch.is_closed());
}

#[test]
fn non_binary_frame_is_connection_error_but_channel_stays_open() {
    let mut ch = open_channel_after(&list_sessions_request());
    match ch.finish(Inbound::NonBinary("Text(\"hi\")".to_string())) {
        Err(Error::Connection(m)) => {
            assert!(m.starts_with("Unexpected message type"));
            assert_eq!(m, "Unexpected message type: Text(\"hi\")");
        }
        other => panic!("unexpected {:?}", other),
    }
    assert!(!ch.is_closed());
    assert!(ch.begin(&list_sessions_request()).is_ok());
}

#[test]
fn one_command_at_a_time() {
    let mut ch = CommandChannel::new();
    assert!(matches!(ch.finish(Inbound::Frame(vec![])), Err(Error::Protocol(_))));
    let frame = ch.begin(&list_sessions_request()).unwrap();
    assert_eq!(frame, vec![0xd2, 0x06, 0x00]);
    assert!(matches!(ch.begin(&list_sessions_request()), Err(Error::Protocol(_))));
    assert_eq!(ch.pending(), Some(CommandKind::ListSessions));
    assert!(ch.finish(Inbound::Frame(list_frame())).is_ok());
    assert_eq!(ch.pending(), None);
}

#[test]
fn missing_endpoint_fails_before_any_write() {
    let mut c = Connector::new("/nowhere/socket", Authenticator::new(None, None));
    match c.step(ConnectEvent::EndpointChecked(false)) {
        ConnectAction::Fail(Error::Connection(m)) => {
            assert!(m.contains("/nowhere/socket"));
            assert!(m.contains("must be running with API server enabled"));
        }
        other => panic!("unexpected {:?}", other),
    }
    assert_eq!(c.phase(), ConnectPhase::Failed);
    assert!(matches!(c.step(ConnectEvent::SocketOpened), ConnectAction::Fail(_)));
    assert!(matches!(c.step(ConnectEvent::HandshakeAnswered(101)), ConnectAction::Fail(_)));
    assert_eq!(c.phase(), ConnectPhase::Failed);
    let e = missing_endpoint_error("/p");
    assert_eq!(
        e.message(),
        "iTerm2 Unix domain socket not found at: /p. iTerm2 must be running with API server enabled."
    );
}

#[test]
fn successful_connect_sequence() {
    let mut c = Connector::new("/s", Authenticator::new(None, Some("k1".to_string())));
    assert!(matches!(c.step(ConnectEvent::EndpointChecked(true)), ConnectAction::OpenSocket));
    match c.step(ConnectEvent::SocketOpened) {
        ConnectAction::SendHandshake(h) => {
            assert_eq!(h.len(), 9);
            assert_eq!(h[8], ("x-iterm2-key".to_string(), "k1".to_string()));
        }
        other => panic!("unexpected {:?}", other),
    }
    assert!(matches!(c.step(ConnectEvent::HandshakeAnswered(101)), ConnectAction::Ready));
    assert_eq!(c.phase(), ConnectPhase::Connected);
}

#[test]
fn socket_and_handshake_failures_are_connection_errors() {
    let mut c = Connector::new("/s", Authenticator::new(None, None));
    c.step(ConnectEvent::EndpointChecked(true));
    match c.step(ConnectEvent::SocketFailed("denied".to_string())) {
        ConnectAction::Fail(Error::Connection(m)) => {
            assert_eq!(m, "Failed to connect to Unix domain socket: denied")
        }
        other => panic!("unexpected {:?}", other),
    }
    let mut c = Connector::new("/s", Authenticator::new(None, None));
    c.step(ConnectEvent::EndpointChecked(true));
    c.step(ConnectEvent::SocketOpened);
    match c.step(ConnectEvent::HandshakeFailed("reset".to_string())) {
        ConnectAction::Fail(Error::Connection(m)) => assert_eq!(m, "WebSocket handshake failed: reset"),
        other => panic!("unexpected {:?}", other),
    }
    let mut c = Connector::new("/s", Authenticator::new(None, None));
    assert!(matches!(c.step(ConnectEvent::SocketOpened), ConnectAction::Fail(Error::Protocol(_))));
}

#[test]
fn handshake_rejection_names_status() {
    for status in [200u16, 403, 404, 500, 999, 100] {
        match handshake_result(status) {
            Err(Error::Connection(m)) => {
                assert!(m.contains(&status.to_string()), "{}", m);
                assert!(m.contains("Allow all apps to connect"));
            }
            other => panic!("unexpected {:?}", other),
        }
    }
    assert!(handshake_result(101).is_ok());
}

#[test]
fn handshake_rejection_gives_reason_phrase() {
    match handshake_result(403) {
        Err(Error::Connection(m)) => {
            assert!(m.starts_with("WebSocket handshake failed with status 403: Forbidden. "), "{}", m)
        }
        other => panic!("unexpected {:?}", other),
    }
    match handshake_result(599) {
        Err(Error::Connection(m)) => {
            assert!(m.starts_with("WebSocket handshake failed with status 599: Unknown reason."), "{}", m)
        }
        other => panic!("unexpected {:?}", other),
    }
}

#[test]
fn handshake_headers_without_credentials() {
    let h = handshake_headers(&Authenticator::new(None, None));
    let names: Vec<&str> = h.iter().map(|(n, _)| n.as_str()).collect();
    assert_eq!(
        names,
        vec![
            "Host",
            "Upgrade",
            "Connection",
            "Sec-WebSocket-Key",
            "Sec-WebSocket-Version",
            "Sec-WebSocket-Protocol",
            "Origin",
            "x-iterm2-library-version"
        ]
    );
    assert_eq!(h[5].1, "api.iterm2.com");
    assert_eq!(h[4].1, "13");
}

#[test]
fn cookie_wins_over_key() {
    let a = Authenticator::new(Some("c1".to_string()), Some("k1".to_string()));
    assert!(a.has_credentials());
    assert_eq!(a.get_auth_header(), Some("iTerm2-Auth-Cookie: c1".to_string()));
    assert_eq!(a.auth_header_field(), Some(("x-iterm2-cookie".to_string(), "c1".to_string())));
    let h = handshake_headers(&a);
    assert_eq!(h.last().unwrap().0, "x-iterm2-cookie");
}

#[test]
fn key_alone_and_no_credentials() {
    let a = Authenticator::new(None, Some("k1".to_string()));
    assert!(a.has_credentials());
    assert_eq!(a.get_auth_header(), Some("iTerm2-Auth-Key: k1".to_string()));
    let none = Authenticator::new(None, None);
    assert!(!none.has_credentials());
    assert_eq!(none.get_auth_header(), None);
    assert_eq!(none.auth_header_field(), None);
}

#[test]
fn applescript_output_is_trimmed() {
    let r = auth_string_from_output(true, b"  secret-token\n".to_vec(), "");
    assert_eq!(r.unwrap(), "secret-token");
    let r = auth_string_from_output(true, "\u{3000}\ttok en\u{a0}\r\n".as_bytes().to_vec(), "");
    assert_eq!(r.unwrap(), "tok en");
}

#[test]
fn applescript_failure_is_authentication_error() {
    match auth_string_from_output(false, vec![], "not allowed") {
        Err(Error::Authentication(m)) => assert_eq!(m, "AppleScript failed: not allowed"),
        other => panic!("unexpected {:?}", other),
    }
    assert!(matches!(
        auth_string_from_output(true, vec![0xff, 0x00], ""),
        Err(Error::Utf8(_))
    ));
}

#[test]
fn decimal_numerals() {
    assert_eq!(decimal_string(0), "0");
    assert_eq!(decimal_string(101), "101");
    assert_eq!(decimal_string(u64::MAX), "18446744073709551615");
}

#[test]
fn error_describe_prefixes_kind() {
    assert_eq!(Error::Api("x".to_string()).describe(), "API error: x");
    assert_eq!(Error::Decode("y".to_string()).describe(), "Decode error: y");
    assert_eq!(Error::Protocol("z".to_string()).describe(), "Protocol error: z");
    assert_eq!(Error::Connection("w".to_string()).describe(), "Connection failed: w");
    assert_eq!(Error::Utf8("v".to_string()).describe(), "UTF-8 error: v");
}

fn session_link(id: &str) -> Vec<u8> {
    bytes_field(2, &bytes_field(1, &bytes_field(1, id.as_bytes())))
}

#[test]
fn tab_sessions_follow_split_tree() {
    let mut inner = session_link("s2");
    inner.extend(session_link("s3"));
    let mut root = vec![0x08, 0x01];
    root.extend(session_link("s1"));
    root.extend(bytes_field(2, &bytes_field(2, &inner)));
    let mut tab = bytes_field(2, b"tab-9");
    tab.extend(bytes_field(3, &root));
    let t = decode_tab(&tab).unwrap();
    assert_eq!(t.tab_id(), "tab-9");
    let ids: Vec<&str> = t.sessions.iter().map(|s| s.unique_identifier()).collect();
    assert_eq!(ids, vec!["s1", "s2", "s3"]);
    let empty_link = bytes_field(2, b"");
    assert!(decode_node(&empty_link).unwrap().is_empty());
    let bad = bytes_field(2, &bytes_field(1, &[0x0a, 0x05, b'x']));
    assert!(matches!(decode_node(&bad), Err(Error::Decode(_))));
}

#[test]
fn command_frame_reads_back_as_one_field() {
    let frame = encode_command(&send_text_request("s1", "ls\r"));
    let fields = read_fields(&frame).unwrap();
    assert_eq!(fields.len(), 1);
    assert_eq!(fields[0].number, 107);
    match &fields[0].value {
        WireValue::Bytes(p) => {
            let inner = read_fields(p).unwrap();
            assert_eq!(inner.len(), 2);
            assert!(matches!(&inner[1].value, WireValue::Bytes(t) if t == b"ls\r"));
        }
        other => panic!("unexpected {:?}", other),
    }
    for keep in 1..frame.len() {
        assert!(read_fields(&frame[..keep]).is_none());
    }
}
