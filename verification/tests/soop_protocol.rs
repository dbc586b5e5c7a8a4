use monochat::source::soop::{
    handle_chatmesg, handle_sendballoon, handle_setbjstat, parse_packet, resolve_aqua_session,
    write_joinch, write_keepalive, write_login, write_packet, SoopAdapter, SoopError,
};
use monochat::text::{parse_u64, split_fields};

#[test]
fn write_packet_exact_header() {
    assert_eq!(write_packet(0x02, "X"), "\u{1b}\u{9}000200000100X");
}

#[test]
fn write_packet_empty_body() {
    assert_eq!(write_packet(0x07, ""), "\u{1b}\u{9}000700000000");
}

#[test]
fn keepalive_login_joinch_exact() {
    assert_eq!(write_keepalive(), "\u{1b}\u{9}000000000100\u{c}");
    assert_eq!(write_login(), "\u{1b}\u{9}000100000600\u{c}\u{c}\u{c}16\u{c}");
    assert_eq!(
        write_joinch(123, "pw"),
        "\u{1b}\u{9}000200002200\u{c}123\u{c}\u{c}0\u{c}\u{c}log\u{11}\u{12}pwd\u{11}pw\u{12}\u{c}"
    );
}

#[test]
fn write_packet_counts_bytes_not_chars() {
    // "é" is one character but two UTF-8 bytes: the length field says 2.
    let packet = write_packet(0x05, "\u{e9}");
    assert_eq!(packet, "\u{1b}\u{9}000500000200\u{e9}");
    assert_eq!(&packet[6..12], "000002");
    // A 3-byte and a 4-byte character.
    assert_eq!(&write_packet(0x05, "\u{ac00}")[6..12], "000003");
    assert_eq!(&write_packet(0x05, "\u{1f600}")[6..12], "000004");
}

#[test]
fn write_joinch_counts_password_bytes() {
    // Body: 1 delimiter + "1" + 14 fixed + 2-byte "é" + 2 trailing = 20 bytes.
    let packet = write_joinch(1, "\u{e9}");
    assert_eq!(&packet[6..12], "000020");
}

#[test]
fn aqua_session_resolves_all_fields() {
    let resp = "{\"CHANNEL\":{\"CHDOMAIN\":\"chat.example\",\"CHPT\":\"8001\",\"CHATNO\":99,\"PWD\":\"pw\"}}";
    let (domain, port, chatno, pwd) = resolve_aqua_session(resp).unwrap();
    assert_eq!(domain, "chat.example");
    assert_eq!(port, "8001");
    assert_eq!(chatno, 99);
    assert_eq!(pwd, "pw");
}

#[test]
fn aqua_session_missing_password_fails() {
    // A missing PWD field is an error: no default password is substituted.
    let resp = "{\"CHANNEL\":{\"CHDOMAIN\":\"d\",\"CHPT\":\"8001\",\"CHATNO\":99}}";
    let e = resolve_aqua_session(resp).unwrap_err();
    assert_eq!(e, SoopError::BadAquaResponse);
    assert_eq!(e.describe(), "invalid aqua response");
}

#[test]
fn aqua_session_rejects_bad_fields() {
    assert!(resolve_aqua_session("not json").is_err());
    assert!(resolve_aqua_session("{\"OTHER\":1}").is_err());
    let no_domain = "{\"CHANNEL\":{\"CHPT\":\"8001\",\"CHATNO\":99,\"PWD\":\"\"}}";
    assert!(resolve_aqua_session(no_domain).is_err());
    let huge_chatno = "{\"CHANNEL\":{\"CHDOMAIN\":\"d\",\"CHPT\":\"1\",\"CHATNO\":4294967296,\"PWD\":\"\"}}";
    assert!(resolve_aqua_session(huge_chatno).is_err());
}

#[test]
fn parse_packet_too_short() {
    let e = parse_packet("short").unwrap_err();
    assert_eq!(e, SoopError::TooShort);
    assert_eq!(e.describe(), "packet too short");
}

#[test]
fn parse_packet_bad_type() {
    let e = parse_packet("\u{1b}\u{9}00xx00000000").unwrap_err();
    assert_eq!(e, SoopError::BadPacketType);
    assert_eq!(e.describe(), "failed to parse packet type");
}

#[test]
fn parse_packet_roundtrip() {
    let packet = write_packet(0x12, "a\u{c}b");
    let (t, body) = parse_packet(&packet).unwrap();
    assert_eq!(t, 0x12);
    assert_eq!(body, "a\u{c}b");
}

#[test]
fn parse_packet_ignores_declared_length() {
    // The declared body length is never cross-checked against the body.
    let (t, body) = parse_packet("\u{1b}\u{9}000599999900hello").unwrap();
    assert_eq!(t, 5);
    assert_eq!(body, "hello");
}

#[test]
fn chatmesg_fields() {
    let m = handle_chatmesg("_\u{c}msg\u{c}x\u{c}x\u{c}x\u{c}name\u{c}rest").unwrap();
    assert_eq!(m.sender, "name");
    assert_eq!(m.content.as_deref(), Some("msg"));
    assert_eq!(m.donated, None);
}

#[test]
fn chatmesg_missing_name() {
    let e = handle_chatmesg("_\u{c}msg").unwrap_err();
    assert_eq!(e, SoopError::BadChatPacket);
    assert_eq!(e.describe(), "invalid chatmesg packet");
}

#[test]
fn sendballoon_fields() {
    let m = handle_sendballoon("_\u{c}_\u{c}user\u{c}77\u{c}_").unwrap();
    assert_eq!(m.sender, "user");
    assert_eq!(m.content, None);
    assert_eq!(m.donated, Some(77));
}

#[test]
fn sendballoon_non_numeric_amount() {
    let e = handle_sendballoon("_\u{c}_\u{c}user\u{c}7x\u{c}_").unwrap_err();
    assert_eq!(e, SoopError::BadAmount);
    assert_eq!(e.describe(), "failed to parse amount");
}

#[test]
fn sendballoon_missing_fields() {
    let e = handle_sendballoon("_\u{c}_").unwrap_err();
    assert_eq!(e, SoopError::BadBalloonPacket);
    assert_eq!(e.describe(), "invalid sendballoon packet");
}

#[test]
fn setbjstat_lowers_liveness() {
    let mut alive = true;
    let r = handle_setbjstat(&mut alive);
    assert!(!alive);
    assert_eq!(r.unwrap_err(), SoopError::Skip);
}

#[test]
fn split_fields_basics() {
    let f = split_fields("a\u{c}\u{c}b", '\u{c}');
    assert_eq!(f, vec!["a".to_string(), "".to_string(), "b".to_string()]);
    assert_eq!(split_fields("", '\u{c}'), vec!["".to_string()]);
}

#[test]
fn parse_u64_bounds() {
    assert_eq!(parse_u64("77"), Some(77));
    assert_eq!(parse_u64("0"), Some(0));
    assert_eq!(parse_u64("18446744073709551615"), Some(u64::MAX));
    assert_eq!(parse_u64("18446744073709551616"), None);
    assert_eq!(parse_u64(""), None);
    assert_eq!(parse_u64("+7"), None);
}

#[test]
fn soop_adapter_streams_and_filters() {
    let mut a = SoopAdapter::new(42, "secret".to_string());
    let (login, join) = a.on_connect(true).unwrap();
    assert_eq!(login, write_login());
    assert_eq!(join, write_joinch(42, "secret"));
    a.on_handshake_sent(true);
    a.on_ack();

    let chat1 = write_packet(0x05, "_\u{c}hello\u{c}x\u{c}x\u{c}x\u{c}alice\u{c}r");
    let chat2 = write_packet(0x05, "_\u{c}world\u{c}x\u{c}x\u{c}x\u{c}bob\u{c}r");
    let balloon = write_packet(0x12, "_\u{c}_\u{c}carol\u{c}9\u{c}_");
    let malformed = "zz";
    let unknown = write_packet(0x33, "whatever");

    let mut out = Vec::new();
    for f in [chat1.as_str(), malformed, balloon.as_str(), unknown.as_str(), chat2.as_str()] {
        if let Some(m) = a.on_frame(f) {
            out.push(m);
        }
    }
    assert_eq!(out.len(), 3);
    assert_eq!(out[0].sender, "alice");
    assert_eq!(out[0].content.as_deref(), Some("hello"));
    assert_eq!(out[1].sender, "carol");
    assert_eq!(out[1].donated, Some(9));
    assert_eq!(out[2].sender, "bob");

    a.cancel();
    assert!(a.is_terminated());
    assert!(a.on_frame(chat1.as_str()).is_none());
    a.cancel();
    assert!(a.is_terminated());
}

#[test]
fn soop_status_change_stops_keepalive() {
    let mut a = SoopAdapter::new(7, String::new());
    a.on_connect(true).unwrap();
    a.on_handshake_sent(true);
    a.on_ack();
    assert_eq!(a.keepalive_frame().unwrap(), write_keepalive());

    let status = write_packet(0x07, "");
    assert!(a.on_frame(status.as_str()).is_none());
    assert!(a.keepalive_frame().is_none());
    a.on_keepalive_stop();
    assert!(a.is_terminated());
}

#[test]
fn soop_connect_failure_terminates() {
    let mut a = SoopAdapter::new(7, String::new());
    assert!(a.on_connect(false).is_none());
    assert!(a.is_terminated());

    let mut b = SoopAdapter::new(7, String::new());
    b.on_connect(true).unwrap();
    b.on_handshake_sent(false);
    assert!(b.is_terminated());

    let mut c = SoopAdapter::new(7, String::new());
    c.on_connect(true).unwrap();
    c.on_handshake_sent(true);
    c.on_ack();
    c.on_keepalive_sent(false);
    assert!(c.is_terminated());
}
