use monochat::json::get_string_field;
use monochat::source::chzzk::{
    decode_chat_event, decode_frame, encode_ping, encode_pong, extract_content_field,
    resolve_access_token, resolve_channel_id, Auth, ChzzkAdapter, ChzzkError,
};

#[test]
fn bootstrap_rejects_api_error() {
    let resp = "{\"code\":403,\"message\":\"forbidden\",\"content\":null}";
    let err = resolve_channel_id(resp).unwrap_err();
    match &err {
        ChzzkError::Api { code, message } => {
            assert_eq!(*code, 403);
            assert_eq!(message.as_deref(), Some("forbidden"));
        },
        other => panic!("expected api error, got {:?}", other),
    }
    let text = err.describe();
    assert!(text.contains("403"));
    assert!(text.contains("forbidden"));
    assert_eq!(text, "chzzk api error: 403 (forbidden)");
}

#[test]
fn bootstrap_error_without_message() {
    let resp = "{\"code\":500,\"content\":null}";
    let err = resolve_channel_id(resp).unwrap_err();
    assert_eq!(err, ChzzkError::Api { code: 500, message: None });
    assert_eq!(err.describe(), "chzzk api error: 500");
}

#[test]
fn bootstrap_resolves_channel_and_token() {
    let chat = "{\"code\":200,\"message\":null,\"content\":{\"chatChannelId\":\"ch42\"}}";
    assert_eq!(resolve_channel_id(chat).unwrap(), "ch42");
    let token = "{\"code\":200,\"message\":null,\"content\":{\"accessToken\":\"tok9\"}}";
    assert_eq!(resolve_access_token(token).unwrap(), "tok9");
}

#[test]
fn bootstrap_rejects_malformed_envelope() {
    assert_eq!(resolve_channel_id("not json").unwrap_err(), ChzzkError::BadEnvelope);
    assert_eq!(resolve_channel_id("{\"content\":{}}").unwrap_err(), ChzzkError::BadEnvelope);
    let no_field = "{\"code\":200,\"content\":{}}";
    assert_eq!(extract_content_field(no_field, "chatChannelId").unwrap_err(), ChzzkError::BadEnvelope);
}

#[test]
fn auth_envelope_exact() {
    let auth = Auth::new("tok".to_string());
    assert_eq!(auth.command(), 100);
    assert_eq!(auth.version(), 3);
    let frame = auth.encode("abc");
    assert_eq!(
        frame,
        "{\"svcid\":\"game\",\"cid\":\"abc\",\"cmd\":100,\"ver\":3,\"bdy\":\"{\\\"accTkn\\\":\\\"tok\\\",\\\"auth\\\":\\\"READ\\\"}\"}"
    );
    // The double-encoded body must parse back through real JSON.
    let body = get_string_field(&frame, "bdy").unwrap();
    assert_eq!(body, "{\"accTkn\":\"tok\",\"auth\":\"READ\"}");
    assert_eq!(get_string_field(&body, "accTkn").unwrap(), "tok");
    assert_eq!(get_string_field(&body, "auth").unwrap(), "READ");
}

#[test]
fn auth_envelope_escapes_token() {
    let auth = Auth::new("a\"b\\c".to_string());
    let frame = auth.encode("cid");
    let body = get_string_field(&frame, "bdy").unwrap();
    assert_eq!(get_string_field(&body, "accTkn").unwrap(), "a\"b\\c");
}

#[test]
fn keepalive_envelopes_exact() {
    assert_eq!(
        encode_ping("abc"),
        "{\"svcid\":\"game\",\"cid\":\"abc\",\"cmd\":0,\"ver\":3,\"bdy\":\"null\"}"
    );
    assert_eq!(
        encode_pong("abc"),
        "{\"svcid\":\"game\",\"cid\":\"abc\",\"cmd\":10000,\"ver\":3,\"bdy\":\"null\"}"
    );
}

fn event_json(profile: &str, msg: &str, extras: &str) -> String {
    let mut v = String::from("{\"profile\":");
    v.push_str(&quote(profile));
    v.push_str(",\"msg\":");
    v.push_str(&quote(msg));
    v.push_str(",\"extras\":");
    v.push_str(&quote(extras));
    v.push('}');
    v
}

fn quote(s: &str) -> String {
    let mut q = String::from("\"");
    for c in s.chars() {
        match c {
            '"' => q.push_str("\\\""),
            '\\' => q.push_str("\\\\"),
            _ => q.push(c),
        }
    }
    q.push('"');
    q
}

fn frame_json(events: &[String]) -> String {
    let mut arr = String::from("[");
    for (i, e) in events.iter().enumerate() {
        if i > 0 {
            arr.push(',');
        }
        arr.push_str(e);
    }
    arr.push(']');
    let mut f = String::from("{\"svcid\":\"game\",\"bdy\":");
    f.push_str(&quote(&arr));
    f.push('}');
    f
}

#[test]
fn decode_event_with_donation() {
    let ev = event_json("{\"nickname\":\"Alice\"}", "hi", "{\"payAmount\":500}");
    let m = decode_chat_event(&ev).unwrap();
    assert_eq!(m.sender, "Alice");
    assert_eq!(m.content.as_deref(), Some("hi"));
    assert_eq!(m.donated, Some(500));
}

#[test]
fn decode_event_without_donation() {
    let ev = event_json("{\"nickname\":\"Bob\"}", "yo", "{}");
    let m = decode_chat_event(&ev).unwrap();
    assert_eq!(m.sender, "Bob");
    assert_eq!(m.content.as_deref(), Some("yo"));
    assert_eq!(m.donated, None);
}

#[test]
fn decode_event_malformed_profile_dropped() {
    let bad = event_json("not json", "hi", "{}");
    assert!(decode_chat_event(&bad).is_none());
    let good = event_json("{\"nickname\":\"Alice\"}", "hi", "{}");
    let frame = frame_json(&[good, bad]);
    let out = decode_frame(&frame);
    assert_eq!(out.len(), 1);
    assert_eq!(out[0].sender, "Alice");
}

#[test]
fn decode_event_malformed_extras_dropped() {
    let bad = event_json("{\"nickname\":\"Alice\"}", "hi", "oops");
    assert!(decode_chat_event(&bad).is_none());
    let non_numeric = event_json("{\"nickname\":\"Alice\"}", "hi", "{\"payAmount\":\"x\"}");
    assert!(decode_chat_event(&non_numeric).is_none());
}

#[test]
fn decode_frame_malformed_yields_nothing() {
    assert_eq!(decode_frame("{").len(), 0);
    assert_eq!(decode_frame("{\"bdy\":\"not an array\"}").len(), 0);
    assert_eq!(decode_frame("{\"no_body\":1}").len(), 0);
}

#[test]
fn chzzk_adapter_streams_and_filters() {
    let mut a = ChzzkAdapter::new("cid".to_string(), "tok".to_string());
    let auth_frame = a.on_connect(true).unwrap();
    assert_eq!(auth_frame, Auth::new("tok".to_string()).encode("cid"));
    a.on_auth_sent(true);

    let (ping, pong) = a.keepalive_frames();
    assert_eq!(ping, encode_ping("cid"));
    assert_eq!(pong, encode_pong("cid"));

    let e1 = event_json("{\"nickname\":\"Alice\"}", "one", "{}");
    let e2 = event_json("{\"nickname\":\"Bob\"}", "two", "{\"payAmount\":3}");
    let good = frame_json(&[e1, e2]);
    let malformed = "junk";

    let mut out = Vec::new();
    for f in [good.as_str(), malformed] {
        out.extend(a.on_frame(f));
    }
    assert_eq!(out.len(), 2);
    assert_eq!(out[0].sender, "Alice");
    assert_eq!(out[0].content.as_deref(), Some("one"));
    assert_eq!(out[1].sender, "Bob");
    assert_eq!(out[1].donated, Some(3));

    a.cancel();
    assert!(a.is_terminated());
    assert!(a.on_frame(good.as_str()).is_empty());
}

#[test]
fn chzzk_adapter_failures_terminate() {
    let mut a = ChzzkAdapter::new("c".to_string(), "t".to_string());
    assert!(a.on_connect(false).is_none());
    assert!(a.is_terminated());

    let mut b = ChzzkAdapter::new("c".to_string(), "t".to_string());
    b.on_connect(true).unwrap();
    b.on_auth_sent(false);
    assert!(b.is_terminated());

    let mut c = ChzzkAdapter::new("c".to_string(), "t".to_string());
    c.on_connect(true).unwrap();
    c.on_auth_sent(true);
    c.on_keepalive_sent(false);
    assert!(c.is_terminated());
}
