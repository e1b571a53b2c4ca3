use weather_fanout::failure::{decimal_text, status_code, ErrorKind, Failure};
use weather_fanout::response::{respond, serialize_failure};

#[test]
fn decimal_text_writes_digits() {
    assert_eq!(decimal_text(0), "0");
    assert_eq!(decimal_text(7), "7");
    assert_eq!(decimal_text(404), "404");
    assert_eq!(decimal_text(4294967295), "4294967295");
}

#[test]
fn status_codes_follow_kinds() {
    assert_eq!(status_code(ErrorKind::BadInput), 400);
    assert_eq!(status_code(ErrorKind::BadMethod), 405);
    assert_eq!(status_code(ErrorKind::Upstream), 500);
    assert_eq!(status_code(ErrorKind::Internal), 500);
}

#[test]
fn context_is_prepended() {
    let f = Failure::new(ErrorKind::Upstream, "timed out".to_string())
        .context("middle".to_string())
        .context("outer".to_string());
    assert_eq!(f.kind, ErrorKind::Upstream);
    assert_eq!(f.chain, vec!["outer".to_string(), "middle".to_string(), "timed out".to_string()]);
    assert_eq!(f.status(), 500);
    assert_eq!(f.describe(), "outer\n\nCaused by:\n    middle\n    timed out");
}

#[test]
fn single_message_is_described_alone() {
    let f = Failure::new(ErrorKind::Internal, "oops".to_string());
    assert_eq!(f.describe(), "oops");
}

#[test]
fn serialize_failure_is_internal() {
    let f = serialize_failure("key must be a string".to_string());
    assert_eq!(f.kind, ErrorKind::Internal);
    let reply = respond(Err(f));
    assert_eq!(reply.status, 500);
    assert_eq!(reply.body, "serializing result to json\n\nCaused by:\n    key must be a string");
}

#[test]
fn success_reply_is_json() {
    let reply = respond(Ok("[]".to_string()));
    assert_eq!(reply.status, 200);
    assert!(reply.json);
    assert_eq!(reply.body, "[]");
}
